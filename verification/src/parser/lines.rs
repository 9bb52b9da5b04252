//! The parser's line counter: whenever a parsing step succeeds, the counter has grown by the
//! line breaks among the tokens the step read.
use vstd::prelude::*;

use crate::lexer::TokenView;
use crate::parser::astnode::AstNodeView;
use crate::parser::syntax::{
    accessor,
    assignment,
    bump,
    env,
    env_loop,
    env_node,
    env_step,
    fd_args,
    fd_body,
    fd_inherit,
    fd_name,
    fn_clause,
    function_call,
    function_declaration,
    generic_op,
    has_dot,
    identifier,
    inherit,
    let_loop,
    number_outcome,
    number_scan,
    operator,
    program,
    unary,
    unary_capable,
    EnvStep,
    Parsed,
};
use crate::parser::ParseContext;
use crate::symbols::{Operators, OtherOperators};

verus! {

/// The token is a line break: whitespace that is `\n` or `\r\n`.
pub open spec fn is_line_break(t: TokenView) -> bool {
    t matches TokenView::Whitespace(ws) && (ws == seq!['\r', '\n'] || ws == seq!['\n'])
}

/// The number of line breaks among the tokens of index `a` up to, not including, `b`.
pub open spec fn line_breaks(toks: Seq<TokenView>, a: int, b: int) -> int
    decreases b - a,
{
    if b <= a {
        0
    } else {
        line_breaks(toks, a, b - 1) + if is_line_break(toks[b - 1]) {
            1int
        } else {
            0int
        }
    }
}

/// A successful outcome stops between `c` and the end of the tokens, with the line counter
/// `l` grown by the line breaks read.
pub open spec fn counts_lines<T, E>(toks: Seq<TokenView>, c: int, l: int, o: (Result<T, E>, int, int)) -> bool {
    o.0 is Ok ==> c <= o.1 <= toks.len() && o.2 == l + line_breaks(toks, c, o.1)
}

/// An outcome of the recursive group, if there is one, counts the line breaks read.
pub open spec fn counts_lines_opt(toks: Seq<TokenView>, c: int, l: int, o: Option<Parsed>) -> bool {
    o matches Some(p) ==> counts_lines(toks, c, l, p)
}

/// A step in an environment that goes on has read past `c`, counting the line breaks.
pub open spec fn step_counts_lines(toks: Seq<TokenView>, c: int, l: int, s: EnvStep) -> bool {
    match s {
        EnvStep::Next(c2, l2, _) => c < c2 <= toks.len() && l2 == l + line_breaks(toks, c, c2),
        EnvStep::Done(o) => counts_lines_opt(toks, c, l, o),
    }
}

proof fn lemma_line_breaks_split(toks: Seq<TokenView>, a: int, b: int, c: int)
    requires
        a <= b <= c,
    ensures
        line_breaks(toks, a, c) == line_breaks(toks, a, b) + line_breaks(toks, b, c),
    decreases c - b,
{
    if b < c {
        lemma_line_breaks_split(toks, a, b, c - 1);
    }
}

/// Reading the token at `c` with the counter going from `l` to `l1`, then on to `c2` with the
/// counter going to `l2`, counts the line breaks from `c` to `c2`.
proof fn lemma_after_one(toks: Seq<TokenView>, c: int, l: int, l1: int, c2: int, l2: int)
    requires
        0 <= c < toks.len(),
        c + 1 <= c2,
        l1 == l + if is_line_break(toks[c]) {
            1int
        } else {
            0int
        },
        l2 == l1 + line_breaks(toks, c + 1, c2),
    ensures
        l2 == l + line_breaks(toks, c, c2),
{
    lemma_line_breaks_split(toks, c, c + 1, c2);
    assert(line_breaks(toks, c, c) == 0);
}

proof fn lemma_number_scan_lines(toks: Seq<TokenView>, c: int, acc: Seq<char>)
    requires
        0 <= c <= toks.len(),
    ensures
        number_scan(toks, c, acc) matches Ok((_, e)) ==> c <= e <= toks.len() && line_breaks(
            toks,
            c,
            e,
        ) == 0,
    decreases toks.len() - c,
{
    if c < toks.len() {
        match toks[c] {
            TokenView::Number(n) => {
                lemma_number_scan_lines(toks, c + 1, acc + n);
                if let Ok((_, e)) = number_scan(toks, c, acc) {
                    lemma_after_one(toks, c, 0, 0, e, 0);
                }
            },
            TokenView::Operator(Operators::Other(OtherOperators::ACCESSOR)) => {
                if !has_dot(acc) {
                    lemma_number_scan_lines(toks, c + 1, acc + seq!['.']);
                    if let Ok((_, e)) = number_scan(toks, c, acc) {
                        lemma_after_one(toks, c, 0, 0, e, 0);
                    }
                }
            },
            _ => {},
        }
    }
}

proof fn lemma_number_lines(toks: Seq<TokenView>, c: int, l: int, sp: int, st: TokenView)
    requires
        0 <= c <= toks.len(),
    ensures
        counts_lines(toks, c, l, number_outcome(toks, c, l, sp, st)),
{
    match st {
        TokenView::Number(n) => lemma_number_scan_lines(toks, c, n),
        _ => lemma_number_scan_lines(toks, c, seq!['0', '.']),
    }
}

proof fn lemma_unary_lines(toks: Seq<TokenView>, c: int, l: int, op: Operators)
    requires
        0 <= c <= toks.len(),
    ensures
        counts_lines(toks, c, l, unary(toks, c, l, op)),
    decreases toks.len() - c,
{
    if c < toks.len() {
        let o = unary(toks, c, l, op);
        match toks[c] {
            TokenView::Whitespace(ws) => {
                lemma_unary_lines(toks, c + 1, bump(ws, l), op);
                if o.0 is Ok {
                    lemma_after_one(toks, c, l, bump(ws, l), o.1, o.2);
                }
            },
            TokenView::Number(_) => {
                lemma_number_lines(toks, c + 1, l, c, toks[c]);
                if o.0 is Ok {
                    lemma_after_one(toks, c, l, l, o.1, o.2);
                }
            },
            _ => {
                if o.0 is Ok {
                    lemma_after_one(toks, c, l, l, c + 1, l);
                }
            },
        }
    }
}

proof fn lemma_fn_clause_lines(toks: Seq<TokenView>, c: int, l: int, args: Seq<AstNodeView>)
    requires
        0 <= c <= toks.len(),
    ensures
        counts_lines(toks, c, l, fn_clause(toks, c, l, args)),
    decreases toks.len() - c,
{
    if c < toks.len() {
        let o = fn_clause(toks, c, l, args);
        match toks[c] {
            TokenView::Whitespace(ws) => {
                lemma_fn_clause_lines(toks, c + 1, bump(ws, l), args);
                if o.0 is Ok {
                    lemma_after_one(toks, c, l, bump(ws, l), o.1, o.2);
                }
            },
            TokenView::LeftBracket => {
                if args.len() == 0 {
                    lemma_fn_clause_lines(toks, c + 1, l, args);
                    if o.0 is Ok {
                        lemma_after_one(toks, c, l, l, o.1, o.2);
                    }
                }
            },
            TokenView::Comma => {
                lemma_fn_clause_lines(toks, c + 1, l, args);
                if o.0 is Ok {
                    lemma_after_one(toks, c, l, l, o.1, o.2);
                }
            },
            TokenView::Identifier(id) => {
                lemma_fn_clause_lines(toks, c + 1, l, args.push(AstNodeView::Identifier(id)));
                if o.0 is Ok {
                    lemma_after_one(toks, c, l, l, o.1, o.2);
                }
            },
            TokenView::RightBracket => {
                lemma_after_one(toks, c, l, l, c + 1, l);
            },
            _ => {},
        }
    }
}

proof fn lemma_inherit_lines(toks: Seq<TokenView>, c: int, l: int, names: Option<Seq<Seq<char>>>)
    requires
        0 <= c <= toks.len(),
    ensures
        counts_lines(toks, c, l, inherit(toks, c, l, names)),
    decreases toks.len() - c,
{
    if c < toks.len() {
        let o = inherit(toks, c, l, names);
        let has_names = names matches Some(ns) && ns.len() > 0;
        match toks[c] {
            TokenView::Whitespace(ws) => {
                lemma_inherit_lines(toks, c + 1, bump(ws, l), names);
                if o.0 is Ok {
                    lemma_after_one(toks, c, l, bump(ws, l), o.1, o.2);
                }
            },
            TokenView::LeftParen => {
                if !has_names {
                    lemma_inherit_lines(toks, c + 1, l, names);
                    if o.0 is Ok {
                        lemma_after_one(toks, c, l, l, o.1, o.2);
                    }
                }
            },
            TokenView::RightParen => {
                lemma_after_one(toks, c, l, l, c + 1, l);
            },
            TokenView::Operator(Operators::Arithmetic(_)) => {
                if !has_names {
                    lemma_inherit_lines(toks, c + 1, l, None);
                    if o.0 is Ok {
                        lemma_after_one(toks, c, l, l, o.1, o.2);
                    }
                }
            },
            TokenView::Identifier(id) => {
                if let Some(ns) = names {
                    lemma_inherit_lines(toks, c + 1, l, Some(ns.push(id)));
                    if o.0 is Ok {
                        lemma_after_one(toks, c, l, l, o.1, o.2);
                    }
                }
            },
            TokenView::Comma => {
                lemma_inherit_lines(toks, c + 1, l, names);
                if o.0 is Ok {
                    lemma_after_one(toks, c, l, l, o.1, o.2);
                }
            },
            _ => {},
        }
    }
}

proof fn lemma_function_call_lines(toks: Seq<TokenView>, c: int, l: int, id: AstNodeView)
    requires
        0 <= c <= toks.len(),
    ensures
        counts_lines(toks, c, l, function_call(toks, c, l, id)),
{
    if c < toks.len() && toks[c] is LeftBracket {
        lemma_fn_clause_lines(toks, c + 1, l, Seq::empty());
        let o = function_call(toks, c, l, id);
        if o.0 is Ok {
            lemma_after_one(toks, c, l, l, o.1, o.2);
        }
    }
}

proof fn lemma_identifier_lines(
    toks: Seq<TokenView>,
    c: int,
    l: int,
    id: Seq<char>,
    ctx: ParseContext,
)
    requires
        0 <= c <= toks.len(),
    ensures
        counts_lines(toks, c, l, identifier(toks, c, l, id, ctx)),
{
    lemma_function_call_lines(toks, c, l, AstNodeView::Identifier(id));
}

proof fn lemma_accessor_lines(
    toks: Seq<TokenView>,
    c: int,
    l: int,
    op: Operators,
    prev: AstNodeView,
)
    requires
        0 <= c <= toks.len(),
    ensures
        counts_lines(toks, c, l, accessor(toks, c, l, op, prev)),
{
    if c < toks.len() && toks[c] is Identifier {
        lemma_after_one(toks, c, l, l, c + 1, l);
    }
}

proof fn lemma_fd_name_lines(toks: Seq<TokenView>, c: int, l: int)
    requires
        0 <= c <= toks.len(),
    ensures
        counts_lines(toks, c, l, fd_name(toks, c, l)),
    decreases toks.len() - c,
{
    if c < toks.len() {
        let o = fd_name(toks, c, l);
        match toks[c] {
            TokenView::Whitespace(ws) => {
                lemma_fd_name_lines(toks, c + 1, bump(ws, l));
                if o.0 is Ok {
                    lemma_after_one(toks, c, l, bump(ws, l), o.1, o.2);
                }
            },
            TokenView::Identifier(_) => {
                lemma_after_one(toks, c, l, l, c + 1, l);
            },
            _ => {},
        }
    }
}

proof fn lemma_fd_args_lines(toks: Seq<TokenView>, c: int, l: int)
    requires
        0 <= c <= toks.len(),
    ensures
        counts_lines(toks, c, l, fd_args(toks, c, l)),
{
    if c < toks.len() && toks[c] is LeftBracket {
        lemma_fn_clause_lines(toks, c + 1, l, Seq::empty());
        let o = fd_args(toks, c, l);
        if o.0 is Ok {
            lemma_after_one(toks, c, l, l, o.1, o.2);
        }
    }
}

proof fn lemma_fd_inherit_lines(toks: Seq<TokenView>, c: int, l: int)
    requires
        0 <= c <= toks.len(),
    ensures
        counts_lines(toks, c, l, fd_inherit(toks, c, l)),
    decreases toks.len() - c,
{
    if c < toks.len() {
        let o = fd_inherit(toks, c, l);
        match toks[c] {
            TokenView::Whitespace(ws) => {
                lemma_fd_inherit_lines(toks, c + 1, bump(ws, l));
                if o.0 is Ok {
                    lemma_after_one(toks, c, l, bump(ws, l), o.1, o.2);
                }
            },
            TokenView::Keyword(_) => {
                lemma_inherit_lines(toks, c + 1, l, Some(Seq::empty()));
                if o.0 is Ok && o.1 > c {
                    lemma_after_one(toks, c, l, l, o.1, o.2);
                }
            },
            _ => {},
        }
    }
}

proof fn lemma_step_lines(
    toks: Seq<TokenView>,
    c: int,
    l: int,
    parent: Option<AstNodeView>,
    name: Option<Seq<char>>,
    ctx: ParseContext,
    b: Seq<AstNodeView>,
)
    requires
        0 <= c < toks.len(),
    ensures
        step_counts_lines(toks, c, l, env_step(toks, c, l, parent, name, ctx, b)),
    decreases toks.len() - c, 0int,
{
    let c1 = c + 1;
    let cur_env = env_node(name, b, parent);
    let s = env_step(toks, c, l, parent, name, ctx, b);
    match toks[c] {
        TokenView::LeftBrace => {
            if parent is Some && ctx == ParseContext::Normal {
                lemma_env_lines(toks, c1, l, Some(cur_env), None, ParseContext::Normal);
            }
        },
        TokenView::Identifier(id) => {
            lemma_identifier_lines(toks, c1, l, id, ParseContext::FunctionCall);
            lemma_identifier_lines(toks, c1, l, id, ParseContext::Normal);
        },
        TokenView::Number(_) => lemma_number_lines(toks, c1, l, c, toks[c]),
        TokenView::Keyword(_) => {
            lemma_assignment_lines(toks, c1, l, Some(cur_env));
            if ctx == ParseContext::Function {
                lemma_env_lines(toks, c1, l, parent, None, ParseContext::FunctionReturn);
            }
        },
        TokenView::Operator(op) => {
            if b.len() > 0 {
                lemma_operator_lines(
                    toks,
                    c1,
                    l,
                    Some(env_node(name, b.drop_last(), parent)),
                    op,
                    b.last(),
                );
            } else if unary_capable(op) {
                lemma_unary_lines(toks, c1, l, op);
            }
        },
        _ => {},
    }
    match s {
        EnvStep::Next(c2, l2, _) => {
            if c1 <= c2 {
                let l1 = if let TokenView::Whitespace(ws) = toks[c] {
                    bump(ws, l)
                } else {
                    l
                };
                if l2 == l1 + line_breaks(toks, c1, c2) {
                    lemma_after_one(toks, c, l, l1, c2, l2);
                }
            }
        },
        EnvStep::Done(Some((r, c2, l2))) => {
            if r is Ok && c1 <= c2 && l2 == l + line_breaks(toks, c1, c2) {
                lemma_after_one(toks, c, l, l, c2, l2);
            }
        },
        _ => {},
    }
}

proof fn lemma_loop_lines(
    toks: Seq<TokenView>,
    c: int,
    l: int,
    parent: Option<AstNodeView>,
    name: Option<Seq<char>>,
    ctx: ParseContext,
    b: Seq<AstNodeView>,
)
    requires
        0 <= c <= toks.len(),
    ensures
        counts_lines_opt(toks, c, l, env_loop(toks, c, l, parent, name, ctx, b)),
    decreases toks.len() - c, 1int,
{
    if c < toks.len() {
        lemma_step_lines(toks, c, l, parent, name, ctx, b);
        if let EnvStep::Next(c2, l2, b2) = env_step(toks, c, l, parent, name, ctx, b) {
            lemma_loop_lines(toks, c2, l2, parent, name, ctx, b2);
            if let Some((r, c3, l3)) = env_loop(toks, c2, l2, parent, name, ctx, b2) {
                if r is Ok {
                    lemma_line_breaks_split(toks, c, c2, c3);
                }
            }
        }
    }
}

proof fn lemma_env_lines(
    toks: Seq<TokenView>,
    c: int,
    l: int,
    parent: Option<AstNodeView>,
    name: Option<Seq<char>>,
    ctx: ParseContext,
)
    requires
        0 <= c <= toks.len(),
    ensures
        counts_lines_opt(toks, c, l, env(toks, c, l, parent, name, ctx)),
    decreases toks.len() - c, 2int,
{
    lemma_loop_lines(toks, c, l, parent, name, ctx, Seq::empty());
}

proof fn lemma_generic_lines(
    toks: Seq<TokenView>,
    c: int,
    l: int,
    parent_env: Option<AstNodeView>,
    op: Operators,
    prev: AstNodeView,
)
    requires
        0 <= c <= toks.len(),
    ensures
        counts_lines_opt(toks, c, l, generic_op(toks, c, l, parent_env, op, prev)),
    decreases toks.len() - c, 3int,
{
    if c < toks.len() {
        lemma_env_lines(toks, c, l, parent_env, None, ParseContext::Operation);
    }
}

proof fn lemma_operator_lines(
    toks: Seq<TokenView>,
    c: int,
    l: int,
    parent_env: Option<AstNodeView>,
    op: Operators,
    prev: AstNodeView,
)
    requires
        0 <= c <= toks.len(),
    ensures
        counts_lines_opt(toks, c, l, operator(toks, c, l, parent_env, op, prev)),
    decreases toks.len() - c, 4int,
{
    lemma_accessor_lines(toks, c, l, op, prev);
    lemma_generic_lines(toks, c, l, parent_env, op, prev);
}

proof fn lemma_let_lines(
    toks: Seq<TokenView>,
    c: int,
    l: int,
    parent_env: Option<AstNodeView>,
    id: Seq<char>,
    ctx: ParseContext,
    inh: Option<AstNodeView>,
)
    requires
        0 <= c <= toks.len(),
    ensures
        counts_lines_opt(toks, c, l, let_loop(toks, c, l, parent_env, id, ctx, inh)),
    decreases toks.len() - c, 0int,
{
    if c < toks.len() {
        let o = let_loop(toks, c, l, parent_env, id, ctx, inh);
        match toks[c] {
            TokenView::Whitespace(ws) => {
                lemma_let_lines(toks, c + 1, bump(ws, l), parent_env, id, ctx, inh);
                if let Some((r, c2, l2)) = o {
                    if r is Ok {
                        lemma_after_one(toks, c, l, bump(ws, l), c2, l2);
                    }
                }
            },
            TokenView::Keyword(_) => {
                lemma_inherit_lines(toks, c + 1, l, Some(Seq::empty()));
                let (r1, c1, l1) = inherit(toks, c + 1, l, Some(Seq::empty()));
                if let Ok(i) = r1 {
                    if c < c1 <= toks.len() {
                        lemma_let_lines(toks, c1, l1, parent_env, id, ctx, Some(i));
                        if let Some((r, c2, l2)) = o {
                            if r is Ok {
                                lemma_after_one(toks, c, l, l, c1, l1);
                                lemma_line_breaks_split(toks, c, c1, c2);
                            }
                        }
                    }
                }
            },
            TokenView::Operator(_) => {
                lemma_env_lines(toks, c + 1, l, parent_env, Some(id), ctx);
                if let Some((r, c2, l2)) = o {
                    if r is Ok {
                        lemma_after_one(toks, c, l, l, c2, l2);
                    }
                }
            },
            _ => {},
        }
    }
}

proof fn lemma_assignment_lines(
    toks: Seq<TokenView>,
    c: int,
    l: int,
    parent_env: Option<AstNodeView>,
)
    requires
        0 <= c <= toks.len(),
    ensures
        counts_lines_opt(toks, c, l, assignment(toks, c, l, parent_env)),
    decreases toks.len() - c, 0int,
{
    if c < toks.len() {
        let o = assignment(toks, c, l, parent_env);
        match toks[c] {
            TokenView::Whitespace(ws) => {
                lemma_assignment_lines(toks, c + 1, bump(ws, l), parent_env);
                if let Some((r, c2, l2)) = o {
                    if r is Ok {
                        lemma_after_one(toks, c, l, bump(ws, l), c2, l2);
                    }
                }
            },
            TokenView::Keyword(_) => {
                lemma_function_lines(toks, c + 1, l, parent_env);
                if let Some((r, c2, l2)) = o {
                    if r is Ok {
                        lemma_after_one(toks, c, l, l, c2, l2);
                    }
                }
            },
            TokenView::Identifier(id) => {
                lemma_let_lines(toks, c + 1, l, parent_env, id, ParseContext::Normal, None);
                if let Some((r, c2, l2)) = o {
                    if r is Ok {
                        lemma_after_one(toks, c, l, l, c2, l2);
                    }
                }
            },
            _ => {},
        }
    }
}

proof fn lemma_function_lines(
    toks: Seq<TokenView>,
    c: int,
    l: int,
    parent_env: Option<AstNodeView>,
)
    requires
        0 <= c <= toks.len(),
    ensures
        counts_lines_opt(toks, c, l, function_declaration(toks, c, l, parent_env)),
    decreases toks.len() - c, 1int,
{
    lemma_fd_name_lines(toks, c, l);
    let (r1, c1, l1) = fd_name(toks, c, l);
    if let Ok(fn_name) = r1 {
        lemma_fd_args_lines(toks, c1, l1);
        let (r2, c2, l2) = fd_args(toks, c1, l1);
        if r2 is Ok {
            lemma_fd_inherit_lines(toks, c2, l2);
            let (r3, c3, l3) = fd_inherit(toks, c2, l2);
            if r3 is Ok {
                lemma_fd_body_lines(toks, c3, l3, parent_env, fn_name);
                if let Some((r4, c4, l4)) = fd_body(toks, c3, l3, parent_env, fn_name) {
                    if r4 is Ok {
                        lemma_line_breaks_split(toks, c, c1, c2);
                        lemma_line_breaks_split(toks, c, c2, c3);
                        lemma_line_breaks_split(toks, c, c3, c4);
                    }
                }
            }
        }
    }
}

proof fn lemma_fd_body_lines(
    toks: Seq<TokenView>,
    c: int,
    l: int,
    parent_env: Option<AstNodeView>,
    fn_name: Option<Seq<char>>,
)
    requires
        0 <= c <= toks.len(),
    ensures
        fd_body(toks, c, l, parent_env, fn_name) matches Some(p) ==> counts_lines(toks, c, l, p),
    decreases toks.len() - c, 0int,
{
    if c < toks.len() {
        let o = fd_body(toks, c, l, parent_env, fn_name);
        match toks[c] {
            TokenView::Whitespace(ws) => {
                lemma_fd_body_lines(toks, c + 1, bump(ws, l), parent_env, fn_name);
                if let Some((r, c2, l2)) = o {
                    if r is Ok {
                        lemma_after_one(toks, c, l, bump(ws, l), c2, l2);
                    }
                }
            },
            TokenView::Operator(_) => {
                lemma_env_lines(toks, c + 1, l, parent_env, fn_name, ParseContext::Function);
                if let Some((r, c2, l2)) = o {
                    if r is Ok {
                        lemma_after_one(toks, c, l, l, c2, l2);
                    }
                }
            },
            _ => {},
        }
    }
}

/// When a program parses, the line number the parser ends with is the one it started with
/// plus the line breaks (`\n` or `\r\n` whitespace) among the tokens it read.
pub proof fn parse_counts_line_breaks(toks: Seq<TokenView>, c: int, l: int)
    requires
        0 <= c <= toks.len(),
    ensures
        program(toks, c, l) matches Some((Ok(_), c2, l2)) ==> c <= c2 <= toks.len() && l2 == l
            + line_breaks(toks, c, c2),
{
    lemma_env_lines(toks, c, l, None, None, ParseContext::Normal);
}

} // verus!
