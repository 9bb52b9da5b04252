//! How far the parser reads: each parsing step stops within the tokens, and each step that
//! reads an environment's token moves on. From this, every program parses, to a tree or an
//! error.
use vstd::prelude::*;

use crate::lexer::TokenView;
use crate::parser::astnode::AstNodeView;
use crate::parser::syntax::{
    accessor,
    assignment,
    env,
    env_loop,
    env_node,
    env_step,
    fd_args,
    fd_body,
    fd_inherit,
    fd_name,
    fn_clause,
    function_declaration,
    generic_op,
    has_dot,
    identifier,
    inherit,
    let_loop,
    number_outcome,
    number_scan,
    operator,
    program,
    unary,
    unary_capable,
    EnvStep,
    Parsed,
};
use crate::parser::ParseContext;
use crate::symbols::{LogicalOperators, Operators, OtherOperators};

verus! {

/// The outcome exists and stops at a position from `c` up to `len`.
pub open spec fn stops_within(o: Option<Parsed>, c: int, len: int) -> bool {
    o matches Some((_, c2, _)) && c <= c2 <= len
}

/// The step moves past `c`, and not past `len`.
pub open spec fn step_moves_on(s: EnvStep, c: int, len: int) -> bool {
    match s {
        EnvStep::Next(c2, _, _) => c < c2 <= len,
        EnvStep::Done(o) => o matches Some((_, c2, _)) && c < c2 <= len,
    }
}

proof fn lemma_number_scan_bounds(toks: Seq<TokenView>, c: int, acc: Seq<char>)
    requires
        0 <= c <= toks.len(),
    ensures
        match number_scan(toks, c, acc) {
            Ok((_, e)) => c <= e <= toks.len(),
            Err((_, p)) => c <= p < toks.len(),
        },
    decreases toks.len() - c,
{
    if c < toks.len() {
        match toks[c] {
            TokenView::Number(n) => lemma_number_scan_bounds(toks, c + 1, acc + n),
            TokenView::Operator(Operators::Other(OtherOperators::ACCESSOR)) => {
                if !has_dot(acc) {
                    lemma_number_scan_bounds(toks, c + 1, acc + seq!['.']);
                }
            },
            _ => {},
        }
    }
}

proof fn lemma_number_bounds(toks: Seq<TokenView>, c: int, l: int, sp: int, st: TokenView)
    requires
        0 <= c <= toks.len(),
    ensures
        c <= number_outcome(toks, c, l, sp, st).1 <= toks.len(),
{
    match st {
        TokenView::Number(n) => lemma_number_scan_bounds(toks, c, n),
        _ => lemma_number_scan_bounds(toks, c, seq!['0', '.']),
    }
}

proof fn lemma_unary_bounds(toks: Seq<TokenView>, c: int, l: int, op: Operators)
    requires
        0 <= c <= toks.len(),
    ensures
        c <= unary(toks, c, l, op).1 <= toks.len(),
    decreases toks.len() - c,
{
    if c < toks.len() {
        match toks[c] {
            TokenView::Whitespace(ws) => lemma_unary_bounds(
                toks,
                c + 1,
                crate::parser::syntax::bump(ws, l),
                op,
            ),
            TokenView::Number(_) => lemma_number_bounds(toks, c + 1, l, c, toks[c]),
            _ => {},
        }
    }
}

proof fn lemma_fn_clause_bounds(toks: Seq<TokenView>, c: int, l: int, args: Seq<AstNodeView>)
    requires
        0 <= c <= toks.len(),
    ensures
        c <= fn_clause(toks, c, l, args).1 <= toks.len(),
    decreases toks.len() - c,
{
    if c < toks.len() {
        match toks[c] {
            TokenView::Whitespace(ws) => lemma_fn_clause_bounds(
                toks,
                c + 1,
                crate::parser::syntax::bump(ws, l),
                args,
            ),
            TokenView::LeftBracket => {
                if args.len() == 0 {
                    lemma_fn_clause_bounds(toks, c + 1, l, args);
                }
            },
            TokenView::Comma => lemma_fn_clause_bounds(toks, c + 1, l, args),
            TokenView::Identifier(id) => lemma_fn_clause_bounds(
                toks,
                c + 1,
                l,
                args.push(AstNodeView::Identifier(id)),
            ),
            _ => {},
        }
    }
}

proof fn lemma_inherit_bounds(
    toks: Seq<TokenView>,
    c: int,
    l: int,
    names: Option<Seq<Seq<char>>>,
)
    requires
        0 <= c <= toks.len(),
    ensures
        c <= inherit(toks, c, l, names).1 <= toks.len(),
    decreases toks.len() - c,
{
    if c < toks.len() {
        let has_names = names matches Some(ns) && ns.len() > 0;
        match toks[c] {
            TokenView::Whitespace(ws) => lemma_inherit_bounds(
                toks,
                c + 1,
                crate::parser::syntax::bump(ws, l),
                names,
            ),
            TokenView::LeftParen => {
                if !has_names {
                    lemma_inherit_bounds(toks, c + 1, l, names);
                }
            },
            TokenView::Operator(Operators::Arithmetic(_)) => {
                if !has_names {
                    lemma_inherit_bounds(toks, c + 1, l, None);
                }
            },
            TokenView::Identifier(id) => {
                if let Some(ns) = names {
                    lemma_inherit_bounds(toks, c + 1, l, Some(ns.push(id)));
                }
            },
            TokenView::Comma => lemma_inherit_bounds(toks, c + 1, l, names),
            _ => {},
        }
    }
}

proof fn lemma_identifier_bounds(
    toks: Seq<TokenView>,
    c: int,
    l: int,
    id: Seq<char>,
    ctx: ParseContext,
)
    requires
        0 <= c <= toks.len(),
    ensures
        c <= identifier(toks, c, l, id, ctx).1 <= toks.len(),
{
    if c < toks.len() && toks[c] is LeftBracket {
        lemma_fn_clause_bounds(toks, c + 1, l, Seq::empty());
    }
}

proof fn lemma_fd_name_bounds(toks: Seq<TokenView>, c: int, l: int)
    requires
        0 <= c <= toks.len(),
    ensures
        c <= fd_name(toks, c, l).1 <= toks.len(),
    decreases toks.len() - c,
{
    if c < toks.len() {
        if let TokenView::Whitespace(ws) = toks[c] {
            lemma_fd_name_bounds(toks, c + 1, crate::parser::syntax::bump(ws, l));
        }
    }
}

proof fn lemma_fd_args_bounds(toks: Seq<TokenView>, c: int, l: int)
    requires
        0 <= c <= toks.len(),
    ensures
        c <= fd_args(toks, c, l).1 <= toks.len(),
{
    if c < toks.len() && toks[c] is LeftBracket {
        lemma_fn_clause_bounds(toks, c + 1, l, Seq::empty());
    }
}

proof fn lemma_fd_inherit_bounds(toks: Seq<TokenView>, c: int, l: int)
    requires
        0 <= c <= toks.len(),
    ensures
        c <= fd_inherit(toks, c, l).1 <= toks.len(),
    decreases toks.len() - c,
{
    if c < toks.len() {
        match toks[c] {
            TokenView::Whitespace(ws) => lemma_fd_inherit_bounds(
                toks,
                c + 1,
                crate::parser::syntax::bump(ws, l),
            ),
            TokenView::Keyword(_) => lemma_inherit_bounds(toks, c + 1, l, Some(Seq::empty())),
            _ => {},
        }
    }
}

proof fn lemma_step_progress(
    toks: Seq<TokenView>,
    c: int,
    l: int,
    parent: Option<AstNodeView>,
    name: Option<Seq<char>>,
    ctx: ParseContext,
    b: Seq<AstNodeView>,
)
    requires
        0 <= c < toks.len(),
    ensures
        step_moves_on(env_step(toks, c, l, parent, name, ctx, b), c, toks.len() as int),
    decreases toks.len() - c, 0int,
{
    let c1 = c + 1;
    let cur_env = env_node(name, b, parent);
    match toks[c] {
        TokenView::LeftBrace => {
            if parent is Some && ctx == ParseContext::Normal {
                lemma_env_progress(toks, c1, l, Some(cur_env), None, ParseContext::Normal);
            }
        },
        TokenView::Identifier(id) => {
            lemma_identifier_bounds(toks, c1, l, id, ParseContext::FunctionCall);
            lemma_identifier_bounds(toks, c1, l, id, ParseContext::Normal);
        },
        TokenView::Number(_) => lemma_number_bounds(toks, c1, l, c, toks[c]),
        TokenView::Keyword(k) => {
            lemma_assignment_progress(toks, c1, l, Some(cur_env));
            if ctx == ParseContext::Function {
                lemma_env_progress(toks, c1, l, parent, None, ParseContext::FunctionReturn);
            }
        },
        TokenView::Operator(op) => {
            if b.len() > 0 {
                lemma_operator_progress(
                    toks,
                    c1,
                    l,
                    Some(env_node(name, b.drop_last(), parent)),
                    op,
                    b.last(),
                );
            } else if unary_capable(op) {
                lemma_unary_bounds(toks, c1, l, op);
            }
        },
        _ => {},
    }
}

proof fn lemma_loop_progress(
    toks: Seq<TokenView>,
    c: int,
    l: int,
    parent: Option<AstNodeView>,
    name: Option<Seq<char>>,
    ctx: ParseContext,
    b: Seq<AstNodeView>,
)
    requires
        0 <= c <= toks.len(),
    ensures
        stops_within(env_loop(toks, c, l, parent, name, ctx, b), c, toks.len() as int),
    decreases toks.len() - c, 1int,
{
    if c < toks.len() {
        lemma_step_progress(toks, c, l, parent, name, ctx, b);
        if let EnvStep::Next(c2, l2, b2) = env_step(toks, c, l, parent, name, ctx, b) {
            lemma_loop_progress(toks, c2, l2, parent, name, ctx, b2);
        }
    }
}

proof fn lemma_env_progress(
    toks: Seq<TokenView>,
    c: int,
    l: int,
    parent: Option<AstNodeView>,
    name: Option<Seq<char>>,
    ctx: ParseContext,
)
    requires
        0 <= c <= toks.len(),
    ensures
        stops_within(env(toks, c, l, parent, name, ctx), c, toks.len() as int),
    decreases toks.len() - c, 2int,
{
    lemma_loop_progress(toks, c, l, parent, name, ctx, Seq::empty());
}

proof fn lemma_generic_progress(
    toks: Seq<TokenView>,
    c: int,
    l: int,
    parent_env: Option<AstNodeView>,
    op: Operators,
    prev: AstNodeView,
)
    requires
        0 <= c <= toks.len(),
    ensures
        stops_within(generic_op(toks, c, l, parent_env, op, prev), c, toks.len() as int),
    decreases toks.len() - c, 3int,
{
    if c < toks.len() {
        lemma_env_progress(toks, c, l, parent_env, None, ParseContext::Operation);
    }
}

proof fn lemma_operator_progress(
    toks: Seq<TokenView>,
    c: int,
    l: int,
    parent_env: Option<AstNodeView>,
    op: Operators,
    prev: AstNodeView,
)
    requires
        0 <= c <= toks.len(),
    ensures
        stops_within(operator(toks, c, l, parent_env, op, prev), c, toks.len() as int),
    decreases toks.len() - c, 4int,
{
    if op == Operators::Other(OtherOperators::ACCESSOR) {
        assert(c <= accessor(toks, c, l, op, prev).1 <= toks.len());
    } else if op != Operators::Logical(LogicalOperators::NOT) {
        lemma_generic_progress(toks, c, l, parent_env, op, prev);
    }
}

proof fn lemma_let_progress(
    toks: Seq<TokenView>,
    c: int,
    l: int,
    parent_env: Option<AstNodeView>,
    id: Seq<char>,
    ctx: ParseContext,
    inh: Option<AstNodeView>,
)
    requires
        0 <= c <= toks.len(),
    ensures
        stops_within(let_loop(toks, c, l, parent_env, id, ctx, inh), c, toks.len() as int),
    decreases toks.len() - c, 0int,
{
    if c < toks.len() {
        match toks[c] {
            TokenView::Whitespace(ws) => lemma_let_progress(
                toks,
                c + 1,
                crate::parser::syntax::bump(ws, l),
                parent_env,
                id,
                ctx,
                inh,
            ),
            TokenView::Keyword(_) => {
                lemma_inherit_bounds(toks, c + 1, l, Some(Seq::empty()));
                let (r, c2, l2) = inherit(toks, c + 1, l, Some(Seq::empty()));
                if let Ok(i) = r {
                    lemma_let_progress(toks, c2, l2, parent_env, id, ctx, Some(i));
                }
            },
            TokenView::Operator(_) => {
                lemma_env_progress(toks, c + 1, l, parent_env, Some(id), ctx);
            },
            _ => {},
        }
    }
}

proof fn lemma_assignment_progress(
    toks: Seq<TokenView>,
    c: int,
    l: int,
    parent_env: Option<AstNodeView>,
)
    requires
        0 <= c <= toks.len(),
    ensures
        stops_within(assignment(toks, c, l, parent_env), c, toks.len() as int),
    decreases toks.len() - c, 0int,
{
    if c < toks.len() {
        match toks[c] {
            TokenView::Whitespace(ws) => lemma_assignment_progress(
                toks,
                c + 1,
                crate::parser::syntax::bump(ws, l),
                parent_env,
            ),
            TokenView::Keyword(_) => lemma_function_progress(toks, c + 1, l, parent_env),
            TokenView::Identifier(id) => lemma_let_progress(
                toks,
                c + 1,
                l,
                parent_env,
                id,
                ParseContext::Normal,
                None,
            ),
            _ => {},
        }
    }
}

proof fn lemma_function_progress(
    toks: Seq<TokenView>,
    c: int,
    l: int,
    parent_env: Option<AstNodeView>,
)
    requires
        0 <= c <= toks.len(),
    ensures
        stops_within(function_declaration(toks, c, l, parent_env), c, toks.len() as int),
    decreases toks.len() - c, 1int,
{
    lemma_fd_name_bounds(toks, c, l);
    let (r1, c1, l1) = fd_name(toks, c, l);
    lemma_fd_args_bounds(toks, c1, l1);
    let (r2, c2, l2) = fd_args(toks, c1, l1);
    lemma_fd_inherit_bounds(toks, c2, l2);
    let (r3, c3, l3) = fd_inherit(toks, c2, l2);
    if let Ok(fn_name) = r1 {
        lemma_fd_body_progress(toks, c3, l3, parent_env, fn_name);
    }
}

proof fn lemma_fd_body_progress(
    toks: Seq<TokenView>,
    c: int,
    l: int,
    parent_env: Option<AstNodeView>,
    fn_name: Option<Seq<char>>,
)
    requires
        0 <= c <= toks.len(),
    ensures
        fd_body(toks, c, l, parent_env, fn_name) matches Some((_, c2, _)) && c <= c2
            <= toks.len(),
    decreases toks.len() - c, 0int,
{
    if c < toks.len() {
        match toks[c] {
            TokenView::Whitespace(ws) => lemma_fd_body_progress(
                toks,
                c + 1,
                crate::parser::syntax::bump(ws, l),
                parent_env,
                fn_name,
            ),
            TokenView::Operator(_) => {
                lemma_env_progress(toks, c + 1, l, parent_env, fn_name, ParseContext::Function);
            },
            _ => {},
        }
    }
}

/// Every token vector parses, to a tree or an error, and the parser stops within the tokens:
/// no input leaves the parser without an outcome.
pub proof fn parse_is_total(toks: Seq<TokenView>, c: int, l: int)
    requires
        0 <= c <= toks.len(),
    ensures
        stops_within(program(toks, c, l), c, toks.len() as int),
{
    lemma_env_progress(toks, c, l, None, None, ParseContext::Normal);
}

} // verus!
