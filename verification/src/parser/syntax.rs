//! What the parser does, stated as spec functions over token views.
//!
//! Every function reads from the token of index `c` with the line counter at `l`, and gives
//! what the parser returns together with its position and line counter afterwards. Those in
//! the recursive group give an `Option`, `None` standing for a step that would not move on;
//! [`parse_is_total`](crate::parser::progress::parse_is_total) shows that none arises.
use vstd::prelude::*;

use crate::lexer::{lex_from, lexing_ends_with_eof, TokenView};
use crate::numerals::{float_syntax, int_literal, literal_in_range};
use crate::parser::astnode::{node_text, AstNodeView};
use crate::parser::error::ParserErrorView;
use crate::parser::ParseContext;
use crate::symbols::{
    ArithmeticOperators,
    Booleans,
    Keywords,
    LogicalOperators,
    Operators,
    OtherOperators,
};

verus! {

/// A parser outcome: the result, the next token index, and the line counter.
pub type Parsed = (Result<AstNodeView, ParserErrorView>, int, int);

/// The line counter after reading the whitespace `ws`: one more for a line break.
pub open spec fn bump(ws: Seq<char>, l: int) -> int {
    if ws == seq!['\r', '\n'] || ws == seq!['\n'] {
        l + 1
    } else {
        l
    }
}

/// The text `s` holds a full stop.
pub open spec fn has_dot(s: Seq<char>) -> bool {
    exists|i: int| 0 <= i < s.len() && s[i] == '.'
}

/// Reading number tokens and accessor full stops from `c`, after the text `acc`: the whole
/// numeral and where it ends, or, at a second full stop, the text so far and its index.
pub open spec fn number_scan(toks: Seq<TokenView>, c: int, acc: Seq<char>) -> Result<
    (Seq<char>, int),
    (Seq<char>, int),
>
    decreases toks.len() - c,
{
    if c < 0 || c >= toks.len() {
        Ok((acc, c))
    } else {
        match toks[c] {
            TokenView::Number(n) => number_scan(toks, c + 1, acc + n),
            TokenView::Operator(Operators::Other(OtherOperators::ACCESSOR)) => {
                if has_dot(acc) {
                    Err((acc, c))
                } else {
                    number_scan(toks, c + 1, acc + seq!['.'])
                }
            },
            _ => Ok((acc, c)),
        }
    }
}

/// The number a numeral stands for: an `isize` if it parses as one, else a float if `f64`
/// parsing accepts it, else none.
pub open spec fn number_node(numstr: Seq<char>) -> Option<AstNodeView> {
    if literal_in_range(numstr, isize::MIN as int, isize::MAX as int) {
        Some(AstNodeView::Integer(int_literal(numstr).unwrap() as isize))
    } else if float_syntax(numstr) {
        Some(AstNodeView::Float(numstr))
    } else {
        None
    }
}

/// Parsing a number whose first token `start` is at `start_pos`, from `c` on.
pub open spec fn number_outcome(
    toks: Seq<TokenView>,
    c: int,
    l: int,
    start_pos: int,
    start: TokenView,
) -> Parsed {
    let init = match start {
        TokenView::Number(n) => Some(n),
        TokenView::Operator(Operators::Other(OtherOperators::ACCESSOR)) => Some(seq!['0', '.']),
        _ => None,
    };
    match init {
        None => (Err(ParserErrorView::NotANumber(start_pos as usize, l as usize, Seq::empty())), c, l),
        Some(s0) => match number_scan(toks, c, s0) {
            Err((acc, p)) => (Err(ParserErrorView::MalformedNumber(p as usize, l as usize, acc)), p, l),
            Ok((numstr, e)) => match number_node(numstr) {
                Some(n) => (Ok(n), e, l),
                None => (Err(ParserErrorView::NotANumber(e as usize, l as usize, numstr)), e, l),
            },
        },
    }
}

/// Parsing the operand of a unary operator `op`.
pub open spec fn unary(toks: Seq<TokenView>, c: int, l: int, op: Operators) -> Parsed
    decreases toks.len() - c,
{
    if c < 0 || c >= toks.len() {
        (Err(ParserErrorView::UnexpectedEOF(c as usize, l as usize)), c, l)
    } else {
        match toks[c] {
            TokenView::Whitespace(ws) => unary(toks, c + 1, bump(ws, l), op),
            TokenView::EOF => (Err(ParserErrorView::UnexpectedEOF(c as usize, l as usize)), c + 1, l),
            TokenView::Number(_) => {
                let (r, c2, l2) = number_outcome(toks, c + 1, l, c, toks[c]);
                (
                    match r {
                        Ok(n) => Ok(AstNodeView::UnaryOp { op: op, operand: Box::new(n) }),
                        Err(e) => Err(e),
                    },
                    c2,
                    l2,
                )
            },
            TokenView::Identifier(id) => (
                Ok(
                    AstNodeView::UnaryOp {
                        op: op,
                        operand: Box::new(AstNodeView::Identifier(id)),
                    },
                ),
                c + 1,
                l,
            ),
            TokenView::Boolean(b) => (
                Ok(
                    AstNodeView::UnaryOp {
                        op: op,
                        operand: Box::new(AstNodeView::Boolean(b == Booleans::TRUE)),
                    },
                ),
                c + 1,
                l,
            ),
            _ => (
                Err(ParserErrorView::InvalidTokenInUnaryOp(c as usize, l as usize, toks[c].text())),
                c + 1,
                l,
            ),
        }
    }
}

/// Parsing the right-hand side of an accession from `prev`.
pub open spec fn accessor(
    toks: Seq<TokenView>,
    c: int,
    l: int,
    op: Operators,
    prev: AstNodeView,
) -> Parsed {
    if op != Operators::Other(OtherOperators::ACCESSOR) {
        (Err(ParserErrorView::ParserLogicError(c as usize, l as usize)), c, l)
    } else if prev is Identifier || prev is Environment {
        if 0 <= c < toks.len() {
            match toks[c] {
                TokenView::Identifier(id) => (
                    Ok(
                        AstNodeView::BinaryOp {
                            left: Box::new(prev),
                            operator: op,
                            right: Box::new(AstNodeView::Identifier(id)),
                        },
                    ),
                    c + 1,
                    l,
                ),
                _ => (
                    Err(ParserErrorView::InvalidAccessionTarget(c as usize, l as usize, toks[c].text())),
                    c + 1,
                    l,
                ),
            }
        } else {
            (Err(ParserErrorView::UnexpectedEOF(c as usize, l as usize)), c, l)
        }
    } else {
        (Err(ParserErrorView::InvalidAccessionSource(c as usize, l as usize, node_text(prev))), c, l)
    }
}

/// Parsing a function argument clause, after its opening bracket, with `args` read so far.
pub open spec fn fn_clause(toks: Seq<TokenView>, c: int, l: int, args: Seq<AstNodeView>) -> Parsed
    decreases toks.len() - c,
{
    if c < 0 || c >= toks.len() {
        (Err(ParserErrorView::ParserLogicError(c as usize, l as usize)), c, l)
    } else {
        match toks[c] {
            TokenView::Whitespace(ws) => fn_clause(toks, c + 1, bump(ws, l), args),
            TokenView::LeftBracket => if args.len() > 0 {
                (
                    Err(ParserErrorView::DoubleFunArgBracket(c as usize, l as usize, toks[c].text())),
                    c + 1,
                    l,
                )
            } else {
                fn_clause(toks, c + 1, l, args)
            },
            TokenView::RightBracket => (Ok(AstNodeView::FunctionArgs(args)), c + 1, l),
            TokenView::Comma => fn_clause(toks, c + 1, l, args),
            TokenView::Identifier(id) => fn_clause(
                toks,
                c + 1,
                l,
                args.push(AstNodeView::Identifier(id)),
            ),
            TokenView::EOF => (Err(ParserErrorView::UnclosedArgumentClause(l as usize)), c + 1, l),
            _ => (
                Err(ParserErrorView::InvalidFunArgToken(c as usize, l as usize, toks[c].text())),
                c + 1,
                l,
            ),
        }
    }
}

/// Parsing an inheritance clause, after `inherit`, with the names read so far (`None` after a
/// wildcard).
pub open spec fn inherit(toks: Seq<TokenView>, c: int, l: int, names: Option<Seq<Seq<char>>>) -> Parsed
    decreases toks.len() - c,
{
    if c < 0 || c >= toks.len() {
        (Ok(AstNodeView::Inherit { names: names }), c, l)
    } else {
        let has_names = names matches Some(ns) && ns.len() > 0;
        match toks[c] {
            TokenView::Whitespace(ws) => inherit(toks, c + 1, bump(ws, l), names),
            TokenView::LeftParen => if has_names {
                (
                    Err(
                        ParserErrorView::DoubleInheritanceParen(c as usize, l as usize, toks[c].text()),
                    ),
                    c + 1,
                    l,
                )
            } else {
                inherit(toks, c + 1, l, names)
            },
            TokenView::RightParen => (Ok(AstNodeView::Inherit { names: names }), c + 1, l),
            TokenView::Operator(Operators::Arithmetic(ArithmeticOperators::MULTIPLY)) => if has_names {
                (
                    Err(ParserErrorView::WildcardAndElements(c as usize, l as usize, toks[c].text())),
                    c + 1,
                    l,
                )
            } else {
                inherit(toks, c + 1, l, None)
            },
            TokenView::Identifier(id) => match names {
                None => (
                    Err(ParserErrorView::WildcardAndElements(c as usize, l as usize, toks[c].text())),
                    c + 1,
                    l,
                ),
                Some(ns) => inherit(toks, c + 1, l, Some(ns.push(id))),
            },
            TokenView::Comma => inherit(toks, c + 1, l, names),
            _ => (
                Err(ParserErrorView::InvalidInheritanceToken(c as usize, l as usize, toks[c].text())),
                c + 1,
                l,
            ),
        }
    }
}

/// Parsing a function call of `id`, at the token after its name.
pub open spec fn function_call(toks: Seq<TokenView>, c: int, l: int, id: AstNodeView) -> Parsed {
    if c < 0 || c >= toks.len() {
        (
            Ok(
                AstNodeView::FunctionCall {
                    id: Box::new(id),
                    args: Box::new(AstNodeView::FunctionArgs(Seq::empty())),
                },
            ),
            c,
            l,
        )
    } else {
        match toks[c] {
            TokenView::LeftBracket => {
                let (r, c2, l2) = fn_clause(toks, c + 1, l, Seq::empty());
                (
                    match r {
                        Ok(args) => Ok(
                            AstNodeView::FunctionCall { id: Box::new(id), args: Box::new(args) },
                        ),
                        Err(e) => Err(e),
                    },
                    c2,
                    l2,
                )
            },
            _ => (
                Err(ParserErrorView::InvalidTokenInFnCall(c as usize, l as usize, toks[c].text())),
                c + 1,
                l,
            ),
        }
    }
}

/// Parsing an identifier `id` in the context `ctx`: a function call in that context, the
/// identifier itself in the normal one, an error in any other.
pub open spec fn identifier(
    toks: Seq<TokenView>,
    c: int,
    l: int,
    id: Seq<char>,
    ctx: ParseContext,
) -> Parsed {
    match ctx {
        ParseContext::FunctionCall => function_call(toks, c, l, AstNodeView::Identifier(id)),
        ParseContext::Normal => (Ok(AstNodeView::Identifier(id)), c, l),
        _ => (Err(ParserErrorView::InvalidContextForIdentifier(l as usize, ctx.text())), c, l),
    }
}

/// An environment node.
pub open spec fn env_node(
    name: Option<Seq<char>>,
    bindings: Seq<AstNodeView>,
    parent: Option<AstNodeView>,
) -> AstNodeView {
    AstNodeView::Environment {
        name: name,
        bindings: bindings,
        parent: match parent {
            Some(p) => Some(Box::new(p)),
            None => None,
        },
    }
}

/// A single-element environment stands for its element; any other node for itself.
pub open spec fn flatten(n: AstNodeView) -> AstNodeView {
    match n {
        AstNodeView::Environment { bindings, .. } => if bindings.len() == 1 {
            bindings[0]
        } else {
            n
        },
        _ => n,
    }
}

/// The operators that may stand without a left-hand side.
pub open spec fn unary_capable(op: Operators) -> bool {
    ||| op == Operators::Arithmetic(ArithmeticOperators::ADD)
    ||| op == Operators::Logical(LogicalOperators::NOT)
    ||| op == Operators::Arithmetic(ArithmeticOperators::SUBTRACT)
}

/// What one token does to an environment being parsed: go on reading with a new position,
/// line counter and bindings, or finish with an outcome.
pub enum EnvStep {
    Next(int, int, Seq<AstNodeView>),
    Done(Option<Parsed>),
}

/// Going on after a node is parsed: bind it, or finish with its error.
pub open spec fn bind_or_fail(o: Parsed, b: Seq<AstNodeView>) -> EnvStep {
    match o {
        (Ok(n), c2, l2) => EnvStep::Next(c2, l2, b.push(n)),
        (Err(e), c2, l2) => EnvStep::Done(Some((Err(e), c2, l2))),
    }
}

/// Reading the token at `c` (which exists) inside an environment with name `name`, parent
/// `parent` and the bindings `b` so far, in the context `ctx`.
///
/// Braces in the global environment are passed over: an opening brace opens a nested
/// environment only inside another environment, and a closing brace ends only such a one.
pub open spec fn env_step(
    toks: Seq<TokenView>,
    c: int,
    l: int,
    parent: Option<AstNodeView>,
    name: Option<Seq<char>>,
    ctx: ParseContext,
    b: Seq<AstNodeView>,
) -> EnvStep
    decreases toks.len() - c, 0int,
{
    if c < 0 || c >= toks.len() {
        EnvStep::Done(None)
    } else {
        let cur_env = env_node(name, b, parent);
        let c1 = c + 1;
        match toks[c] {
            TokenView::LeftBrace => if parent is None {
                EnvStep::Next(c1, l, b)
            } else if ctx == ParseContext::Normal {
                match env(toks, c1, l, Some(cur_env), None, ParseContext::Normal) {
                    None => EnvStep::Done(None),
                    Some(o) => bind_or_fail(o, b),
                }
            } else {
                EnvStep::Next(c1, l, b)
            },
            TokenView::RightBrace => if parent is None {
                EnvStep::Next(c1, l, b)
            } else {
                EnvStep::Done(Some((Ok(cur_env), c1, l)))
            },
            TokenView::LeftParen | TokenView::RightParen | TokenView::Comma
            | TokenView::LeftBracket | TokenView::RightBracket => EnvStep::Next(c1, l, b),
            TokenView::Keyword(Keywords::INHERIT) | TokenView::Keyword(Keywords::FUN) => EnvStep::Next(
                c1,
                l,
                b,
            ),
            TokenView::Identifier(id) => {
                let inner = if c1 < toks.len() && toks[c1] is LeftBracket {
                    ParseContext::FunctionCall
                } else {
                    ParseContext::Normal
                };
                bind_or_fail(identifier(toks, c1, l, id, inner), b)
            },
            TokenView::Number(_) => bind_or_fail(number_outcome(toks, c1, l, c, toks[c]), b),
            TokenView::StringLiteral(s) => EnvStep::Next(c1, l, b.push(AstNodeView::String(s))),
            TokenView::Boolean(bv) => EnvStep::Next(
                c1,
                l,
                b.push(AstNodeView::Boolean(bv == Booleans::TRUE)),
            ),
            TokenView::Keyword(Keywords::LET) => match assignment(toks, c1, l, Some(cur_env)) {
                None => EnvStep::Done(None),
                Some(o) => bind_or_fail(o, b),
            },
            TokenView::Keyword(Keywords::RETURN) => if ctx == ParseContext::Function {
                match env(toks, c1, l, parent, None, ParseContext::FunctionReturn) {
                    None => EnvStep::Done(None),
                    Some((Err(e), c2, l2)) => EnvStep::Done(Some((Err(e), c2, l2))),
                    Some((Ok(r), c2, l2)) => EnvStep::Done(
                        Some((Ok(env_node(name, b.push(r), parent)), c2, l2)),
                    ),
                }
            } else {
                EnvStep::Done(
                    Some((Err(ParserErrorView::UnexpectedReturn(c as usize, l as usize)), c1, l)),
                )
            },
            TokenView::Whitespace(ws) => EnvStep::Next(c1, bump(ws, l), b),
            TokenView::Operator(op) => if b.len() > 0 {
                let prev = b.last();
                let b2 = b.drop_last();
                match operator(toks, c1, l, Some(env_node(name, b2, parent)), op, prev) {
                    None => EnvStep::Done(None),
                    Some(o) => bind_or_fail(o, b2),
                }
            } else if unary_capable(op) {
                bind_or_fail(unary(toks, c1, l, op), b)
            } else {
                EnvStep::Done(
                    Some((Err(ParserErrorView::BinaryOpWithNoLHS(c as usize, l as usize)), c1, l)),
                )
            },
            TokenView::LineTerminator => match ctx {
                ParseContext::Operation => if b.len() == 1 {
                    EnvStep::Done(Some((Ok(b[0]), c1, l)))
                } else {
                    EnvStep::Next(c1, l, b)
                },
                ParseContext::Normal => if name is Some {
                    EnvStep::Done(Some((Ok(cur_env), c1, l)))
                } else {
                    EnvStep::Next(c1, l, b)
                },
                ParseContext::Function | ParseContext::FunctionCall => EnvStep::Next(c1, l, b),
                ParseContext::FunctionReturn => EnvStep::Done(Some((Ok(cur_env), c1, l))),
            },
            TokenView::EOF => match ctx {
                ParseContext::Normal => if parent is None {
                    EnvStep::Done(Some((Ok(cur_env), c1, l)))
                } else {
                    EnvStep::Done(
                        Some((Err(ParserErrorView::UnexpectedEOF(c as usize, l as usize)), c1, l)),
                    )
                },
                ParseContext::FunctionReturn => EnvStep::Done(Some((Ok(cur_env), c1, l))),
                ParseContext::Function => EnvStep::Done(
                    Some(
                        (
                            Err(
                                ParserErrorView::MissingReturnStatement(
                                    c as usize,
                                    l as usize,
                                    Seq::empty(),
                                ),
                            ),
                            c1,
                            l,
                        ),
                    ),
                ),
                _ => EnvStep::Done(
                    Some((Err(ParserErrorView::UnexpectedEOF(c as usize, l as usize)), c1, l)),
                ),
            },
        }
    }
}

/// Reading an environment from `c` on, with the bindings `b` so far.
pub open spec fn env_loop(
    toks: Seq<TokenView>,
    c: int,
    l: int,
    parent: Option<AstNodeView>,
    name: Option<Seq<char>>,
    ctx: ParseContext,
    b: Seq<AstNodeView>,
) -> Option<Parsed>
    decreases toks.len() - c, 1int,
{
    if c < 0 || c >= toks.len() {
        if ctx == ParseContext::FunctionReturn || (ctx == ParseContext::Normal && parent is None) {
            Some((Ok(env_node(name, b, parent)), c, l))
        } else {
            Some((Err(ParserErrorView::UnclosedEnvironment(l as usize)), c, l))
        }
    } else {
        match env_step(toks, c, l, parent, name, ctx, b) {
            EnvStep::Done(o) => o,
            EnvStep::Next(c2, l2, b2) => if c2 <= c || c2 > toks.len() {
                None
            } else {
                env_loop(toks, c2, l2, parent, name, ctx, b2)
            },
        }
    }
}

/// Parsing an environment from `c` on.
pub open spec fn env(
    toks: Seq<TokenView>,
    c: int,
    l: int,
    parent: Option<AstNodeView>,
    name: Option<Seq<char>>,
    ctx: ParseContext,
) -> Option<Parsed>
    decreases toks.len() - c, 2int,
{
    env_loop(toks, c, l, parent, name, ctx, Seq::empty())
}

/// Parsing the right-hand side of a binary operation `op` on `prev`: an operation environment,
/// flattened when it holds one element.
pub open spec fn generic_op(
    toks: Seq<TokenView>,
    c: int,
    l: int,
    parent_env: Option<AstNodeView>,
    op: Operators,
    prev: AstNodeView,
) -> Option<Parsed>
    decreases toks.len() - c, 3int,
{
    if c < 0 || c >= toks.len() {
        Some((Err(ParserErrorView::UnexpectedEOF(c as usize, l as usize)), c, l))
    } else {
        match env(toks, c, l, parent_env, None, ParseContext::Operation) {
            None => None,
            Some((Err(e), c2, l2)) => Some((Err(e), c2, l2)),
            Some((Ok(next), c2, l2)) => Some(
                (
                    Ok(
                        AstNodeView::BinaryOp {
                            left: Box::new(prev),
                            operator: op,
                            right: Box::new(flatten(next)),
                        },
                    ),
                    c2,
                    l2,
                ),
            ),
        }
    }
}

/// Parsing the rest of a binary operation `op` whose left-hand side is `prev`; the logical
/// NOT, which takes no left-hand side, is an invalid operation there.
pub open spec fn operator(
    toks: Seq<TokenView>,
    c: int,
    l: int,
    parent_env: Option<AstNodeView>,
    op: Operators,
    prev: AstNodeView,
) -> Option<Parsed>
    decreases toks.len() - c, 4int,
{
    if op == Operators::Other(OtherOperators::ACCESSOR) {
        Some(accessor(toks, c, l, op, prev))
    } else if op == Operators::Logical(LogicalOperators::NOT) {
        Some((Err(ParserErrorView::InvalidOperation(c as usize, l as usize, op.text())), c, l))
    } else {
        generic_op(toks, c, l, parent_env, op, prev)
    }
}

/// Parsing an assignment to `id` after its name, with the inheritance clause so far.
pub open spec fn let_loop(
    toks: Seq<TokenView>,
    c: int,
    l: int,
    parent_env: Option<AstNodeView>,
    id: Seq<char>,
    ctx: ParseContext,
    inh: Option<AstNodeView>,
) -> Option<Parsed>
    decreases toks.len() - c, 0int,
{
    if c < 0 || c >= toks.len() {
        Some((Err(ParserErrorView::ParserLogicError(c as usize, l as usize)), c, l))
    } else {
        match toks[c] {
            TokenView::Whitespace(ws) => let_loop(toks, c + 1, bump(ws, l), parent_env, id, ctx, inh),
            TokenView::Keyword(Keywords::INHERIT) => match inherit(
                toks,
                c + 1,
                l,
                Some(Seq::empty()),
            ) {
                (Err(e), c2, l2) => Some((Err(e), c2, l2)),
                (Ok(i), c2, l2) => if c2 <= c || c2 > toks.len() {
                    None
                } else {
                    let_loop(toks, c2, l2, parent_env, id, ctx, Some(i))
                },
            },
            TokenView::Operator(op) => if op == Operators::Other(OtherOperators::ASSIGNMENT) {
                match env(toks, c + 1, l, parent_env, Some(id), ctx) {
                    None => None,
                    Some((Err(e), c2, l2)) => Some((Err(e), c2, l2)),
                    Some((Ok(expr), c2, l2)) => Some(
                        (
                            Ok(
                                AstNodeView::Let {
                                    name: id,
                                    value: Some(Box::new(flatten(expr))),
                                    inherit: match inh {
                                        Some(i) => Some(Box::new(i)),
                                        None => None,
                                    },
                                },
                            ),
                            c2,
                            l2,
                        ),
                    ),
                }
            } else {
                Some(
                    (
                        Err(
                            ParserErrorView::InvalidAssignmentOp(
                                c as usize,
                                l as usize,
                                toks[c].text(),
                            ),
                        ),
                        c + 1,
                        l,
                    ),
                )
            },
            _ => Some((Err(ParserErrorView::MissingAssignmentOp(c as usize, l as usize)), c + 1, l)),
        }
    }
}

/// Parsing what follows `let`.
pub open spec fn assignment(
    toks: Seq<TokenView>,
    c: int,
    l: int,
    parent_env: Option<AstNodeView>,
) -> Option<Parsed>
    decreases toks.len() - c, 0int,
{
    if c < 0 || c >= toks.len() {
        Some((Err(ParserErrorView::ParserLogicError(c as usize, l as usize)), c, l))
    } else {
        match toks[c] {
            TokenView::Whitespace(ws) => assignment(toks, c + 1, bump(ws, l), parent_env),
            TokenView::Keyword(Keywords::FUN) => function_declaration(toks, c + 1, l, parent_env),
            TokenView::Identifier(id) => let_loop(
                toks,
                c + 1,
                l,
                parent_env,
                id,
                ParseContext::Normal,
                None,
            ),
            _ => Some((Err(ParserErrorView::MissingLetIdentifier(c as usize, l as usize)), c + 1, l)),
        }
    }
}

/// A step of a function declaration: the part read (if the tokens did not run out first).
pub type FnPart<T> = (Result<Option<T>, ParserErrorView>, int, int);

/// The function's name.
pub open spec fn fd_name(toks: Seq<TokenView>, c: int, l: int) -> FnPart<Seq<char>>
    decreases toks.len() - c,
{
    if c < 0 || c >= toks.len() {
        (Ok(None), c, l)
    } else {
        match toks[c] {
            TokenView::Whitespace(ws) => fd_name(toks, c + 1, bump(ws, l)),
            TokenView::Identifier(id) => (Ok(Some(id)), c + 1, l),
            _ => (
                Err(ParserErrorView::MissingFunctionName(c as usize, l as usize, toks[c].text())),
                c + 1,
                l,
            ),
        }
    }
}

/// The function's argument clause, which must follow its name at once.
pub open spec fn fd_args(toks: Seq<TokenView>, c: int, l: int) -> FnPart<AstNodeView> {
    if c < 0 || c >= toks.len() {
        (Ok(None), c, l)
    } else {
        match toks[c] {
            TokenView::LeftBracket => match fn_clause(toks, c + 1, l, Seq::empty()) {
                (Ok(a), c2, l2) => (Ok(Some(a)), c2, l2),
                (Err(e), c2, l2) => (Err(e), c2, l2),
            },
            _ => (Err(ParserErrorView::MissingFunctionArgs(c as usize, l as usize)), c + 1, l),
        }
    }
}

/// The function's optional inheritance clause; an assignment operator ends this step
/// without being consumed.
pub open spec fn fd_inherit(toks: Seq<TokenView>, c: int, l: int) -> FnPart<AstNodeView>
    decreases toks.len() - c,
{
    if c < 0 || c >= toks.len() {
        (Ok(None), c, l)
    } else {
        match toks[c] {
            TokenView::Whitespace(ws) => fd_inherit(toks, c + 1, bump(ws, l)),
            TokenView::Keyword(Keywords::INHERIT) => match inherit(toks, c + 1, l, Some(Seq::empty())) {
                (Ok(i), c2, l2) => (Ok(Some(i)), c2, l2),
                (Err(e), c2, l2) => (Err(e), c2, l2),
            },
            TokenView::Operator(Operators::Other(OtherOperators::ASSIGNMENT)) => (Ok(None), c, l),
            _ => (
                Err(
                    ParserErrorView::InvalidTokenInFnSignature(c as usize, l as usize, toks[c].text()),
                ),
                c + 1,
                l,
            ),
        }
    }
}

/// The function's body and return environments, read after the assignment operator: the
/// body holds every binding but the last, the return environment the bindings of the last
/// (`None` if the last binding is not an environment).
pub open spec fn fd_body(
    toks: Seq<TokenView>,
    c: int,
    l: int,
    parent_env: Option<AstNodeView>,
    fn_name: Option<Seq<char>>,
) -> Option<FnPart<(AstNodeView, Option<AstNodeView>)>>
    decreases toks.len() - c, 0int,
{
    if c < 0 || c >= toks.len() {
        Some((Ok(None), c, l))
    } else {
        match toks[c] {
            TokenView::Whitespace(ws) => fd_body(toks, c + 1, bump(ws, l), parent_env, fn_name),
            TokenView::Operator(Operators::Other(OtherOperators::ASSIGNMENT)) => match env(
                toks,
                c + 1,
                l,
                parent_env,
                fn_name,
                ParseContext::Function,
            ) {
                None => None,
                Some((Err(e), c2, l2)) => Some((Err(e), c2, l2)),
                Some((Ok(body), c2, l2)) => match body {
                    AstNodeView::Environment { bindings, .. } => if bindings.len() > 0 {
                        let fn_body = env_node(fn_name, bindings.drop_last(), parent_env);
                        let fn_return = match bindings.last() {
                            AstNodeView::Environment { bindings: rb, .. } => Some(
                                env_node(None, rb, parent_env),
                            ),
                            _ => None,
                        };
                        Some((Ok(Some((fn_body, fn_return))), c2, l2))
                    } else {
                        Some(
                            (
                                Err(
                                    ParserErrorView::MissingReturnStatement(
                                        c as usize,
                                        l2 as usize,
                                        Seq::empty(),
                                    ),
                                ),
                                c2,
                                l2,
                            ),
                        )
                    },
                    _ => Some(
                        (
                            Err(
                                ParserErrorView::MissingReturnStatement(
                                    c as usize,
                                    l2 as usize,
                                    Seq::empty(),
                                ),
                            ),
                            c2,
                            l2,
                        ),
                    ),
                },
            },
            _ => Some((Err(ParserErrorView::MissingAssignmentOp(c as usize, l as usize)), c + 1, l)),
        }
    }
}

/// Parsing a function declaration after `fun`: name, argument clause, optional inheritance
/// clause, and body with return environment, each required.
pub open spec fn function_declaration(
    toks: Seq<TokenView>,
    c: int,
    l: int,
    parent_env: Option<AstNodeView>,
) -> Option<Parsed>
    decreases toks.len() - c, 1int,
{
    let (r1, c1, l1) = fd_name(toks, c, l);
    match r1 {
        Err(e) => Some((Err(e), c1, l1)),
        Ok(fn_name) => {
            let (r2, c2, l2) = fd_args(toks, c1, l1);
            match r2 {
                Err(e) => Some((Err(e), c2, l2)),
                Ok(fn_args) => {
                    let (r3, c3, l3) = fd_inherit(toks, c2, l2);
                    match r3 {
                        Err(e) => Some((Err(e), c3, l3)),
                        Ok(inheritance) => if c3 < c || c3 > toks.len() {
                            None
                        } else {
                            match fd_body(toks, c3, l3, parent_env, fn_name) {
                                None => None,
                                Some((Err(e), c4, l4)) => Some((Err(e), c4, l4)),
                                Some((Ok(parts), c4, l4)) => Some(
                                    fn_result(fn_name, fn_args, inheritance, parts, c4, l4),
                                ),
                            }
                        },
                    }
                },
            }
        },
    }
}

/// The function declaration built from its parts, or the error for the first missing part.
pub open spec fn fn_result(
    fn_name: Option<Seq<char>>,
    fn_args: Option<AstNodeView>,
    inheritance: Option<AstNodeView>,
    parts: Option<(AstNodeView, Option<AstNodeView>)>,
    c: int,
    l: int,
) -> Parsed {
    match fn_name {
        None => (Err(ParserErrorView::MissingFunctionName(c as usize, l as usize, Seq::empty())), c, l),
        Some(nm) => match fn_args {
            None => (Err(ParserErrorView::MissingFunctionArgs(c as usize, l as usize)), c, l),
            Some(a) => match parts {
                None => (Err(ParserErrorView::MissingFunctionBody(c as usize, l as usize)), c, l),
                Some((body, ret)) => match ret {
                    None => (
                        Err(
                            ParserErrorView::MissingReturnStatement(
                                c as usize,
                                l as usize,
                                Seq::empty(),
                            ),
                        ),
                        c,
                        l,
                    ),
                    Some(r) => (
                        Ok(
                            AstNodeView::Let {
                                name: nm,
                                value: Some(
                                    Box::new(
                                        AstNodeView::Function {
                                            params: Box::new(a),
                                            body: Box::new(body),
                                            return_env: Box::new(r),
                                        },
                                    ),
                                ),
                                inherit: match inheritance {
                                    Some(i) => Some(Box::new(i)),
                                    None => None,
                                },
                            },
                        ),
                        c,
                        l,
                    ),
                },
            },
        },
    }
}

/// Parsing a whole program from `c`: the global environment.
pub open spec fn program(toks: Seq<TokenView>, c: int, l: int) -> Option<Parsed> {
    env(toks, c, l, None, None, ParseContext::Normal)
}

/// A token sequence as the lexer gives it: it ends with the end-of-file token, which stands
/// nowhere else.
pub open spec fn eof_terminated(toks: Seq<TokenView>) -> bool {
    &&& toks.len() >= 1
    &&& toks.last() == TokenView::EOF
    &&& forall|k: int| 0 <= k < toks.len() - 1 ==> toks[k] != TokenView::EOF
}

/// In the global environment, reading on from `c` with the bindings `b` ends in success only
/// at the end of the tokens.
proof fn lemma_global_loop_reads_to_end(toks: Seq<TokenView>, c: int, l: int, b: Seq<AstNodeView>)
    requires
        eof_terminated(toks),
        0 <= c <= toks.len(),
    ensures
        env_loop(toks, c, l, None, None, ParseContext::Normal, b) matches Some((Ok(_), c2, _))
            ==> c2 == toks.len(),
    decreases toks.len() - c,
{
    if c < toks.len() {
        match env_step(toks, c, l, None, None, ParseContext::Normal, b) {
            EnvStep::Next(c2, l2, b2) => {
                if c < c2 <= toks.len() {
                    lemma_global_loop_reads_to_end(toks, c2, l2, b2);
                }
            },
            EnvStep::Done(o) => {
                if toks[c] is EOF {
                    assert(c == toks.len() - 1);
                }
            },
        }
    }
}

/// Parsing a program whose tokens end with their only end-of-file token, as the lexer gives
/// them, reads every token when it succeeds.
pub proof fn parse_reads_every_token(toks: Seq<TokenView>, l: int)
    requires
        eof_terminated(toks),
    ensures
        program(toks, 0, l) matches Some((Ok(_), c, _)) ==> c == toks.len(),
{
    lemma_global_loop_reads_to_end(toks, 0, l, Seq::empty());
}

/// Parsing the tokens that the lexer made of an input reads every one of them, when both
/// succeed.
pub proof fn parse_reads_all_lexed_tokens(inp: Seq<Seq<char>>, l: int)
    ensures
        lex_from(inp, 0).0 matches Ok(ts) ==> (program(ts, 0, l) matches Some((Ok(_), c, _))
            ==> c == ts.len()),
{
    lexing_ends_with_eof(inp, 0);
    if let Ok(ts) = lex_from(inp, 0).0 {
        parse_reads_every_token(ts, l);
    }
}

/// In the global environment, reading on from `c` with the bindings `b` succeeds only with an
/// environment that has neither name nor parent.
proof fn lemma_global_loop_is_global(toks: Seq<TokenView>, c: int, l: int, b: Seq<AstNodeView>)
    requires
        0 <= c <= toks.len(),
    ensures
        env_loop(toks, c, l, None, None, ParseContext::Normal, b) matches Some((Ok(n), _, _))
            ==> n matches AstNodeView::Environment { name: None, parent: None, .. },
    decreases toks.len() - c,
{
    if c < toks.len() {
        if let EnvStep::Next(c2, l2, b2) = env_step(toks, c, l, None, None, ParseContext::Normal, b) {
            if c < c2 <= toks.len() {
                lemma_global_loop_is_global(toks, c2, l2, b2);
            }
        }
    }
}

/// A program that parses gives the global environment: one with neither name nor parent.
pub proof fn parse_gives_global_environment(toks: Seq<TokenView>, c: int, l: int)
    requires
        0 <= c <= toks.len(),
    ensures
        program(toks, c, l) matches Some((Ok(n), _, _)) ==> n matches AstNodeView::Environment {
            name: None,
            parent: None,
            ..
        },
{
    lemma_global_loop_is_global(toks, c, l, Seq::empty());
}

/// The operand that the token at `k` makes on its own: an identifier, a boolean, or an integer
/// numeral that fits `isize` and is not continued by another number token or a full stop.
pub open spec fn operand_node(toks: Seq<TokenView>, k: int) -> Option<AstNodeView> {
    if k < 0 || k >= toks.len() {
        None
    } else {
        match toks[k] {
            TokenView::Identifier(id) => Some(AstNodeView::Identifier(id)),
            TokenView::Boolean(b) => Some(AstNodeView::Boolean(b == Booleans::TRUE)),
            TokenView::Number(n) => if (k + 1 >= toks.len() || !(toks[k + 1] is Number
                || toks[k + 1] == TokenView::Operator(Operators::Other(OtherOperators::ACCESSOR))))
                && literal_in_range(n, isize::MIN as int, isize::MAX as int) {
                Some(AstNodeView::Integer(int_literal(n).unwrap() as isize))
            } else {
                None
            },
            _ => None,
        }
    }
}

/// The tokens from `a` up to `b` are all whitespace.
pub open spec fn all_whitespace_tokens(toks: Seq<TokenView>, a: int, b: int) -> bool {
    forall|m: int| a <= m < b ==> #[trigger] toks[m] is Whitespace
}

/// A unary operator keeps both itself and its operand: reading the operand of `op` from `c`,
/// past whitespace, to an identifier, boolean or integer at `k` gives the unary operation of
/// `op` on that operand, and reading goes on after it.
pub proof fn unary_operation_keeps_operator_and_operand(
    toks: Seq<TokenView>,
    c: int,
    k: int,
    l: int,
    op: Operators,
)
    requires
        0 <= c <= k < toks.len(),
        all_whitespace_tokens(toks, c, k),
        operand_node(toks, k) is Some,
    ensures
        unary(toks, c, l, op).0 == Ok::<AstNodeView, ParserErrorView>(
            AstNodeView::UnaryOp { op: op, operand: Box::new(operand_node(toks, k).unwrap()) },
        ),
        unary(toks, c, l, op).1 == k + 1,
    decreases k - c,
{
    if c < k {
        assert(toks[c] is Whitespace);
        let ws = toks[c]->Whitespace_0;
        unary_operation_keeps_operator_and_operand(toks, c + 1, k, bump(ws, l), op);
    } else if toks[k] is Number {
        let n = toks[k]->Number_0;
        assert(number_scan(toks, k + 1, n) == Ok::<(Seq<char>, int), (Seq<char>, int)>((n, k + 1)));
    }
}

/// Whatever the operand, a unary operation that is read keeps its operator: reading the
/// operand of `op` succeeds only with a unary operation of `op`.
pub proof fn unary_result_carries_its_operator(toks: Seq<TokenView>, c: int, l: int, op: Operators)
    ensures
        unary(toks, c, l, op).0 matches Ok(n) ==> n matches AstNodeView::UnaryOp { op: o, .. }
            && o == op,
    decreases toks.len() - c,
{
    if 0 <= c < toks.len() && toks[c] is Whitespace {
        unary_result_carries_its_operator(toks, c + 1, bump(toks[c]->Whitespace_0, l), op);
    }
}

/// In an environment with nothing bound yet, an operator that may stand without a left-hand
/// side, followed (past whitespace) by an identifier, boolean or integer, binds the unary
/// operation of that operator on that operand, and reading goes on after the operand.
pub proof fn unary_operator_binds_operation(
    toks: Seq<TokenView>,
    c: int,
    k: int,
    l: int,
    parent: Option<AstNodeView>,
    name: Option<Seq<char>>,
    ctx: ParseContext,
    op: Operators,
)
    requires
        0 <= c < k < toks.len(),
        toks[c] == TokenView::Operator(op),
        unary_capable(op),
        all_whitespace_tokens(toks, c + 1, k),
        operand_node(toks, k) is Some,
    ensures
        env_step(toks, c, l, parent, name, ctx, Seq::empty()) matches EnvStep::Next(c2, _, b2)
            && c2 == k + 1 && b2 == seq![
            AstNodeView::UnaryOp { op: op, operand: Box::new(operand_node(toks, k).unwrap()) },
        ],
{
    unary_operation_keeps_operator_and_operand(toks, c + 1, k, l, op);
    assert(Seq::<AstNodeView>::empty().push(
        AstNodeView::UnaryOp { op: op, operand: Box::new(operand_node(toks, k).unwrap()) },
    ) =~= seq![AstNodeView::UnaryOp { op: op, operand: Box::new(operand_node(toks, k).unwrap()) }]);
}

/// A program made of a unary operator, whitespace, an operand and the end of file (such as
/// `-x`) parses to the global environment that binds that unary operation alone.
pub proof fn unary_program_parses_to_operation(toks: Seq<TokenView>, k: int, l: int, op: Operators)
    requires
        1 <= k,
        toks.len() == k + 2,
        toks[0] == TokenView::Operator(op),
        unary_capable(op),
        all_whitespace_tokens(toks, 1, k),
        operand_node(toks, k) is Some,
        toks[k + 1] == TokenView::EOF,
    ensures
        program(toks, 0, l) matches Some((Ok(n), _, _)) && n == env_node(
            None,
            seq![AstNodeView::UnaryOp { op: op, operand: Box::new(operand_node(toks, k).unwrap()) }],
            None,
        ),
{
    unary_operator_binds_operation(toks, 0, k, l, None, None, ParseContext::Normal, op);
    let (c2, l2, b2) = match env_step(toks, 0, l, None, None, ParseContext::Normal, Seq::empty()) {
        EnvStep::Next(c2, l2, b2) => (c2, l2, b2),
        _ => (0, 0, Seq::empty()),
    };
    assert(toks[k + 1] is EOF);
    assert(env_step(toks, k + 1, l2, None, None, ParseContext::Normal, b2) == EnvStep::Done(
        Some((Ok::<AstNodeView, ParserErrorView>(env_node(None, b2, None)), k + 2, l2)),
    ));
    assert(env_loop(toks, k + 1, l2, None, None, ParseContext::Normal, b2) == Some(
        (Ok::<AstNodeView, ParserErrorView>(env_node(None, b2, None)), k + 2, l2),
    ));
}

} // verus!
