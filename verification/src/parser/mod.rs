//! The Envlang parser
//!
//! The parser takes a lexed [`Token`] vector from the lexer and turns it into an Abstract
//! Syntax Tree of [`AstNode`]s.
//!
//! What each parsing step returns, and where it leaves the parser, is stated by the spec
//! functions of [`syntax`]; the methods here are proved to compute exactly that.
//!
//! [`Token`]: crate::lexer::Token
mod astnode;
mod error;
pub mod lines;
pub mod progress;
pub mod syntax;

pub use astnode::{AstNode, AstNodeView};
pub use error::{ParserError, ParserErrorView};

use std::rc::Rc;
use vstd::prelude::*;

use crate::chars::same_text;
use crate::lexer::{Token, TokenView};
use crate::numerals::{is_float_syntax, parse_isize};
use crate::parser::astnode::{
    copy_link,
    copy_name,
    copy_nodes,
    lemma_nodes_view_drop_last,
    lemma_nodes_view_index,
    lemma_nodes_view_len,
    lemma_nodes_view_push,
    node_view,
    nodes_view,
    opt_text,
};
use crate::parser::progress::parse_is_total;
use crate::parser::syntax::{
    accessor,
    assignment,
    bump,
    env,
    env_loop,
    env_node,
    env_step,
    fd_args,
    fd_body,
    fd_inherit,
    fd_name,
    fn_clause,
    function_call,
    function_declaration,
    generic_op,
    has_dot,
    identifier,
    inherit,
    let_loop,
    number_outcome,
    number_scan,
    operator,
    parse_gives_global_environment,
    program,
    unary,
    EnvStep,
};
use crate::symbols::{
    owned_text,
    ArithmeticOperators,
    Booleans,
    Keywords,
    LogicalOperators,
    Operators,
    OtherOperators,
};

verus! {

/// The context in which the parser reads an environment; it decides how some tokens, such as
/// a line terminator or the end of file, are taken.
#[derive(Debug, PartialEq, Eq, Clone, Copy, Structural)]
pub enum ParseContext {
    Normal,
    Operation,
    Function,
    FunctionReturn,
    FunctionCall,
}

impl ParseContext {
    /// The name of the context, as shown in error messages.
    pub open spec fn text(self) -> Seq<char> {
        match self {
            ParseContext::Normal => "ParseContext::Normal"@,
            ParseContext::Operation => "ParseContext::Operation"@,
            ParseContext::Function => "ParseContext::Function"@,
            ParseContext::FunctionReturn => "ParseContext::FunctionReturn"@,
            ParseContext::FunctionCall => "ParseContext::FunctionCall"@,
        }
    }

    /// Shows the context by its name.
    pub fn to_string(&self) -> (s: String)
        ensures
            s@ == self.text(),
    {
        match self {
            ParseContext::Normal => owned_text("ParseContext::Normal"),
            ParseContext::Operation => owned_text("ParseContext::Operation"),
            ParseContext::Function => owned_text("ParseContext::Function"),
            ParseContext::FunctionReturn => owned_text("ParseContext::FunctionReturn"),
            ParseContext::FunctionCall => owned_text("ParseContext::FunctionCall"),
        }
    }
}

/// The view of an optional node pointer.
pub open spec fn link_view(p: Option<Rc<AstNode>>) -> Option<AstNodeView> {
    match p {
        Some(n) => Some(node_view(*n)),
        None => None,
    }
}

/// The view of a parser result.
pub open spec fn outcome<T: View, E: View>(r: Result<T, E>) -> Result<T::V, E::V> {
    match r {
        Ok(n) => Ok(n@),
        Err(e) => Err(e@),
    }
}

/// The `Parser` holds the [`Token`] vector from the lexer, the index of the token to be read
/// next and the line number.
///
/// The line number is counted from the line breaks read so far, and is one-indexed.
///
/// # Errors
///
/// The parsing methods return `Result<AstNode, ParserError>`; the errors hold the token index
/// where the error arose, the line number, and in most cases the offending token's text.
///
/// [`Token`]: crate::lexer::Token
pub struct Parser {
    tokens: Vec<Token>,
    current: usize,
    line: usize,
}

impl Parser {
    /// The tokens, as views.
    pub closed spec fn tokens_view(&self) -> Seq<TokenView> {
        self.tokens@.map_values(|t: Token| t@)
    }

    /// The index of the token to be read next.
    pub closed spec fn position(&self) -> int {
        self.current as int
    }

    /// The line number.
    pub closed spec fn line_number(&self) -> int {
        self.line as int
    }

    /// The parser's invariant: the position lies within the tokens, and the line number is at
    /// least one and at most one more than the tokens read.
    pub closed spec fn well_formed(&self) -> bool {
        &&& self.current <= self.tokens.len()
        &&& 1 <= self.line <= self.current + 1
        &&& self.tokens.len() < usize::MAX
    }

    /// Initializes a new Parser with a given input token vector.
    pub fn new(tokens: Vec<Token>) -> (p: Self)
        requires
            tokens.len() < usize::MAX,
        ensures
            p.well_formed(),
            p.tokens_view() == tokens@.map_values(|t: Token| t@),
            p.position() == 0,
            p.line_number() == 1,
    {
        Self { tokens, current: 0, line: 1 }
    }

    /// Gets the token at the current index.
    fn peek(&self) -> (r: Option<&Token>)
        requires
            self.well_formed(),
        ensures
            match r {
                Some(t) => self.current < self.tokens.len() && t@ == self.tokens_view()[self.current as int],
                None => self.current >= self.tokens.len(),
            },
    {
        if self.current < self.tokens.len() {
            Some(&self.tokens[self.current])
        } else {
            None
        }
    }

    /// Increments the current token index.
    fn next(&mut self)
        requires
            old(self).well_formed(),
            old(self).current < old(self).tokens.len(),
        ensures
            final(self).well_formed(),
            final(self).tokens == old(self).tokens,
            final(self).line == old(self).line,
            final(self).current == old(self).current + 1,
    {
        self.current += 1;
    }

    /// Gets the current token with its index and increments the index; `None` once the tokens
    /// are used up.
    fn advance(&mut self) -> (r: Option<(usize, Token)>)
        requires
            old(self).well_formed(),
        ensures
            final(self).well_formed(),
            final(self).tokens == old(self).tokens,
            final(self).line == old(self).line,
            match r {
                Some((pos, t)) => {
                    &&& pos == old(self).current
                    &&& pos < old(self).tokens.len()
                    &&& t@ == old(self).tokens_view()[pos as int]
                    &&& final(self).current == pos + 1
                },
                None => old(self).current >= old(self).tokens.len() && final(self).current
                    == old(self).current,
            },
    {
        if self.current < self.tokens.len() {
            let pos = self.current;
            let t = self.tokens[pos].duplicate();
            self.next();
            Some((pos, t))
        } else {
            None
        }
    }

    /// Increments the line counter if the whitespace is a line break.
    fn parse_whitespace(&mut self, ws: &String)
        requires
            old(self).well_formed(),
            old(self).line <= old(self).current,
        ensures
            final(self).well_formed(),
            final(self).tokens == old(self).tokens,
            final(self).current == old(self).current,
            final(self).line == bump(ws@, old(self).line as int),
    {
        proof {
            reveal_strlit("\r\n");
            reveal_strlit("\n");
            assert("\r\n"@ =~= seq!['\r', '\n']);
            assert("\n"@ =~= seq!['\n']);
        }
        if same_text(ws.as_str(), "\r\n") || same_text(ws.as_str(), "\n") {
            self.line += 1;
        }
    }

    /// Returns an [`AstNode::String`] holding the string literal.
    fn parse_string(&mut self, string: &String) -> (r: Result<AstNode, ParserError>)
        ensures
            *final(self) == *old(self),
            r matches Ok(n) && n@ == AstNodeView::String(string@),
    {
        Ok(AstNode::String(string.clone()))
    }

    /// Returns an [`AstNode::Integer`] or [`AstNode::Float`] for the number whose first token
    /// `start_token` stands at `start_pos`, reading the number and full-stop tokens that
    /// follow it.
    ///
    /// # Errors
    /// * [`ParserError::NotANumber`]: the first token is neither a number nor a full stop, or
    ///   the numeral read is neither an `isize` nor a float.
    /// * [`ParserError::MalformedNumber`]: the numeral holds a second full stop.
    #[verifier::loop_isolation(false)]
    fn parse_number(&mut self, start_pos: usize, start_token: &Token) -> (r: Result<
        AstNode,
        ParserError,
    >)
        requires
            old(self).well_formed(),
        ensures
            final(self).well_formed(),
            final(self).tokens == old(self).tokens,
            (outcome(r), final(self).position(), final(self).line_number()) == number_outcome(
                old(self).tokens_view(),
                old(self).position(),
                old(self).line_number(),
                start_pos as int,
                start_token@,
            ),
    {
        let ghost toks = self.tokens_view();
        let ghost c0 = self.position();
        proof {
            reveal_strlit("0.");
            reveal_strlit(".");
            assert("0."@ =~= seq!['0', '.']);
            assert("."@ =~= seq!['.']);
        }
        let mut numstr: String = String::new();
        match start_token {
            Token::Number(num) => numstr.append(num.as_str()),
            Token::Operator(Operators::Other(OtherOperators::ACCESSOR)) => numstr.append("0."),
            _ => {
                return Err(ParserError::NotANumber(start_pos, self.line, numstr));
            },
        }
        let ghost s0 = numstr@;
        loop
            invariant
                self.well_formed(),
                self.tokens == old(self).tokens,
                self.tokens_view() == toks,
                self.line == old(self).line,
                number_scan(toks, c0, s0) == number_scan(toks, self.position(), numstr@),
            decreases toks.len() - self.position(),
        {
            match self.peek() {
                Some(Token::Number(num)) => {
                    let ghost before = numstr@;
                    let ghost c = self.position();
                    numstr.append(num.as_str());
                    assert(number_scan(toks, c, before) == number_scan(toks, c + 1, numstr@));
                    self.next();
                },
                Some(Token::Operator(Operators::Other(OtherOperators::ACCESSOR))) => {
                    let ghost before = numstr@;
                    let ghost c = self.position();
                    if contains_full_stop(numstr.as_str()) {
                        assert(number_scan(toks, c, before) == Err::<(Seq<char>, int), (Seq<char>, int)>((before, c)));
                        return Err(ParserError::MalformedNumber(self.current, self.line, numstr));
                    }
                    numstr.append(".");
                    assert(number_scan(toks, c, before) == number_scan(toks, c + 1, numstr@));
                    self.next();
                },
                _ => break,
            }
        }
        match parse_isize(numstr.as_str()) {
            Ok(num) => Ok(AstNode::Integer(num)),
            Err(_) => {
                if is_float_syntax(numstr.as_str()) {
                    Ok(AstNode::Float(numstr))
                } else {
                    Err(ParserError::NotANumber(self.current, self.line, numstr))
                }
            },
        }
    }

    /// Returns an [`AstNode::UnaryOp`] applying `op` to the operand that follows.
    ///
    /// # Errors
    /// * Any errors bubbled up from [`parse_number`](Parser::parse_number).
    /// * [`ParserError::InvalidTokenInUnaryOp`]: the operand is not a number, an identifier or
    ///   a boolean.
    /// * [`ParserError::UnexpectedEOF`]: the end of file, or the end of the tokens, before an
    ///   operand.
    #[verifier::loop_isolation(false)]
    fn parse_unary_operator(&mut self, op: &Operators) -> (r: Result<AstNode, ParserError>)
        requires
            old(self).well_formed(),
        ensures
            final(self).well_formed(),
            final(self).tokens == old(self).tokens,
            (outcome(r), final(self).position(), final(self).line_number()) == unary(
                old(self).tokens_view(),
                old(self).position(),
                old(self).line_number(),
                *op,
            ),
    {
        let ghost toks = self.tokens_view();
        let ghost c0 = self.position();
        let ghost l0 = self.line_number();
        loop
            invariant
                self.well_formed(),
                self.tokens == old(self).tokens,
                self.tokens_view() == toks,
                unary(toks, c0, l0, *op) == unary(toks, self.position(), self.line_number(), *op),
            decreases toks.len() - self.position(),
        {
            match self.advance() {
                None => {
                    return Err(ParserError::UnexpectedEOF(self.current, self.line));
                },
                Some((pos, token)) => {
                    match &token {
                        Token::Whitespace(ws) => {
                            self.parse_whitespace(ws);
                        },
                        Token::EOF => {
                            return Err(ParserError::UnexpectedEOF(pos, self.line));
                        },
                        Token::Number(_) => {
                            return match self.parse_number(pos, &token) {
                                Ok(number) => Ok(AstNode::UnaryOp { op: *op, operand: Rc::new(number) }),
                                Err(e) => Err(e),
                            };
                        },
                        Token::Identifier(id) => {
                            let operand = AstNode::Identifier(id.clone());
                            assert(operand@ == AstNodeView::Identifier(id@));
                            return Ok(AstNode::UnaryOp { op: *op, operand: Rc::new(operand) });
                        },
                        Token::Boolean(b) => {
                            let value = match b {
                                Booleans::TRUE => true,
                                Booleans::FALSE => false,
                            };
                            let operand = AstNode::Boolean(value);
                            assert(operand@ == AstNodeView::Boolean(value));
                            return Ok(AstNode::UnaryOp { op: *op, operand: Rc::new(operand) });
                        },
                        _ => {
                            return Err(
                                ParserError::InvalidTokenInUnaryOp(pos, self.line, token.to_string()),
                            );
                        },
                    }
                },
            }
        }
    }

    /// Returns an [`AstNode::Inherit`] for the inheritance clause that follows `inherit`.
    ///
    /// # Errors
    /// * [`ParserError::DoubleInheritanceParen`]: an opening parenthesis after some names.
    /// * [`ParserError::WildcardAndElements`]: the clause holds both the wildcard and names.
    /// * [`ParserError::InvalidInheritanceToken`]: a token other than parentheses, commas, the
    ///   wildcard or identifiers.
    #[verifier::loop_isolation(false)]
    fn parse_inherit_clause(&mut self) -> (r: Result<AstNode, ParserError>)
        requires
            old(self).well_formed(),
        ensures
            final(self).well_formed(),
            final(self).tokens == old(self).tokens,
            final(self).current > old(self).current || old(self).current == old(self).tokens.len(),
            (outcome(r), final(self).position(), final(self).line_number()) == inherit(
                old(self).tokens_view(),
                old(self).position(),
                old(self).line_number(),
                Some(Seq::empty()),
            ),
    {
        let ghost toks = self.tokens_view();
        let ghost c0 = self.position();
        let ghost l0 = self.line_number();
        let mut inheritance_arg = AstNode::Inherit { names: Some(Vec::new()) };
        assert(inheritance_arg@->names == Some(Seq::<Seq<char>>::empty()));
        loop
            invariant
                self.well_formed(),
                self.tokens == old(self).tokens,
                self.tokens_view() == toks,
                inheritance_arg@ is Inherit,
                self.current >= old(self).current,
                inherit(toks, c0, l0, Some(Seq::empty())) == inherit(
                    toks,
                    self.position(),
                    self.line_number(),
                    inheritance_arg@->names,
                ),
            decreases toks.len() - self.position(),
        {
            match self.advance() {
                None => {
                    return Ok(inheritance_arg);
                },
                Some((pos, token)) => {
                    match &token {
                        Token::Whitespace(ws) => {
                            self.parse_whitespace(ws);
                        },
                        Token::LeftParen => {
                            if let Some(names) = inheritance_arg.get_inherited_names() {
                                if names.len() > 0 {
                                    return Err(
                                        ParserError::DoubleInheritanceParen(
                                            pos,
                                            self.line,
                                            token.to_string(),
                                        ),
                                    );
                                }
                            }
                        },
                        Token::RightParen => {
                            return Ok(inheritance_arg);
                        },
                        Token::Operator(Operators::Arithmetic(ArithmeticOperators::MULTIPLY)) => {
                            if let Some(names) = inheritance_arg.get_inherited_names() {
                                if names.len() > 0 {
                                    return Err(
                                        ParserError::WildcardAndElements(
                                            pos,
                                            self.line,
                                            token.to_string(),
                                        ),
                                    );
                                }
                            }
                            inheritance_arg = AstNode::Inherit { names: None };
                        },
                        Token::Identifier(id) => {
                            if inheritance_arg.get_inherited_names().is_none() {
                                return Err(
                                    ParserError::WildcardAndElements(pos, self.line, token.to_string()),
                                );
                            }
                            let _ = inheritance_arg.push_inherited_name(id.clone());
                        },
                        Token::Comma => {},
                        _ => {
                            return Err(
                                ParserError::InvalidInheritanceToken(pos, self.line, token.to_string()),
                            );
                        },
                    }
                },
            }
        }
    }

    /// Returns an [`AstNode::FunctionArgs`] for the argument clause whose opening bracket was
    /// just read.
    ///
    /// # Errors
    /// * Any errors bubbled up from [`parse_identifier`](Parser::parse_identifier).
    /// * [`ParserError::DoubleFunArgBracket`]: an opening bracket after some arguments.
    /// * [`ParserError::UnclosedArgumentClause`]: the end of file before the closing bracket.
    /// * [`ParserError::InvalidFunArgToken`]: a token other than identifiers, commas and
    ///   brackets.
    /// * [`ParserError::ParserLogicError`]: the tokens ran out before the closing bracket.
    #[verifier::loop_isolation(false)]
    fn parse_function_clause(&mut self) -> (r: Result<AstNode, ParserError>)
        requires
            old(self).well_formed(),
        ensures
            final(self).well_formed(),
            final(self).tokens == old(self).tokens,
            (outcome(r), final(self).position(), final(self).line_number()) == fn_clause(
                old(self).tokens_view(),
                old(self).position(),
                old(self).line_number(),
                Seq::empty(),
            ),
        decreases old(self).tokens@.len() - old(self).current, 0int,
    {
        let ghost toks = self.tokens_view();
        let ghost c0 = self.position();
        let ghost l0 = self.line_number();
        let mut args: Vec<Rc<AstNode>> = Vec::new();
        loop
            invariant
                self.well_formed(),
                self.tokens == old(self).tokens,
                self.tokens_view() == toks,
                self.current >= old(self).current,
                old(self).tokens@.len() == toks.len(),
                fn_clause(toks, c0, l0, Seq::empty()) == fn_clause(
                    toks,
                    self.position(),
                    self.line_number(),
                    nodes_view(args@),
                ),
            decreases toks.len() - self.position(),
        {
            let ghost b = nodes_view(args@);
            proof {
                lemma_nodes_view_len(args@);
            }
            match self.advance() {
                None => {
                    return Err(ParserError::ParserLogicError(self.current, self.line));
                },
                Some((pos, token)) => {
                    match &token {
                        Token::Whitespace(ws) => {
                            self.parse_whitespace(ws);
                        },
                        Token::LeftBracket => {
                            if args.len() > 0 {
                                return Err(
                                    ParserError::DoubleFunArgBracket(pos, self.line, token.to_string()),
                                );
                            }
                        },
                        Token::RightBracket => {
                            return Ok(AstNode::FunctionArgs(args));
                        },
                        Token::Comma => {},
                        Token::Identifier(id) => {
                            match self.parse_identifier(id, ParseContext::Normal) {
                                Ok(node) => {
                                    let n = Rc::new(node);
                                    proof {
                                        lemma_nodes_view_push(args@, n);
                                    }
                                    args.push(n);
                                },
                                Err(e) => {
                                    return Err(e);
                                },
                            }
                        },
                        Token::EOF => {
                            return Err(ParserError::UnclosedArgumentClause(self.line));
                        },
                        _ => {
                            return Err(
                                ParserError::InvalidFunArgToken(pos, self.line, token.to_string()),
                            );
                        },
                    }
                },
            }
        }
    }

    /// Returns an [`AstNode::Identifier`] for `id`, or a function call of it in the
    /// [`ParseContext::FunctionCall`] context.
    ///
    /// # Errors
    /// * Any errors bubbled up from [`parse_function_call`](Parser::parse_function_call).
    /// * [`ParserError::InvalidContextForIdentifier`]: a context other than the normal and
    ///   the function call one.
    fn parse_identifier(&mut self, id: &String, context: ParseContext) -> (r: Result<
        AstNode,
        ParserError,
    >)
        requires
            old(self).well_formed(),
        ensures
            final(self).well_formed(),
            final(self).tokens == old(self).tokens,
            (outcome(r), final(self).position(), final(self).line_number()) == identifier(
                old(self).tokens_view(),
                old(self).position(),
                old(self).line_number(),
                id@,
                context,
            ),
        decreases old(self).tokens@.len() - old(self).current, 2int,
    {
        match context {
            ParseContext::FunctionCall => {
                self.parse_function_call(Rc::new(AstNode::Identifier(id.clone())))
            },
            ParseContext::Normal => Ok(AstNode::Identifier(id.clone())),
            _ => Err(ParserError::InvalidContextForIdentifier(self.line, context.to_string())),
        }
    }

    /// Returns an [`AstNode::FunctionCall`] of `id` with the argument clause that follows.
    ///
    /// # Errors
    /// * Any errors bubbled up from [`parse_function_clause`](Parser::parse_function_clause).
    /// * [`ParserError::InvalidTokenInFnCall`]: the next token is not an opening bracket.
    fn parse_function_call(&mut self, id: Rc<AstNode>) -> (r: Result<AstNode, ParserError>)
        requires
            old(self).well_formed(),
        ensures
            final(self).well_formed(),
            final(self).tokens == old(self).tokens,
            (outcome(r), final(self).position(), final(self).line_number()) == function_call(
                old(self).tokens_view(),
                old(self).position(),
                old(self).line_number(),
                node_view(*id),
            ),
        decreases old(self).tokens@.len() - old(self).current, 1int,
    {
        match self.advance() {
            Some((pos, token)) => {
                match &token {
                    Token::LeftBracket => match self.parse_function_clause() {
                        Ok(call_args) => Ok(AstNode::FunctionCall { id, args: Rc::new(call_args) }),
                        Err(e) => Err(e),
                    },
                    _ => Err(ParserError::InvalidTokenInFnCall(pos, self.line, token.to_string())),
                }
            },
            None => {
                let empty: Vec<Rc<AstNode>> = Vec::new();
                assert(nodes_view(empty@) =~= Seq::<AstNodeView>::empty());
                let call_args = AstNode::FunctionArgs(empty);
                assert(call_args@ == AstNodeView::FunctionArgs(Seq::empty()));
                Ok(AstNode::FunctionCall { id, args: Rc::new(call_args) })
            },
        }
    }

    /// Takes a single-element environment and returns its binding.
    ///
    /// # Errors
    /// * [`ParserError::EmptyEnv`]: the environment has no binding.
    /// * [`ParserError::NotAnEnvironment`]: the node is not an environment.
    fn flatten_environment(&self, expr: &AstNode, pos: usize, token: &Token) -> (r: Result<
        Rc<AstNode>,
        ParserError,
    >)
        ensures
            match expr@ {
                AstNodeView::Environment { bindings, .. } => if bindings.len() == 0 {
                    r matches Err(e) && e@ == ParserErrorView::EmptyEnv(pos, self.line, token@.text())
                } else {
                    r matches Ok(n) && node_view(*n) == bindings[0]
                },
                _ => r matches Err(e) && e@ == ParserErrorView::NotAnEnvironment(
                    pos,
                    self.line,
                    token@.text(),
                ),
            },
    {
        match expr {
            AstNode::Environment { bindings, .. } => {
                proof {
                    lemma_nodes_view_len(bindings@);
                }
                if bindings.len() == 0 {
                    return Err(ParserError::EmptyEnv(pos, self.line, token.to_string()));
                }
                proof {
                    lemma_nodes_view_index(bindings@, 0);
                }
                Ok(bindings[0].clone())
            },
            _ => Err(ParserError::NotAnEnvironment(pos, self.line, token.to_string())),
        }
    }

    /// Parses the input into an [`AstNode`] representing the global environment of the
    /// program, which holds every element defined in the source code.
    ///
    /// The result is the one [`program`] gives, which every token vector has
    /// ([`parse_is_total`](progress::parse_is_total)); a success is always the global
    /// environment, with neither name nor parent.
    ///
    /// # Errors
    /// Errors are returned as [`ParserError`] from the parser submethods.
    pub fn parse(&mut self) -> (r: Result<AstNode, ParserError>)
        requires
            old(self).well_formed(),
        ensures
            final(self).well_formed(),
            final(self).tokens_view() == old(self).tokens_view(),
            program(old(self).tokens_view(), old(self).position(), old(self).line_number()) == Some(
                (outcome(r), final(self).position(), final(self).line_number()),
            ),
            r matches Ok(n) ==> n@ matches AstNodeView::Environment { name: None, parent: None, .. },
    {
        proof {
            parse_is_total(self.tokens_view(), self.position(), self.line_number());
            parse_gives_global_environment(self.tokens_view(), self.position(), self.line_number());
        }
        self.parse_environment(None, None, ParseContext::Normal)
    }

    /// Returns an [`AstNode::Environment`] holding the elements read until the environment
    /// closes.
    ///
    /// # Arguments
    /// * `parent`: the parent environment, or `None` for the global environment.
    /// * `name`: the name of the environment, or `None` for an unnamed environment.
    /// * `context`: the [`ParseContext`] within which the environment is being parsed.
    ///
    /// # The EOF token
    /// The end-of-file token ends the global environment and a return statement; in a function
    /// body it is a [`ParserError::MissingReturnStatement`], in any other environment (a
    /// nested or assigned one, an operation, a function call) a [`ParserError::UnexpectedEOF`].
    ///
    /// # Errors
    /// * Any errors bubbled up from the submethods.
    /// * [`ParserError::UnexpectedReturn`]: the return keyword outside a function.
    /// * [`ParserError::BinaryOpWithNoLHS`]: a binary operator without a left-hand side.
    /// * [`ParserError::UnclosedEnvironment`]: the tokens ran out inside an environment that
    ///   is neither the global one nor a return statement.
    fn parse_environment(
        &mut self,
        parent: Option<Rc<AstNode>>,
        name: Option<String>,
        context: ParseContext,
    ) -> (r: Result<AstNode, ParserError>)
        requires
            old(self).well_formed(),
            env(
                old(self).tokens_view(),
                old(self).position(),
                old(self).line_number(),
                link_view(parent),
                opt_text(name),
                context,
            ) is Some,
        ensures
            final(self).well_formed(),
            final(self).tokens == old(self).tokens,
            env(
                old(self).tokens_view(),
                old(self).position(),
                old(self).line_number(),
                link_view(parent),
                opt_text(name),
                context,
            ) == Some((outcome(r), final(self).position(), final(self).line_number())),
        decreases old(self).tokens@.len() - old(self).current, 2int,
    {
        let ghost toks = self.tokens_view();
        let ghost pv = link_view(parent);
        let ghost nv = opt_text(name);
        let ghost whole = env(toks, self.position(), self.line_number(), pv, nv, context);
        let mut bindings: Vec<Rc<AstNode>> = Vec::new();
        assert(nodes_view(bindings@) =~= Seq::<AstNodeView>::empty());
        loop
            invariant
                self.well_formed(),
                self.tokens == old(self).tokens,
                self.tokens_view() == toks,
                toks == old(self).tokens_view(),
                self.current >= old(self).current,
                pv == link_view(parent),
                nv == opt_text(name),
                whole == env(
                    toks,
                    old(self).position(),
                    old(self).line_number(),
                    pv,
                    nv,
                    context,
                ),
                whole is Some,
                whole == env_loop(
                    toks,
                    self.position(),
                    self.line_number(),
                    pv,
                    nv,
                    context,
                    nodes_view(bindings@),
                ),
            decreases toks.len() - self.position(),
        {
            let ghost c = self.position();
            let ghost l = self.line_number();
            let ghost b = nodes_view(bindings@);
            proof {
                lemma_nodes_view_len(bindings@);
            }
            let (pos, token) = match self.advance() {
                None => {
                    return if context == ParseContext::FunctionReturn || (context
                        == ParseContext::Normal && parent.is_none()) {
                        Ok(AstNode::Environment { name, bindings, parent })
                    } else {
                        Err(ParserError::UnclosedEnvironment(self.line))
                    };
                },
                Some(read) => read,
            };
            proof {
                lemma_env_loop_unfold(toks, c, l, pv, nv, context, b);
            }
            match &token {
                Token::LeftBrace => {
                    if parent.is_some() && context == ParseContext::Normal {
                        let current_env = environment_of(&name, &bindings, &parent);
                        match self.parse_environment(
                            Some(Rc::new(current_env)),
                            None,
                            ParseContext::Normal,
                        ) {
                            Ok(sub_env) => {
                                let n = Rc::new(sub_env);
                                proof {
                                    lemma_nodes_view_push(bindings@, n);
                                }
                                bindings.push(n);
                            },
                            Err(e) => {
                                return Err(e);
                            },
                        }
                    }
                },
                Token::RightBrace => {
                    if parent.is_some() {
                        return Ok(AstNode::Environment { name, bindings, parent });
                    }
                },
                Token::LeftParen | Token::RightParen | Token::Comma | Token::LeftBracket
                | Token::RightBracket => {},
                Token::Keyword(Keywords::INHERIT) | Token::Keyword(Keywords::FUN) => {},
                Token::Identifier(id) => {
                    let inner_context = match self.peek() {
                        Some(Token::LeftBracket) => ParseContext::FunctionCall,
                        _ => ParseContext::Normal,
                    };
                    match self.parse_identifier(id, inner_context) {
                        Ok(node) => {
                            let n = Rc::new(node);
                            proof {
                                lemma_nodes_view_push(bindings@, n);
                            }
                            bindings.push(n);
                        },
                        Err(e) => {
                            return Err(e);
                        },
                    }
                },
                Token::Number(_) => {
                    match self.parse_number(pos, &token) {
                        Ok(node) => {
                            let n = Rc::new(node);
                            proof {
                                lemma_nodes_view_push(bindings@, n);
                            }
                            bindings.push(n);
                        },
                        Err(e) => {
                            return Err(e);
                        },
                    }
                },
                Token::StringLiteral(string) => {
                    match self.parse_string(string) {
                        Ok(node) => {
                            let n = Rc::new(node);
                            proof {
                                lemma_nodes_view_push(bindings@, n);
                            }
                            bindings.push(n);
                        },
                        Err(e) => {
                            return Err(e);
                        },
                    }
                },
                Token::Boolean(bv) => {
                    let value = match bv {
                        Booleans::TRUE => true,
                        Booleans::FALSE => false,
                    };
                    let node = AstNode::Boolean(value);
                    assert(node@ == AstNodeView::Boolean(value));
                    let n = Rc::new(node);
                    proof {
                        lemma_nodes_view_push(bindings@, n);
                    }
                    bindings.push(n);
                },
                Token::Keyword(Keywords::LET) => {
                    let current_env = environment_of(&name, &bindings, &parent);
                    match self.parse_assignment(Some(Rc::new(current_env))) {
                        Ok(node) => {
                            let n = Rc::new(node);
                            proof {
                                lemma_nodes_view_push(bindings@, n);
                            }
                            bindings.push(n);
                        },
                        Err(e) => {
                            return Err(e);
                        },
                    }
                },
                Token::Keyword(Keywords::RETURN) => {
                    if context == ParseContext::Function {
                        match self.parse_environment(
                            copy_link(&parent),
                            None,
                            ParseContext::FunctionReturn,
                        ) {
                            Ok(return_env) => {
                                let n = Rc::new(return_env);
                                proof {
                                    lemma_nodes_view_push(bindings@, n);
                                }
                                bindings.push(n);
                                return Ok(AstNode::Environment { name, bindings, parent });
                            },
                            Err(e) => {
                                return Err(e);
                            },
                        }
                    } else {
                        return Err(ParserError::UnexpectedReturn(pos, self.line));
                    }
                },
                Token::Whitespace(ws) => {
                    self.parse_whitespace(ws);
                },
                Token::Operator(op) => {
                    let ghost all = bindings@;
                    match bindings.pop() {
                        Some(prev) => {
                            proof {
                                lemma_nodes_view_drop_last(all);
                            }
                            let env_rc = Rc::new(environment_of(&name, &bindings, &parent));
                            match self.parse_operator(Some(env_rc), op, &prev) {
                                Ok(node) => {
                                    let n = Rc::new(node);
                                    proof {
                                        lemma_nodes_view_push(bindings@, n);
                                    }
                                    bindings.push(n);
                                },
                                Err(e) => {
                                    return Err(e);
                                },
                            }
                        },
                        None => {
                            match op {
                                Operators::Arithmetic(ArithmeticOperators::ADD)
                                | Operators::Logical(LogicalOperators::NOT)
                                | Operators::Arithmetic(ArithmeticOperators::SUBTRACT) => {
                                    match self.parse_unary_operator(op) {
                                        Ok(node) => {
                                            let n = Rc::new(node);
                                            proof {
                                                lemma_nodes_view_push(bindings@, n);
                                            }
                                            bindings.push(n);
                                        },
                                        Err(e) => {
                                            return Err(e);
                                        },
                                    }
                                },
                                _ => {
                                    return Err(ParserError::BinaryOpWithNoLHS(pos, self.line));
                                },
                            }
                        },
                    }
                },
                Token::LineTerminator => {
                    match context {
                        ParseContext::Operation => {
                            if bindings.len() == 1 {
                                proof {
                                    lemma_nodes_view_index(bindings@, 0);
                                }
                                return Ok((*bindings[0]).duplicate());
                            }
                        },
                        ParseContext::Normal => {
                            if name.is_some() {
                                return Ok(AstNode::Environment { name, bindings, parent });
                            }
                        },
                        ParseContext::Function | ParseContext::FunctionCall => {},
                        ParseContext::FunctionReturn => {
                            return Ok(AstNode::Environment { name, bindings, parent });
                        },
                    }
                },
                Token::EOF => {
                    return match context {
                        ParseContext::Normal => {
                            if parent.is_none() {
                                Ok(AstNode::Environment { name, bindings, parent })
                            } else {
                                Err(ParserError::UnexpectedEOF(pos, self.line))
                            }
                        },
                        ParseContext::FunctionReturn => Ok(
                            AstNode::Environment { name, bindings, parent },
                        ),
                        ParseContext::Function => Err(
                            ParserError::MissingReturnStatement(pos, self.line, String::new()),
                        ),
                        _ => Err(ParserError::UnexpectedEOF(pos, self.line)),
                    };
                },
            }
        }
    }

    /// Returns the binary operation `op` whose left-hand side is `prev`, reading its
    /// right-hand side.
    ///
    /// # Errors
    /// * Any errors bubbled up from [`parse_accessor_op`](Parser::parse_accessor_op) and
    ///   [`parse_generic_op`](Parser::parse_generic_op).
    /// * [`ParserError::InvalidOperation`]: the logical NOT, which takes no left-hand side.
    fn parse_operator(
        &mut self,
        parent_env: Option<Rc<AstNode>>,
        op: &Operators,
        prev: &Rc<AstNode>,
    ) -> (r: Result<AstNode, ParserError>)
        requires
            old(self).well_formed(),
            operator(
                old(self).tokens_view(),
                old(self).position(),
                old(self).line_number(),
                link_view(parent_env),
                *op,
                node_view(**prev),
            ) is Some,
        ensures
            final(self).well_formed(),
            final(self).tokens == old(self).tokens,
            operator(
                old(self).tokens_view(),
                old(self).position(),
                old(self).line_number(),
                link_view(parent_env),
                *op,
                node_view(**prev),
            ) == Some((outcome(r), final(self).position(), final(self).line_number())),
        decreases old(self).tokens@.len() - old(self).current, 4int,
    {
        match op {
            Operators::Other(OtherOperators::ACCESSOR) => self.parse_accessor_op(op, prev),
            Operators::Logical(LogicalOperators::NOT) => Err(
                ParserError::InvalidOperation(self.current, self.line, op.to_string()),
            ),
            _ => self.parse_generic_op(parent_env, op, prev),
        }
    }

    /// Returns the binary operation `op` on `prev` and the operation environment that
    /// follows, flattened when it holds a single element.
    ///
    /// # Errors
    /// * Any errors bubbled up from [`parse_environment`](Parser::parse_environment).
    /// * [`ParserError::UnexpectedEOF`]: the tokens ran out.
    fn parse_generic_op(
        &mut self,
        parent_env: Option<Rc<AstNode>>,
        op: &Operators,
        prev: &Rc<AstNode>,
    ) -> (r: Result<AstNode, ParserError>)
        requires
            old(self).well_formed(),
            generic_op(
                old(self).tokens_view(),
                old(self).position(),
                old(self).line_number(),
                link_view(parent_env),
                *op,
                node_view(**prev),
            ) is Some,
        ensures
            final(self).well_formed(),
            final(self).tokens == old(self).tokens,
            generic_op(
                old(self).tokens_view(),
                old(self).position(),
                old(self).line_number(),
                link_view(parent_env),
                *op,
                node_view(**prev),
            ) == Some((outcome(r), final(self).position(), final(self).line_number())),
        decreases old(self).tokens@.len() - old(self).current, 3int,
    {
        if self.peek().is_some() {
            let next_node = match self.parse_environment(parent_env, None, ParseContext::Operation) {
                Ok(n) => n,
                Err(e) => {
                    return Err(e);
                },
            };
            if let Some(bindings) = next_node.get_bindings() {
                proof {
                    lemma_nodes_view_len(bindings@);
                }
                if bindings.len() == 1 {
                    proof {
                        lemma_nodes_view_index(bindings@, 0);
                    }
                    return Ok(
                        AstNode::BinaryOp {
                            left: prev.clone(),
                            operator: *op,
                            right: bindings[0].clone(),
                        },
                    );
                }
            }
            Ok(AstNode::BinaryOp { left: prev.clone(), operator: *op, right: Rc::new(next_node) })
        } else {
            Err(ParserError::UnexpectedEOF(self.current, self.line))
        }
    }

    /// Returns the accession of the identifier that follows from `prev`.
    ///
    /// # Errors
    /// * [`ParserError::ParserLogicError`]: `op` is not the accessor operator.
    /// * [`ParserError::InvalidAccessionTarget`]: the next token is not an identifier.
    /// * [`ParserError::UnexpectedEOF`]: the tokens ran out.
    /// * [`ParserError::InvalidAccessionSource`]: `prev` is neither an identifier nor an
    ///   environment.
    fn parse_accessor_op(&mut self, op: &Operators, prev: &Rc<AstNode>) -> (r: Result<
        AstNode,
        ParserError,
    >)
        requires
            old(self).well_formed(),
        ensures
            final(self).well_formed(),
            final(self).tokens == old(self).tokens,
            (outcome(r), final(self).position(), final(self).line_number()) == accessor(
                old(self).tokens_view(),
                old(self).position(),
                old(self).line_number(),
                *op,
                node_view(**prev),
            ),
    {
        match op {
            Operators::Other(OtherOperators::ACCESSOR) => {},
            _ => {
                return Err(ParserError::ParserLogicError(self.current, self.line));
            },
        }
        match &**prev {
            AstNode::Identifier(_) | AstNode::Environment { .. } => {
                match self.advance() {
                    Some((pos, token)) => match &token {
                        Token::Identifier(id) => {
                            let right = AstNode::Identifier(id.clone());
                            assert(right@ == AstNodeView::Identifier(id@));
                            Ok(
                                AstNode::BinaryOp {
                                    left: prev.clone(),
                                    operator: *op,
                                    right: Rc::new(right),
                                },
                            )
                        },
                        _ => Err(
                            ParserError::InvalidAccessionTarget(pos, self.line, token.to_string()),
                        ),
                    },
                    None => Err(ParserError::UnexpectedEOF(self.current, self.line)),
                }
            },
            _ => Err(
                ParserError::InvalidAccessionSource(self.current, self.line, (**prev).to_string()),
            ),
        }
    }

    /// Returns the assignment that follows `let`: a function declaration after `fun`, else
    /// the assignment to the identifier read.
    ///
    /// # Errors
    /// * Any errors bubbled up from
    ///   [`parse_function_declaration`](Parser::parse_function_declaration) and
    ///   [`construct_let_statement`](Parser::construct_let_statement).
    /// * [`ParserError::MissingLetIdentifier`]: `let` is followed by neither an identifier nor
    ///   `fun`.
    /// * [`ParserError::ParserLogicError`]: the tokens ran out.
    #[verifier::loop_isolation(false)]
    fn parse_assignment(&mut self, parent_env: Option<Rc<AstNode>>) -> (r: Result<
        AstNode,
        ParserError,
    >)
        requires
            old(self).well_formed(),
            assignment(
                old(self).tokens_view(),
                old(self).position(),
                old(self).line_number(),
                link_view(parent_env),
            ) is Some,
        ensures
            final(self).well_formed(),
            final(self).tokens == old(self).tokens,
            assignment(
                old(self).tokens_view(),
                old(self).position(),
                old(self).line_number(),
                link_view(parent_env),
            ) == Some((outcome(r), final(self).position(), final(self).line_number())),
        decreases old(self).tokens@.len() - old(self).current, 0int,
    {
        let ghost toks = self.tokens_view();
        let ghost pe = link_view(parent_env);
        let ghost whole = assignment(toks, self.position(), self.line_number(), pe);
        loop
            invariant
                self.well_formed(),
                self.tokens == old(self).tokens,
                self.tokens_view() == toks,
                self.current >= old(self).current,
                whole == assignment(toks, self.position(), self.line_number(), pe),
            decreases toks.len() - self.position(),
        {
            match self.advance() {
                None => {
                    return Err(ParserError::ParserLogicError(self.current, self.line));
                },
                Some((pos, token)) => {
                    match &token {
                        Token::Whitespace(ws) => {
                            self.parse_whitespace(ws);
                        },
                        Token::Keyword(Keywords::FUN) => {
                            return self.parse_function_declaration(&parent_env);
                        },
                        Token::Identifier(id) => {
                            return self.construct_let_statement(&parent_env, id, ParseContext::Normal);
                        },
                        _ => {
                            return Err(ParserError::MissingLetIdentifier(pos, self.line));
                        },
                    }
                },
            }
        }
    }

    /// Returns the assignment to `id`, reading an optional inheritance clause, the assignment
    /// operator and the environment assigned (flattened when it holds a single element).
    ///
    /// # Errors
    /// * Any errors bubbled up from [`parse_inherit_clause`](Parser::parse_inherit_clause),
    ///   [`parse_environment`](Parser::parse_environment) and
    ///   [`flatten_environment`](Parser::flatten_environment).
    /// * [`ParserError::InvalidAssignmentOp`]: an operator other than the assignment.
    /// * [`ParserError::MissingAssignmentOp`]: a token other than an operator.
    /// * [`ParserError::ParserLogicError`]: the tokens ran out.
    #[verifier::loop_isolation(false)]
    fn construct_let_statement(
        &mut self,
        parent_env: &Option<Rc<AstNode>>,
        id: &String,
        context: ParseContext,
    ) -> (r: Result<AstNode, ParserError>)
        requires
            old(self).well_formed(),
            let_loop(
                old(self).tokens_view(),
                old(self).position(),
                old(self).line_number(),
                link_view(*parent_env),
                id@,
                context,
                None,
            ) is Some,
        ensures
            final(self).well_formed(),
            final(self).tokens == old(self).tokens,
            let_loop(
                old(self).tokens_view(),
                old(self).position(),
                old(self).line_number(),
                link_view(*parent_env),
                id@,
                context,
                None,
            ) == Some((outcome(r), final(self).position(), final(self).line_number())),
        decreases old(self).tokens@.len() - old(self).current, 0int,
    {
        let ghost toks = self.tokens_view();
        let ghost pe = link_view(*parent_env);
        let ghost whole = let_loop(toks, self.position(), self.line_number(), pe, id@, context, None);
        let mut inherit: Option<Rc<AstNode>> = None;
        loop
            invariant
                self.well_formed(),
                self.tokens == old(self).tokens,
                self.tokens_view() == toks,
                self.current >= old(self).current,
                whole == let_loop(
                    toks,
                    self.position(),
                    self.line_number(),
                    pe,
                    id@,
                    context,
                    link_view(inherit),
                ),
            decreases toks.len() - self.position(),
        {
            match self.advance() {
                None => {
                    return Err(ParserError::ParserLogicError(self.current, self.line));
                },
                Some((pos, token)) => {
                    match &token {
                        Token::Whitespace(ws) => {
                            self.parse_whitespace(ws);
                        },
                        Token::Keyword(Keywords::INHERIT) => {
                            match self.parse_inherit_clause() {
                                Ok(inheritance) => {
                                    inherit = Some(Rc::new(inheritance));
                                },
                                Err(e) => {
                                    return Err(e);
                                },
                            }
                        },
                        Token::Operator(op) => {
                            if *op == Operators::Other(OtherOperators::ASSIGNMENT) {
                                let expr = match self.parse_environment(
                                    copy_link(parent_env),
                                    Some(id.clone()),
                                    context,
                                ) {
                                    Ok(n) => n,
                                    Err(e) => {
                                        return Err(e);
                                    },
                                };
                                let let_env: Rc<AstNode> = if expr.is_single_element_env() {
                                    match self.flatten_environment(&expr, pos, &token) {
                                        Ok(n) => n,
                                        Err(e) => {
                                            return Err(e);
                                        },
                                    }
                                } else {
                                    Rc::new(expr)
                                };
                                return Ok(
                                    AstNode::Let { name: id.clone(), value: Some(let_env), inherit },
                                );
                            } else {
                                return Err(
                                    ParserError::InvalidAssignmentOp(
                                        pos,
                                        self.line,
                                        token.to_string(),
                                    ),
                                );
                            }
                        },
                        _ => {
                            return Err(ParserError::MissingAssignmentOp(pos, self.line));
                        },
                    }
                },
            }
        }
    }

    /// Returns the assignment of a function declaration that follows `let fun`: its name,
    /// its argument clause (directly after the name), an optional inheritance clause, the
    /// assignment operator, and the body, whose last binding is the return environment.
    ///
    /// # Errors
    /// * Any errors bubbled up from [`parse_function_clause`](Parser::parse_function_clause),
    ///   [`parse_inherit_clause`](Parser::parse_inherit_clause) and
    ///   [`parse_environment`](Parser::parse_environment).
    /// * [`ParserError::MissingFunctionName`]: `fun` is not followed by an identifier.
    /// * [`ParserError::MissingFunctionArgs`]: the name is not followed at once by an opening
    ///   bracket.
    /// * [`ParserError::InvalidTokenInFnSignature`]: the arguments are followed by neither an
    ///   inheritance clause nor the assignment operator.
    /// * [`ParserError::MissingAssignmentOp`]: no assignment operator where one is due.
    /// * [`ParserError::MissingReturnStatement`]: the body has no return environment.
    /// * [`ParserError::MissingFunctionBody`]: the tokens ran out before the body.
    fn parse_function_declaration(&mut self, parent_env: &Option<Rc<AstNode>>) -> (r: Result<
        AstNode,
        ParserError,
    >)
        requires
            old(self).well_formed(),
            function_declaration(
                old(self).tokens_view(),
                old(self).position(),
                old(self).line_number(),
                link_view(*parent_env),
            ) is Some,
        ensures
            final(self).well_formed(),
            final(self).tokens == old(self).tokens,
            function_declaration(
                old(self).tokens_view(),
                old(self).position(),
                old(self).line_number(),
                link_view(*parent_env),
            ) == Some((outcome(r), final(self).position(), final(self).line_number())),
        decreases old(self).tokens@.len() - old(self).current, 1int,
    {
        let fn_name = match self.read_fn_name() {
            Ok(n) => n,
            Err(e) => {
                return Err(e);
            },
        };
        let fn_args = match self.read_fn_args() {
            Ok(a) => a,
            Err(e) => {
                return Err(e);
            },
        };
        let inheritance = match self.read_fn_inheritance() {
            Ok(i) => i,
            Err(e) => {
                return Err(e);
            },
        };
        let parts = match self.read_fn_body(parent_env, &fn_name) {
            Ok(p) => p,
            Err(e) => {
                return Err(e);
            },
        };

        // Every part is required
        let fn_name = match fn_name {
            Some(n) => n,
            None => {
                return Err(
                    ParserError::MissingFunctionName(self.current, self.line, String::new()),
                );
            },
        };
        let fn_args = match fn_args {
            Some(a) => a,
            None => {
                return Err(ParserError::MissingFunctionArgs(self.current, self.line));
            },
        };
        let (fn_body, fn_return) = match parts {
            Some(p) => p,
            None => {
                return Err(ParserError::MissingFunctionBody(self.current, self.line));
            },
        };
        let fn_return = match fn_return {
            Some(ret) => ret,
            None => {
                return Err(
                    ParserError::MissingReturnStatement(self.current, self.line, String::new()),
                );
            },
        };
        let function = AstNode::Function {
            params: Rc::new(fn_args),
            body: Rc::new(fn_body),
            return_env: Rc::new(fn_return),
        };
        assert(function@ == AstNodeView::Function {
            params: Box::new(fn_args@),
            body: Box::new(fn_body@),
            return_env: Box::new(fn_return@),
        });
        Ok(AstNode::Let { name: fn_name, value: Some(Rc::new(function)), inherit: inheritance })
    }

    /// Reads the name of a declared function, after any whitespace; `None` if the tokens ran
    /// out.
    #[verifier::loop_isolation(false)]
    fn read_fn_name(&mut self) -> (r: Result<Option<String>, ParserError>)
        requires
            old(self).well_formed(),
        ensures
            final(self).well_formed(),
            final(self).tokens == old(self).tokens,
            fd_name(old(self).tokens_view(), old(self).position(), old(self).line_number()) == (
                match r {
                    Ok(n) => Ok(opt_text(n)),
                    Err(e) => Err(e@),
                },
                final(self).position(),
                final(self).line_number(),
            ),
    {
        let ghost toks = self.tokens_view();
        let ghost whole = fd_name(toks, self.position(), self.line_number());
        loop
            invariant
                self.well_formed(),
                self.tokens == old(self).tokens,
                self.tokens_view() == toks,
                whole == fd_name(toks, self.position(), self.line_number()),
            decreases toks.len() - self.position(),
        {
            match self.advance() {
                None => {
                    return Ok(None);
                },
                Some((pos, token)) => {
                    match &token {
                        Token::Whitespace(ws) => {
                            self.parse_whitespace(ws);
                        },
                        Token::Identifier(id) => {
                            return Ok(Some(id.clone()));
                        },
                        _ => {
                            return Err(
                                ParserError::MissingFunctionName(pos, self.line, token.to_string()),
                            );
                        },
                    }
                },
            }
        }
    }

    /// Reads the argument clause of a declared function, which must follow its name at once;
    /// `None` if the tokens ran out.
    fn read_fn_args(&mut self) -> (r: Result<Option<AstNode>, ParserError>)
        requires
            old(self).well_formed(),
        ensures
            final(self).well_formed(),
            final(self).tokens == old(self).tokens,
            fd_args(old(self).tokens_view(), old(self).position(), old(self).line_number()) == (
                match r {
                    Ok(Some(a)) => Ok(Some(a@)),
                    Ok(None) => Ok(None),
                    Err(e) => Err(e@),
                },
                final(self).position(),
                final(self).line_number(),
            ),
    {
        match self.advance() {
            Some((pos, token)) => match &token {
                Token::LeftBracket => match self.parse_function_clause() {
                    Ok(a) => Ok(Some(a)),
                    Err(e) => Err(e),
                },
                _ => Err(ParserError::MissingFunctionArgs(pos, self.line)),
            },
            None => Ok(None),
        }
    }

    /// Reads the optional inheritance clause of a declared function; an assignment operator
    /// ends this step and is left to be read again.
    #[verifier::loop_isolation(false)]
    fn read_fn_inheritance(&mut self) -> (r: Result<Option<Rc<AstNode>>, ParserError>)
        requires
            old(self).well_formed(),
        ensures
            final(self).well_formed(),
            final(self).tokens == old(self).tokens,
            final(self).current >= old(self).current,
            fd_inherit(old(self).tokens_view(), old(self).position(), old(self).line_number()) == (
                match r {
                    Ok(i) => Ok(link_view(i)),
                    Err(e) => Err(e@),
                },
                final(self).position(),
                final(self).line_number(),
            ),
    {
        let ghost toks = self.tokens_view();
        let ghost whole = fd_inherit(toks, self.position(), self.line_number());
        loop
            invariant
                self.well_formed(),
                self.tokens == old(self).tokens,
                self.tokens_view() == toks,
                self.current >= old(self).current,
                whole == fd_inherit(toks, self.position(), self.line_number()),
            decreases toks.len() - self.position(),
        {
            match self.advance() {
                None => {
                    return Ok(None);
                },
                Some((pos, token)) => {
                    match &token {
                        Token::Whitespace(ws) => {
                            self.parse_whitespace(ws);
                        },
                        Token::Keyword(Keywords::INHERIT) => {
                            return match self.parse_inherit_clause() {
                                Ok(i) => Ok(Some(Rc::new(i))),
                                Err(e) => Err(e),
                            };
                        },
                        Token::Operator(Operators::Other(OtherOperators::ASSIGNMENT)) => {
                            // Step back, so that the next step reads the operator
                            self.current -= 1;
                            return Ok(None);
                        },
                        _ => {
                            return Err(
                                ParserError::InvalidTokenInFnSignature(
                                    pos,
                                    self.line,
                                    token.to_string(),
                                ),
                            );
                        },
                    }
                },
            }
        }
    }

    /// Reads the assignment operator and the body of a declared function: the body
    /// environment without its last binding, and the return environment made of the last
    /// binding's bindings (`None` if that binding is no environment). `None` if the tokens
    /// ran out first.
    #[verifier::loop_isolation(false)]
    fn read_fn_body(&mut self, parent_env: &Option<Rc<AstNode>>, fn_name: &Option<String>) -> (r:
        Result<Option<(AstNode, Option<AstNode>)>, ParserError>)
        requires
            old(self).well_formed(),
            fd_body(
                old(self).tokens_view(),
                old(self).position(),
                old(self).line_number(),
                link_view(*parent_env),
                opt_text(*fn_name),
            ) is Some,
        ensures
            final(self).well_formed(),
            final(self).tokens == old(self).tokens,
            fd_body(
                old(self).tokens_view(),
                old(self).position(),
                old(self).line_number(),
                link_view(*parent_env),
                opt_text(*fn_name),
            ) == Some(
                (
                    match r {
                        Ok(Some((body, Some(ret)))) => Ok(Some((body@, Some(ret@)))),
                        Ok(Some((body, None))) => Ok(Some((body@, None))),
                        Ok(None) => Ok(None),
                        Err(e) => Err(e@),
                    },
                    final(self).position(),
                    final(self).line_number(),
                ),
            ),
        decreases old(self).tokens@.len() - old(self).current, 0int,
    {
        let ghost toks = self.tokens_view();
        let ghost pe = link_view(*parent_env);
        let ghost whole = fd_body(toks, self.position(), self.line_number(), pe, opt_text(*fn_name));
        loop
            invariant
                self.well_formed(),
                self.tokens == old(self).tokens,
                self.tokens_view() == toks,
                self.current >= old(self).current,
                whole == fd_body(toks, self.position(), self.line_number(), pe, opt_text(*fn_name)),
            decreases toks.len() - self.position(),
        {
            match self.advance() {
                None => {
                    return Ok(None);
                },
                Some((pos, token)) => {
                    match &token {
                        Token::Whitespace(ws) => {
                            self.parse_whitespace(ws);
                        },
                        Token::Operator(Operators::Other(OtherOperators::ASSIGNMENT)) => {
                            let body = match self.parse_environment(
                                copy_link(parent_env),
                                copy_name(fn_name),
                                ParseContext::Function,
                            ) {
                                Ok(n) => n,
                                Err(e) => {
                                    return Err(e);
                                },
                            };
                            if let AstNode::Environment { bindings, .. } = &body {
                                proof {
                                    lemma_nodes_view_len(bindings@);
                                }
                                if bindings.len() > 0 {
                                    let mut front = copy_nodes(bindings);
                                    let ghost all = front@;
                                    let last = front.pop().unwrap();
                                    proof {
                                        lemma_nodes_view_drop_last(all);
                                    }
                                    let fn_body = AstNode::Environment {
                                        name: copy_name(fn_name),
                                        bindings: front,
                                        parent: copy_link(parent_env),
                                    };
                                    let fn_return = match &*last {
                                        AstNode::Environment { bindings: return_bindings, .. } => {
                                            Some(
                                                AstNode::Environment {
                                                    name: None,
                                                    bindings: copy_nodes(return_bindings),
                                                    parent: copy_link(parent_env),
                                                },
                                            )
                                        },
                                        _ => None,
                                    };
                                    return Ok(Some((fn_body, fn_return)));
                                }
                            }
                            return Err(
                                ParserError::MissingReturnStatement(pos, self.line, String::new()),
                            );
                        },
                        _ => {
                            return Err(ParserError::MissingAssignmentOp(pos, self.line));
                        },
                    }
                },
            }
        }
    }
}

/// An environment node with the given name, bindings and parent.
fn environment_of(
    name: &Option<String>,
    bindings: &Vec<Rc<AstNode>>,
    parent: &Option<Rc<AstNode>>,
) -> (r: AstNode)
    ensures
        r@ == env_node(opt_text(*name), nodes_view(bindings@), link_view(*parent)),
{
    AstNode::Environment {
        name: copy_name(name),
        bindings: copy_nodes(bindings),
        parent: copy_link(parent),
    }
}

/// Reading a token inside an environment: the step it makes, then the rest.
proof fn lemma_env_loop_unfold(
    toks: Seq<TokenView>,
    c: int,
    l: int,
    parent: Option<AstNodeView>,
    name: Option<Seq<char>>,
    ctx: ParseContext,
    b: Seq<AstNodeView>,
)
    requires
        0 <= c < toks.len(),
    ensures
        env_loop(toks, c, l, parent, name, ctx, b) == match env_step(
            toks,
            c,
            l,
            parent,
            name,
            ctx,
            b,
        ) {
            EnvStep::Done(o) => o,
            EnvStep::Next(c2, l2, b2) => if c2 <= c || c2 > toks.len() {
                None
            } else {
                env_loop(toks, c2, l2, parent, name, ctx, b2)
            },
        },
{
}

/// Whether the text holds a full stop.
fn contains_full_stop(s: &str) -> (r: bool)
    ensures
        r == has_dot(s@),
{
    let n = s.unicode_len();
    let mut i: usize = 0;
    while i < n
        invariant
            n == s@.len(),
            i <= n,
            forall|k: int| 0 <= k < i ==> s@[k] != '.',
        decreases n - i,
    {
        if s.get_char(i) == '.' {
            return true;
        }
        i += 1;
    }
    false
}

} // verus!
