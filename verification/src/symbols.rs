//! Envlang-reserved symbols
//!
//! All symbols and keywords used and/or recognised in Envlang are enumerated in this module's enums.
//! Each enum offers `to_string`, whose result is the symbol's source text, given by `text`.
use vstd::prelude::*;

verus! {

/// Builds an owned string from a literal and says that it holds the literal's characters.
pub(crate) fn owned_text(lit: &str) -> (s: String)
    ensures
        s@ == lit@,
{
    String::from_str(lit)
}

/// Types of operators
#[derive(Debug, Clone, Copy, PartialEq, Eq, Structural)]
pub enum Operators {
    Arithmetic(ArithmeticOperators),
    Comparison(ComparisonOperators),
    Logical(LogicalOperators),
    Other(OtherOperators),
}

impl Operators {
    /// The source text of the operator.
    pub open spec fn text(self) -> Seq<char> {
        match self {
            Operators::Arithmetic(op) => op.text(),
            Operators::Comparison(op) => op.text(),
            Operators::Logical(op) => op.text(),
            Operators::Other(op) => op.text(),
        }
    }

    pub fn to_string(&self) -> (s: String)
        ensures
            s@ == self.text(),
    {
        match self {
            Operators::Arithmetic(op) => op.to_string(),
            Operators::Comparison(op) => op.to_string(),
            Operators::Logical(op) => op.to_string(),
            Operators::Other(op) => op.to_string(),
        }
    }
}

/// Types of arithmetic operators
#[derive(Debug, Clone, Copy, PartialEq, Eq, Structural)]
pub enum ArithmeticOperators {
    /// The `+` operator (U+002B)
    ADD,
    /// The `-` operator (U+002D)
    SUBTRACT,
    /// The `/` operator (U+002F)
    DIVIDE,
    /// The `*` operator (U+002A)
    MULTIPLY,
    /// The `%` operator (U+0025)
    MODULUS,
    /// The `^` operator (U+005E)
    EXPONENTIATION,
}

impl ArithmeticOperators {
    pub open spec fn text(self) -> Seq<char> {
        match self {
            ArithmeticOperators::ADD => seq!['+'],
            ArithmeticOperators::SUBTRACT => seq!['-'],
            ArithmeticOperators::DIVIDE => seq!['/'],
            ArithmeticOperators::MULTIPLY => seq!['*'],
            ArithmeticOperators::MODULUS => seq!['%'],
            ArithmeticOperators::EXPONENTIATION => seq!['^'],
        }
    }

    pub fn to_string(&self) -> (s: String)
        ensures
            s@ == self.text(),
    {
        let s = match self {
            ArithmeticOperators::ADD => owned_text("+"),
            ArithmeticOperators::SUBTRACT => owned_text("-"),
            ArithmeticOperators::DIVIDE => owned_text("/"),
            ArithmeticOperators::MULTIPLY => owned_text("*"),
            ArithmeticOperators::MODULUS => owned_text("%"),
            ArithmeticOperators::EXPONENTIATION => owned_text("^"),
        };
        proof {
            reveal_strlit("+");
            reveal_strlit("-");
            reveal_strlit("/");
            reveal_strlit("*");
            reveal_strlit("%");
            reveal_strlit("^");
        }
        s
    }
}

/// Types of comparison operators
#[derive(Debug, Clone, Copy, PartialEq, Eq, Structural)]
pub enum ComparisonOperators {
    /// The less-than operator `<`
    LT,
    /// The less-than-or-equal operator `<=`
    LEQ,
    /// The greater-than operator `>`
    GT,
    /// The greater-than-or-equal operator `>=`
    GEQ,
    /// The equal operator `==`
    EQ,
    /// The not-equal operator `!=`
    NEQ,
}

impl ComparisonOperators {
    pub open spec fn text(self) -> Seq<char> {
        match self {
            ComparisonOperators::LT => seq!['<'],
            ComparisonOperators::LEQ => seq!['<', '='],
            ComparisonOperators::GT => seq!['>'],
            ComparisonOperators::GEQ => seq!['>', '='],
            ComparisonOperators::EQ => seq!['=', '='],
            ComparisonOperators::NEQ => seq!['!', '='],
        }
    }

    pub fn to_string(&self) -> (s: String)
        ensures
            s@ == self.text(),
    {
        let s = match self {
            ComparisonOperators::LT => owned_text("<"),
            ComparisonOperators::LEQ => owned_text("<="),
            ComparisonOperators::GT => owned_text(">"),
            ComparisonOperators::GEQ => owned_text(">="),
            ComparisonOperators::EQ => owned_text("=="),
            ComparisonOperators::NEQ => owned_text("!="),
        };
        proof {
            reveal_strlit("<");
            reveal_strlit("<=");
            reveal_strlit(">");
            reveal_strlit(">=");
            reveal_strlit("==");
            reveal_strlit("!=");
        }
        s
    }
}

/// Types of logical operators
#[derive(Debug, Clone, Copy, PartialEq, Eq, Structural)]
pub enum LogicalOperators {
    /// The binary AND operator `&` (U+0026)
    AND,
    /// The binary OR operator `|` (U+007C)
    OR,
    /// The unary NOT operator `!` (U+0021)
    NOT,
}

impl LogicalOperators {
    pub open spec fn text(self) -> Seq<char> {
        match self {
            LogicalOperators::AND => seq!['&'],
            LogicalOperators::OR => seq!['|'],
            LogicalOperators::NOT => seq!['!'],
        }
    }

    pub fn to_string(&self) -> (s: String)
        ensures
            s@ == self.text(),
    {
        let s = match self {
            LogicalOperators::AND => owned_text("&"),
            LogicalOperators::OR => owned_text("|"),
            LogicalOperators::NOT => owned_text("!"),
        };
        proof {
            reveal_strlit("&");
            reveal_strlit("|");
            reveal_strlit("!");
        }
        s
    }
}

/// Types of other operators
#[derive(Debug, Clone, Copy, PartialEq, Eq, Structural)]
pub enum OtherOperators {
    /// The `.` operator (U+002E)
    ACCESSOR,
    /// The `=` operator (U+003D)
    ASSIGNMENT,
}

impl OtherOperators {
    pub open spec fn text(self) -> Seq<char> {
        match self {
            OtherOperators::ACCESSOR => seq!['.'],
            OtherOperators::ASSIGNMENT => seq!['='],
        }
    }

    pub fn to_string(&self) -> (s: String)
        ensures
            s@ == self.text(),
    {
        let s = match self {
            OtherOperators::ACCESSOR => owned_text("."),
            OtherOperators::ASSIGNMENT => owned_text("="),
        };
        proof {
            reveal_strlit(".");
            reveal_strlit("=");
        }
        s
    }
}

/// Reserved keywords
#[derive(Debug, Clone, Copy, PartialEq, Eq, Structural)]
pub enum Keywords {
    /// The "let" keyword
    LET,
    /// The "inherit" keyword
    INHERIT,
    /// The "fun" keyword
    FUN,
    /// The "return" keyword
    RETURN,
}

impl Keywords {
    pub open spec fn text(self) -> Seq<char> {
        match self {
            Keywords::LET => seq!['l', 'e', 't'],
            Keywords::INHERIT => seq!['i', 'n', 'h', 'e', 'r', 'i', 't'],
            Keywords::FUN => seq!['f', 'u', 'n'],
            Keywords::RETURN => seq!['r', 'e', 't', 'u', 'r', 'n'],
        }
    }

    pub fn to_string(&self) -> (s: String)
        ensures
            s@ == self.text(),
    {
        let s = match self {
            Keywords::LET => owned_text("let"),
            Keywords::INHERIT => owned_text("inherit"),
            Keywords::FUN => owned_text("fun"),
            Keywords::RETURN => owned_text("return"),
        };
        proof {
            reveal_strlit("let");
            reveal_strlit("inherit");
            reveal_strlit("fun");
            reveal_strlit("return");
        }
        s
    }
}

/// Booleans
#[derive(Debug, Clone, Copy, PartialEq, Eq, Structural)]
pub enum Booleans {
    /// The boolean value `true`
    TRUE,
    /// The boolean value `false`
    FALSE,
}

impl Booleans {
    pub open spec fn text(self) -> Seq<char> {
        match self {
            Booleans::TRUE => seq!['t', 'r', 'u', 'e'],
            Booleans::FALSE => seq!['f', 'a', 'l', 's', 'e'],
        }
    }

    pub fn to_string(&self) -> (s: String)
        ensures
            s@ == self.text(),
    {
        let s = match self {
            Booleans::TRUE => owned_text("true"),
            Booleans::FALSE => owned_text("false"),
        };
        proof {
            reveal_strlit("true");
            reveal_strlit("false");
        }
        s
    }
}

} // verus!
