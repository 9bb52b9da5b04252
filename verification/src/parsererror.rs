//! Errors met when converting Envlang numerals into Rust numbers
use vstd::prelude::*;

use crate::numerals::{float_error_message, float_error_text, int_error_message, int_error_text};
use crate::symbols::owned_text;

verus! {

/// A numeral that could not be converted: the standard library's parse error is kept.
#[derive(Debug)]
pub enum ParserError {
    Int(core::num::ParseIntError),
    Float(core::num::ParseFloatError),
}

impl ParserError {
    /// The message that describes the error to a reader: `Parsing error: ` and the standard
    /// library's description of the conversion error.
    pub fn to_string(&self) -> (s: String)
        ensures
            s@ == "Parsing error: "@ + match self {
                ParserError::Int(e) => int_error_message(*e),
                ParserError::Float(e) => float_error_message(*e),
            },
    {
        let mut s = owned_text("Parsing error: ");
        match self {
            ParserError::Int(e) => s.append(int_error_text(e).as_str()),
            ParserError::Float(e) => s.append(float_error_text(e).as_str()),
        }
        s
    }
}

impl From<core::num::ParseIntError> for ParserError {
    fn from(e: core::num::ParseIntError) -> (r: ParserError) {
        ParserError::Int(e)
    }
}

impl vstd::std_specs::convert::FromSpecImpl<core::num::ParseIntError> for ParserError {
    open spec fn obeys_from_spec() -> bool {
        true
    }

    open spec fn from_spec(v: core::num::ParseIntError) -> ParserError {
        ParserError::Int(v)
    }
}

impl From<core::num::ParseFloatError> for ParserError {
    fn from(e: core::num::ParseFloatError) -> (r: ParserError) {
        ParserError::Float(e)
    }
}

impl vstd::std_specs::convert::FromSpecImpl<core::num::ParseFloatError> for ParserError {
    open spec fn obeys_from_spec() -> bool {
        true
    }

    open spec fn from_spec(v: core::num::ParseFloatError) -> ParserError {
        ParserError::Float(v)
    }
}

} // verus!
