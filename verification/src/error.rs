use crate::expr::{Expr, ExprView};
use vstd::prelude::*;

verus! {

/// Why a template could not be parsed: a message.
#[derive(Debug, PartialEq, Eq)]
pub enum ParseError {
    Message(String),
}

impl View for ParseError {
    type V = Seq<char>;

    /// The message.
    open spec fn view(&self) -> Seq<char> {
        match self {
            ParseError::Message(s) => s@,
        }
    }
}

impl ParseError {
    /// The message.
    pub fn to_string(&self) -> (r: String)
        ensures
            r@ == self@,
    {
        match self {
            ParseError::Message(s) => s.clone(),
        }
    }
}

/// The outcome of a parse as a mathematical value: the tree, or the message.
pub open spec fn outcome(r: Result<Expr, ParseError>) -> Result<ExprView, Seq<char>> {
    match r {
        Ok(e) => Ok(e@),
        Err(e) => Err(e@),
    }
}

} // verus!
