//! What the program tells the operator when a command line is refused.
use vstd::prelude::*;
use crate::parser::{ErrorView, ParseError};

verus! {

/// The line that names the error.
pub open spec fn spec_message(error: ErrorView) -> Seq<char> {
    match error {
        ErrorView::InvalidFlag(text) => "error: invalid flag \""@ + text + "\""@,
        ErrorView::UnrecognizedArgument(text) => "error: unrecognized argument \""@ + text + "\""@,
        ErrorView::ExcessArguments => "error: more than one argument provided"@,
        ErrorView::MissingArgument => "error: must provide rfc id"@,
        ErrorView::NoArgumentGiven => "error: no argument given"@,
    }
}

/// The line behind it, which points the operator to the help.
pub open spec fn spec_hint(error: ErrorView) -> Seq<char> {
    match error {
        ErrorView::InvalidFlag(_) => "       use argument \"help\" to display flags"@,
        ErrorView::NoArgumentGiven => "       use \"help\" to list available arguments"@,
        _ => "       use argument \"help\" to list available arguments"@,
    }
}

impl ParseError {
    /// The line that names the error, without an end of line.
    pub fn message(&self) -> (r: String)
        ensures
            r@ == spec_message(self@),
    {
        match self {
            ParseError::InvalidFlag(text) => {
                let mut out = String::from_str("error: invalid flag \"");
                out.append(text.as_str());
                out.append("\"");
                out
            },
            ParseError::UnrecognizedArgument(text) => {
                let mut out = String::from_str("error: unrecognized argument \"");
                out.append(text.as_str());
                out.append("\"");
                out
            },
            ParseError::ExcessArguments => String::from_str(
                "error: more than one argument provided",
            ),
            ParseError::MissingArgument => String::from_str("error: must provide rfc id"),
            ParseError::NoArgumentGiven => String::from_str("error: no argument given"),
        }
    }

    /// The line that points the operator to the help, without an end of line.
    pub fn hint(&self) -> (r: String)
        ensures
            r@ == spec_hint(self@),
    {
        match self {
            ParseError::InvalidFlag(_) => String::from_str(
                "       use argument \"help\" to display flags",
            ),
            ParseError::NoArgumentGiven => String::from_str(
                "       use \"help\" to list available arguments",
            ),
            _ => String::from_str("       use argument \"help\" to list available arguments"),
        }
    }
}

} // verus!
