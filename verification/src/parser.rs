//! Source parsing with input validation.
//!
//! Every analysis entry point that needs guarded input calls
//! [`parse_source`]: the guards of [`crate::input_validation`] run before
//! any parsing.
use vstd::prelude::*;
use crate::bridge::{parse_file, spec_parse_file};
use crate::input_validation::{validate_source_all, validation_failure, validation_message, ValidationError};
use crate::syntax::{file_lines_positive, AstFile};
use crate::text::concat;

verus! {

/// A validated and successfully parsed source file.
#[derive(Debug)]
pub struct ParsedSource {
    pub file: AstFile,
}

/// Why [`parse_source`] failed.
#[derive(Debug)]
pub enum ParseError {
    /// A guard rejected the input (empty, too large, NUL character).
    Validation(ValidationError),
    /// The input passed the guards but is not a Rust file; holds `syn`'s message.
    Syntax(String),
}

impl ParseError {
    /// The error's human-readable message.
    pub fn message(&self) -> (r: String)
        ensures
            r@ == match self {
                ParseError::Validation(e) => "validation error: "@ + validation_message(*e),
                ParseError::Syntax(m) => "syntax error: "@ + m@,
            },
    {
        match self {
            ParseError::Validation(e) => concat("validation error: ", e.message().as_str()),
            ParseError::Syntax(m) => concat("syntax error: ", m.as_str()),
        }
    }
}

/// Validates and parses `source`: a validation error for the first guard
/// it fails, else a syntax error when `syn` rejects it, else the model of
/// the file, in which every recorded line is at least 1.
pub fn parse_source(source: &str) -> (r: Result<ParsedSource, ParseError>)
    ensures
        match validation_failure(source) {
            Some(e) => r matches Err(ParseError::Validation(x)) && x == e,
            None => match spec_parse_file(source@) {
                Some(f) => r matches Ok(p) && p.file == f,
                None => r matches Err(ParseError::Syntax(_)),
            },
        },
        r matches Ok(p) ==> file_lines_positive(p.file),
{
    match validate_source_all(source) {
        Err(e) => {
            return Err(ParseError::Validation(e));
        },
        Ok(()) => {},
    }
    match parse_file(source) {
        Ok(file) => Ok(ParsedSource { file }),
        Err(m) => Err(ParseError::Syntax(m)),
    }
}

} // verus!
