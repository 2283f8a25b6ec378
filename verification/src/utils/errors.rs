//! The diagnostics that the library hands to its caller.

use vstd::prelude::*;
use crate::gdscript::ast::ModuleID;
use crate::utils::slice::Slice;

verus! {

/// One diagnostic.
#[derive(Debug, Clone, PartialEq)]
pub enum GDError {
    /// The source is malformed.
    ParseError { module_id: Option<ModuleID>, src: Slice, message: String },
    /// The source is well formed and means something wrong.
    CheckError { module_id: ModuleID, src: Option<Slice>, message: String },
}

/// The contents of `GDError::ParseError`.
#[derive(Debug, Clone, PartialEq)]
pub struct ParseError {
    pub module_id: Option<ModuleID>,
    pub src: Slice,
    pub message: String,
}

/// The contents of `GDError::CheckError`.
#[derive(Debug, Clone, PartialEq)]
pub struct CheckError {
    pub module_id: ModuleID,
    pub src: Option<Slice>,
    pub message: String,
}

impl From<ParseError> for GDError {
    fn from(e: ParseError) -> (r: GDError) {
        GDError::ParseError { module_id: e.module_id, src: e.src, message: e.message }
    }
}

impl vstd::std_specs::convert::FromSpecImpl<ParseError> for GDError {
    open spec fn obeys_from_spec() -> bool {
        true
    }

    open spec fn from_spec(e: ParseError) -> GDError {
        GDError::ParseError { module_id: e.module_id, src: e.src, message: e.message }
    }
}

impl From<CheckError> for GDError {
    fn from(e: CheckError) -> (r: GDError) {
        GDError::CheckError { module_id: e.module_id, src: e.src, message: e.message }
    }
}

impl vstd::std_specs::convert::FromSpecImpl<CheckError> for GDError {
    open spec fn obeys_from_spec() -> bool {
        true
    }

    open spec fn from_spec(e: CheckError) -> GDError {
        GDError::CheckError { module_id: e.module_id, src: e.src, message: e.message }
    }
}

impl GDError {
    /// The contents, where `self` is a parse error.
    pub fn into_parse_error(self) -> (r: Option<ParseError>)
        ensures
            r == match self {
                GDError::ParseError { module_id, src, message } => Some(
                    (ParseError { module_id, src, message }),
                ),
                _ => None,
            },
    {
        match self {
            GDError::ParseError { module_id, src, message } => Some(
                ParseError { module_id, src, message },
            ),
            _ => None,
        }
    }

    /// The contents, where `self` is a check error.
    pub fn into_check_error(self) -> (r: Option<CheckError>)
        ensures
            r == match self {
                GDError::CheckError { module_id, src, message } => Some(
                    (CheckError { module_id, src, message }),
                ),
                _ => None,
            },
    {
        match self {
            GDError::CheckError { module_id, src, message } => Some(
                CheckError { module_id, src, message },
            ),
            _ => None,
        }
    }
}

} // verus!
