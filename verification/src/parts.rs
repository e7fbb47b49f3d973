//! The part of the description that a request is held against.

use vstd::prelude::*;
use crate::document::{Operation, PathItem};
use crate::error::{EView, E};
use crate::spec_utils::{declared, method_text, path_to_operation, Method};

verus! {

/// The operation that a request is held against.
#[derive(Debug)]
pub struct OpenAPIParts<'a> {
    pub operation: &'a Operation,
}

impl<'a> OpenAPIParts<'a> {
    /// The operation that a route declares for the method of a request; where
    /// it declares none, the error names the method.
    pub fn new(path: &'a PathItem, method: &Method) -> (parts: Result<OpenAPIParts<'a>, E>)
        ensures
            match parts {
                Ok(parts) => declared(*path, *method) == Some(*parts.operation),
                Err(error) => declared(*path, *method) is None && error@ == EView::MethodError(
                    method_text(*method),
                ),
            },
    {
        match path_to_operation(path, method) {
            Ok(operation) => Ok(OpenAPIParts { operation }),
            Err(error) => Err(error),
        }
    }
}

} // verus!
