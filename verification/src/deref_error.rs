//! Why a document could not be resolved.

use vstd::prelude::*;
use vstd::string::StringExecFns;

verus! {

/// The references of a document could not all be resolved. Such a document is
/// refused before any request is served.
#[derive(Debug, Clone, PartialEq, Eq)]
pub enum DerefError {
    /// No component of this name exists in the table that the reference
    /// points into.
    ReferenceError { name: String },
    /// Resolving this name led back to the same name.
    CyclicReference { name: String },
}

pub enum DerefErrorView {
    ReferenceError { name: Seq<char> },
    CyclicReference { name: Seq<char> },
}

impl View for DerefError {
    type V = DerefErrorView;

    open spec fn view(&self) -> DerefErrorView {
        match *self {
            DerefError::ReferenceError { name } => DerefErrorView::ReferenceError { name: name@ },
            DerefError::CyclicReference { name } => DerefErrorView::CyclicReference {
                name: name@,
            },
        }
    }
}

/// The text of [`DerefError::message`].
pub open spec fn deref_error_text(error: DerefErrorView) -> Seq<char> {
    match error {
        DerefErrorView::ReferenceError { name } => "The reference "@ + name
            + " could not be dereferenced"@,
        DerefErrorView::CyclicReference { name } => "The reference "@ + name
            + " refers back to itself"@,
    }
}

impl DerefError {
    /// What every such error means.
    pub fn description(&self) -> (text: &'static str)
        ensures
            text@ == "It was not possible to resolve all references in the file."@,
    {
        "It was not possible to resolve all references in the file."
    }

    /// The error in words.
    pub fn message(&self) -> (text: String)
        ensures
            text@ == deref_error_text(self@),
    {
        match self {
            DerefError::ReferenceError { name } => {
                let mut text = String::from_str("The reference ");
                text.append(name.as_str());
                text.append(" could not be dereferenced");
                text
            },
            DerefError::CyclicReference { name } => {
                let mut text = String::from_str("The reference ");
                text.append(name.as_str());
                text.append(" refers back to itself");
                text
            },
        }
    }
}

} // verus!
