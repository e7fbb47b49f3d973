//! Why a request is refused.

use vstd::prelude::*;
use vstd::string::StringExecFns;
use crate::request::{Attribute, AttributeView};

verus! {

/// The reason why a request does not agree with the description.
#[derive(Debug, Clone, PartialEq, Eq)]
pub enum E {
    /// No route matches the path.
    PathError(String),
    /// The route has no operation for the method.
    MethodError(String),
    /// The operation declares no parameter of this name.
    ParamError(String),
    /// The value is not of the declared type.
    TypeError { expected_type: String, param_name: String, param_value: String },
    /// The declared type is one that is not checked.
    TypeNotsupported(String),
    /// The description uses something that is not checked.
    FunctionalityNotsupported(String),
    /// The value lies beyond a declared bound.
    ValueLimit { param_name: String, limit_name: String, limit_value: String, param_value: String },
}

pub enum EView {
    PathError(Seq<char>),
    MethodError(Seq<char>),
    ParamError(Seq<char>),
    TypeError { expected_type: Seq<char>, param_name: Seq<char>, param_value: Seq<char> },
    TypeNotsupported(Seq<char>),
    FunctionalityNotsupported(Seq<char>),
    ValueLimit {
        param_name: Seq<char>,
        limit_name: Seq<char>,
        limit_value: Seq<char>,
        param_value: Seq<char>,
    },
}

impl View for E {
    type V = EView;

    open spec fn view(&self) -> EView {
        match *self {
            E::PathError(path) => EView::PathError(path@),
            E::MethodError(method) => EView::MethodError(method@),
            E::ParamError(name) => EView::ParamError(name@),
            E::TypeError { expected_type, param_name, param_value } => EView::TypeError {
                expected_type: expected_type@,
                param_name: param_name@,
                param_value: param_value@,
            },
            E::TypeNotsupported(name) => EView::TypeNotsupported(name@),
            E::FunctionalityNotsupported(text) => EView::FunctionalityNotsupported(text@),
            E::ValueLimit { param_name, limit_name, limit_value, param_value } => EView::ValueLimit {
                param_name: param_name@,
                limit_name: limit_name@,
                limit_value: limit_value@,
                param_value: param_value@,
            },
        }
    }
}

/// The kinds of refusal that a caller is told of.
#[derive(Debug, Clone, Copy, PartialEq, Eq, Structural)]
pub enum Category {
    PathNotDescribed,
    MethodNotDescribed,
    ParameterNotDescribed,
    ContractViolated,
}

/// The kind of refusal that an error falls under.
pub open spec fn category_of(error: EView) -> Category {
    match error {
        EView::PathError(_) => Category::PathNotDescribed,
        EView::MethodError(_) => Category::MethodNotDescribed,
        EView::ParamError(_) => Category::ParameterNotDescribed,
        _ => Category::ContractViolated,
    }
}

/// The text of [`E::message`].
pub open spec fn error_text(error: EView) -> Seq<char> {
    match error {
        EView::PathError(path) => "The path `"@ + path + "` is not described in the OpenAPI file."@,
        EView::MethodError(method) => "The method `"@ + method
            + "` is not described in the OpenAPI file."@,
        EView::ParamError(name) => "The parameter `"@ + name
            + "` is not described in the OpenAPI file."@,
        EView::TypeError { expected_type, param_name, param_value } => "The contract specifies `"@
            + param_name + "` as "@ + expected_type + " but got `"@ + param_value + "`."@,
        EView::TypeNotsupported(name) => "Type "@ + name + " not supported by the proxy. Fix me! "@,
        EView::FunctionalityNotsupported(text) => text + ". Fix me! "@,
        EView::ValueLimit { param_name, limit_name, limit_value, param_value } =>
            "The contract specifies `"@ + param_name + "` to have a "@ + limit_name + " of "@
                + limit_value + " but got "@ + param_value + "."@,
    }
}

impl Category {
    /// The category in words.
    pub fn text(&self) -> (text: &'static str)
        ensures
            text@ == match *self {
                Category::PathNotDescribed => "path not described"@,
                Category::MethodNotDescribed => "method not described"@,
                Category::ParameterNotDescribed => "parameter not described"@,
                Category::ContractViolated => "contract violated"@,
            },
    {
        match self {
            Category::PathNotDescribed => "path not described",
            Category::MethodNotDescribed => "method not described",
            Category::ParameterNotDescribed => "parameter not described",
            Category::ContractViolated => "contract violated",
        }
    }
}

impl E {
    /// The kind of refusal that the error falls under.
    pub fn category(&self) -> (category: Category)
        ensures
            category == category_of(self@),
    {
        match self {
            E::PathError(_) => Category::PathNotDescribed,
            E::MethodError(_) => Category::MethodNotDescribed,
            E::ParamError(_) => Category::ParameterNotDescribed,
            _ => Category::ContractViolated,
        }
    }

    /// The error in words.
    pub fn message(&self) -> (text: String)
        ensures
            text@ == error_text(self@),
    {
        match self {
            E::PathError(path) => {
                let mut text = String::from_str("The path `");
                text.append(path.as_str());
                text.append("` is not described in the OpenAPI file.");
                text
            },
            E::MethodError(method) => {
                let mut text = String::from_str("The method `");
                text.append(method.as_str());
                text.append("` is not described in the OpenAPI file.");
                text
            },
            E::ParamError(name) => {
                let mut text = String::from_str("The parameter `");
                text.append(name.as_str());
                text.append("` is not described in the OpenAPI file.");
                text
            },
            E::TypeError { expected_type, param_name, param_value } => {
                let mut text = String::from_str("The contract specifies `");
                text.append(param_name.as_str());
                text.append("` as ");
                text.append(expected_type.as_str());
                text.append(" but got `");
                text.append(param_value.as_str());
                text.append("`.");
                text
            },
            E::TypeNotsupported(name) => {
                let mut text = String::from_str("Type ");
                text.append(name.as_str());
                text.append(" not supported by the proxy. Fix me! ");
                text
            },
            E::FunctionalityNotsupported(what) => {
                let mut text = what.clone();
                text.append(". Fix me! ");
                text
            },
            E::ValueLimit { param_name, limit_name, limit_value, param_value } => {
                let mut text = String::from_str("The contract specifies `");
                text.append(param_name.as_str());
                text.append("` to have a ");
                text.append(limit_name.as_str());
                text.append(" of ");
                text.append(limit_value.as_str());
                text.append(" but got ");
                text.append(param_value.as_str());
                text.append(".");
                text
            },
        }
    }
}

/// The error for something in the description that is not checked.
pub fn unsupported(text: &str) -> (error: E)
    ensures
        error@ == EView::FunctionalityNotsupported(text@),
{
    E::FunctionalityNotsupported(String::from_str(text))
}

/// The error for a value that is not of the declared type.
pub fn type_error(expected_type: &str, param: &Attribute) -> (error: E)
    ensures
        error@ == type_failure(expected_type@, param@),
{
    E::TypeError {
        expected_type: String::from_str(expected_type),
        param_name: param.name.clone(),
        param_value: param.value.clone(),
    }
}

/// The error for a value below the least that is allowed.
pub fn minimum_error(limit_value: &str, param: &Attribute) -> (error: E)
    ensures
        error@ == limit_failure("minimum"@, limit_value@, param@),
{
    E::ValueLimit {
        limit_name: String::from_str("minimum"),
        limit_value: String::from_str(limit_value),
        param_name: param.name.clone(),
        param_value: param.value.clone(),
    }
}

/// The error for a value above the most that is allowed.
pub fn maximum_error(limit_value: &str, param: &Attribute) -> (error: E)
    ensures
        error@ == limit_failure("maximum"@, limit_value@, param@),
{
    E::ValueLimit {
        limit_name: String::from_str("maximum"),
        limit_value: String::from_str(limit_value),
        param_name: param.name.clone(),
        param_value: param.value.clone(),
    }
}

/// A value that is not of the type named.
pub open spec fn type_failure(expected_type: Seq<char>, param: AttributeView) -> EView {
    EView::TypeError { expected_type, param_name: param.name, param_value: param.value }
}

/// A value beyond the bound named.
pub open spec fn limit_failure(
    limit_name: Seq<char>,
    limit_value: Seq<char>,
    param: AttributeView,
) -> EView {
    EView::ValueLimit {
        param_name: param.name,
        limit_name,
        limit_value,
        param_value: param.value,
    }
}

} // verus!
