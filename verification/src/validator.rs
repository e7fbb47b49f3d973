//! The check of a request's attributes against the parameters that an
//! operation declares.

use vstd::prelude::*;
use vstd::string::StringExecFns;
use crate::check_type::{check_type, outcome, type_outcome};
use crate::document::{
    views, FormatView, Operation, ParameterData, ParameterSchemaOrContent, ParameterView,
};
use crate::error::{category_of, error_text, unsupported, Category, EView, E};
use crate::outside::{rfc3339_parses, uuid_parses};
use crate::parts::OpenAPIParts;
use crate::reference::{RefOr, RefOrView};
use crate::request::{Attribute, AttributeView, RequestParts};
use crate::schema::SchemaKind;
use crate::text::str_equal;

verus! {

/// The place of the first parameter of the name among the parameters; a
/// parameter that is still a reference has no name.
pub open spec fn find_parameter(
    parameters: Seq<RefOrView<ParameterView>>,
    name: Seq<char>,
) -> Option<int>
    decreases parameters.len(),
{
    if parameters.len() == 0 {
        None
    } else if parameters.first() is Item && parameters.first()->Item_0.name == name {
        Some(0)
    } else {
        match find_parameter(parameters.drop_first(), name) {
            Some(place) => Some(place + 1),
            None => None,
        }
    }
}

/// What [`find_parameter`] finds is a parameter of the name, and none
/// before it is one.
pub proof fn lemma_find_parameter(parameters: Seq<RefOrView<ParameterView>>, name: Seq<char>)
    ensures
        match find_parameter(parameters, name) {
            Some(place) => 0 <= place < parameters.len() && parameters[place] is Item
                && parameters[place]->Item_0.name == name && forall|j: int|
                0 <= j < place ==> !(parameters[j] is Item && parameters[j]->Item_0.name == name),
            None => forall|j: int|
                0 <= j < parameters.len() ==> !(parameters[j] is Item && parameters[j]->Item_0.name
                    == name),
        },
    decreases parameters.len(),
{
    if parameters.len() > 0 {
        let rest = parameters.drop_first();
        lemma_find_parameter(rest, name);
        assert(forall|j: int| 1 <= j < parameters.len() ==> parameters[j] == rest[j - 1]);
    }
}

/// The outcome of checking a value against what describes a parameter. Only
/// a schema with a type is checked; everything else fails as unsupported.
pub open spec fn format_outcome(
    format: FormatView,
    attribute: AttributeView,
    is_uuid: bool,
    is_timestamp: bool,
) -> Result<(), EView> {
    match format {
        FormatView::Content => Err(
            EView::FunctionalityNotsupported("Parameters described by content are not supported"@),
        ),
        FormatView::Schema(RefOrView::Reference(_)) => Err(
            EView::FunctionalityNotsupported("References inside schemas are not supported"@),
        ),
        FormatView::Schema(RefOrView::Item(schema)) => type_outcome(
            schema.head,
            attribute,
            is_uuid,
            is_timestamp,
        ),
    }
}

/// The outcome for one attribute: its parameter must be declared, and its
/// value must pass the check against what describes the parameter.
pub open spec fn attribute_outcome(
    parameters: Seq<RefOrView<ParameterView>>,
    attribute: AttributeView,
) -> Result<(), EView> {
    match find_parameter(parameters, attribute.name) {
        None => Err(EView::ParamError(attribute.name)),
        Some(place) => format_outcome(
            parameters[place]->Item_0.format,
            attribute,
            uuid_parses(attribute.value),
            rfc3339_parses(attribute.value),
        ),
    }
}

/// The outcome for a group of attributes: the first failure in order, or
/// success where there is none.
pub open spec fn group_outcome(
    parameters: Seq<RefOrView<ParameterView>>,
    attributes: Seq<AttributeView>,
) -> Result<(), EView>
    decreases attributes.len(),
{
    if attributes.len() == 0 {
        Ok(())
    } else {
        match attribute_outcome(parameters, attributes.first()) {
            Err(error) => Err(error),
            Ok(_) => group_outcome(parameters, attributes.drop_first()),
        }
    }
}

/// The places of the parameters that a group of attributes uses: those that
/// were found, up to the first failure and with it.
pub open spec fn group_used(
    parameters: Seq<RefOrView<ParameterView>>,
    attributes: Seq<AttributeView>,
) -> Seq<usize>
    decreases attributes.len(),
{
    if attributes.len() == 0 {
        Seq::empty()
    } else {
        let here = match find_parameter(parameters, attributes.first().name) {
            Some(place) => Seq::empty().push(place as usize),
            None => Seq::empty(),
        };
        if attribute_outcome(parameters, attributes.first()) is Err {
            here
        } else {
            here + group_used(parameters, attributes.drop_first())
        }
    }
}

/// Why a request failed: the first failure among the attributes of its path,
/// and the first among those of its query. At least one is there.
#[derive(Debug, Clone, PartialEq, Eq)]
pub struct Failure {
    pub path: Option<E>,
    pub query: Option<E>,
}

pub struct FailureView {
    pub path: Option<EView>,
    pub query: Option<EView>,
}

impl View for Failure {
    type V = FailureView;

    open spec fn view(&self) -> FailureView {
        FailureView {
            path: match self.path {
                Some(error) => Some(error@),
                None => None,
            },
            query: match self.query {
                Some(error) => Some(error@),
                None => None,
            },
        }
    }
}

/// The result of a validation, from the outcomes of the two groups: it
/// passes where both pass, and else keeps the failure of each.
pub open spec fn verdict(path: Result<(), EView>, query: Result<(), EView>) -> Result<
    (),
    FailureView,
> {
    if path is Ok && query is Ok {
        Ok(())
    } else {
        Err(
            FailureView {
                path: match path {
                    Err(error) => Some(error),
                    Ok(_) => None,
                },
                query: match query {
                    Err(error) => Some(error),
                    Ok(_) => None,
                },
            },
        )
    }
}

/// The model of the result of a validation.
pub open spec fn verdict_view(result: Result<(), Failure>) -> Result<(), FailureView> {
    match result {
        Ok(_) => Ok(()),
        Err(failure) => Err(failure@),
    }
}

/// The causes of a failure in words, from the outermost in: that the
/// validation failed, then for each group that failed, which group it was
/// and what failed in it.
pub open spec fn causes_of(failure: FailureView) -> Seq<Seq<char>> {
    Seq::empty().push("Failed validation of request variables."@) + match failure.path {
        Some(error) => Seq::empty().push("Failure in a path variable."@).push(error_text(error)),
        None => Seq::empty(),
    } + match failure.query {
        Some(error) => Seq::empty().push("Failure in a query parameter."@).push(
            error_text(error),
        ),
        None => Seq::empty(),
    }
}

/// The kind of a failure: that of the first failure that it holds.
pub open spec fn failure_category(failure: FailureView) -> Category {
    match failure.path {
        Some(error) => category_of(error),
        None => match failure.query {
            Some(error) => category_of(error),
            None => Category::ContractViolated,
        },
    }
}

impl Failure {
    /// The causes of the failure in words: see [`causes_of`].
    pub fn causes(&self) -> (causes: Vec<String>)
        ensures
            views(causes@) == causes_of(self@),
    {
        let mut causes: Vec<String> = Vec::new();
        causes.push(String::from_str("Failed validation of request variables."));
        match &self.path {
            Some(error) => {
                causes.push(String::from_str("Failure in a path variable."));
                causes.push(error.message());
            },
            None => {},
        }
        match &self.query {
            Some(error) => {
                causes.push(String::from_str("Failure in a query parameter."));
                causes.push(error.message());
            },
            None => {},
        }
        assert(views(causes@) =~= causes_of(self@));
        causes
    }

    /// The kind of the failure: see [`failure_category`].
    pub fn category(&self) -> (category: Category)
        ensures
            category == failure_category(self@),
    {
        match &self.path {
            Some(error) => error.category(),
            None => match &self.query {
                Some(error) => error.category(),
                None => Category::ContractViolated,
            },
        }
    }
}

/// Finds the parameter of a name among those of an operation: see
/// [`find_parameter`]. Where there is none, the error names the name.
pub fn find_param<'a>(operation: &'a Operation, param_name: &str) -> (found: Result<
    (usize, &'a ParameterData),
    E,
>)
    ensures
        match found {
            Ok((place, data)) => find_parameter(operation@.parameters, param_name@) == Some(
                place as int,
            ) && place < operation.parameters@.len() && operation.parameters@[place as int] is Item
                && *data == operation.parameters@[place as int]->Item_0.data(),
            Err(error) => find_parameter(operation@.parameters, param_name@) is None && error@
                == EView::ParamError(param_name@),
        },
{
    let ghost all = operation@.parameters;
    let mut i: usize = 0;
    proof {
        lemma_find_parameter(all, param_name@);
    }
    while i < operation.parameters.len()
        invariant
            i <= operation.parameters@.len(),
            all == operation@.parameters,
            forall|j: int| 0 <= j < i ==> !(all[j] is Item && all[j]->Item_0.name == param_name@),
        decreases operation.parameters@.len() - i,
    {
        assert(all[i as int] == operation.parameters@[i as int]@);
        match &operation.parameters[i] {
            RefOr::Item(parameter) => {
                let data = parameter.parameter_data();
                if str_equal(data.name.as_str(), param_name) {
                    proof {
                        lemma_find_parameter(all, param_name@);
                    }
                    return Ok((i, data));
                }
            },
            RefOr::Reference { .. } => {},
        }
        i += 1;
    }
    proof {
        lemma_find_parameter(all, param_name@);
    }
    Err(E::ParamError(String::from_str(param_name)))
}

/// Checks a value against what describes its parameter: see
/// [`format_outcome`].
pub fn check_format(param: &ParameterData, request_param_data: &Attribute) -> (result: Result<
    (),
    E,
>)
    ensures
        outcome(result) == format_outcome(
            param.format@,
            request_param_data@,
            uuid_parses(request_param_data.value@),
            rfc3339_parses(request_param_data.value@),
        ),
{
    match &param.format {
        ParameterSchemaOrContent::Content => Err(
            unsupported("Parameters described by content are not supported"),
        ),
        ParameterSchemaOrContent::Schema(RefOr::Reference { .. }) => Err(
            unsupported("References inside schemas are not supported"),
        ),
        ParameterSchemaOrContent::Schema(RefOr::Item(schema)) => match &schema.schema_kind {
            SchemaKind::Type(the_type) => check_type(the_type, request_param_data),
            SchemaKind::OneOf { .. } => Err(unsupported("OneOf not supported")),
            SchemaKind::AnyOf { .. } => Err(unsupported("AnyOf not supported")),
            SchemaKind::AllOf { .. } => Err(unsupported("AllOf not supported")),
            SchemaKind::Not { .. } => Err(unsupported("Not not supported")),
            SchemaKind::Any(_) => Err(unsupported("Any not supported")),
        },
    }
}

/// Checks the attributes of one group in order, up to the first that fails:
/// see [`group_outcome`]. `used` grows by the place of each parameter that
/// was found.
pub fn validate_variables(
    variables: &Vec<Attribute>,
    operation: &Operation,
    used: &mut Vec<usize>,
) -> (result: Result<(), E>)
    ensures
        outcome(result) == group_outcome(operation@.parameters, views(variables@)),
        final(used)@ == old(used)@ + group_used(operation@.parameters, views(variables@)),
{
    let ghost parameters = operation@.parameters;
    let ghost all = views(variables@);
    let mut i: usize = 0;
    proof {
        assert(all.skip(0) =~= all);
        assert(used@ + Seq::<usize>::empty() =~= used@);
    }
    while i < variables.len()
        invariant
            i <= variables@.len(),
            parameters == operation@.parameters,
            all == views(variables@),
            group_outcome(parameters, all) == group_outcome(parameters, all.skip(i as int)),
            exists|done: Seq<usize>|
                used@ == old(used)@ + done && group_used(parameters, all) == done + group_used(
                    parameters,
                    all.skip(i as int),
                ),
        decreases variables@.len() - i,
    {
        let ghost rest = all.skip(i as int);
        let ghost done = choose|done: Seq<usize>|
            used@ == old(used)@ + done && group_used(parameters, all) == done + group_used(
                parameters,
                rest,
            );
        let variable = &variables[i];
        proof {
            assert(rest.first() == variable@);
            assert(rest.drop_first() =~= all.skip(i + 1));
        }
        let (place, data) = match find_param(operation, variable.name.as_str()) {
            Ok(found) => found,
            Err(error) => {
                proof {
                    assert(done + Seq::<usize>::empty() =~= done);
                }
                return Err(error);
            },
        };
        used.push(place);
        let ghost here = Seq::<usize>::empty().push(place);
        proof {
            assert(parameters[place as int] == operation.parameters@[place as int]@);
            assert(used@ =~= old(used)@ + (done + here));
        }
        match check_format(data, variable) {
            Ok(_) => {
                proof {
                    let after = group_used(parameters, all.skip(i + 1));
                    assert(done + (here + after) =~= (done + here) + after);
                }
            },
            Err(error) => {
                return Err(error);
            },
        }
        i += 1;
    }
    proof {
        let done = choose|done: Seq<usize>|
            used@ == old(used)@ + done && group_used(parameters, all) == done + group_used(
                parameters,
                all.skip(i as int),
            );
        assert(done + Seq::<usize>::empty() =~= done);
    }
    Ok(())
}

/// Checks the attributes of a request against an operation: those of the
/// path, then those of the query. Each group stops at its first failure;
/// the second group is checked whether or not the first failed. `used`
/// grows by the places of the parameters that were found.
pub fn validate(
    openapi_parts: &OpenAPIParts,
    request_parts: &RequestParts,
    used: &mut Vec<usize>,
) -> (result: Result<(), Failure>)
    ensures
        verdict_view(result) == verdict(
            group_outcome(openapi_parts.operation@.parameters, views(request_parts.path_variables@)),
            group_outcome(
                openapi_parts.operation@.parameters,
                views(request_parts.query_variables@),
            ),
        ),
        final(used)@ == old(used)@ + group_used(
            openapi_parts.operation@.parameters,
            views(request_parts.path_variables@),
        ) + group_used(openapi_parts.operation@.parameters, views(request_parts.query_variables@)),
{
    let operation = openapi_parts.operation;
    let path = validate_variables(&request_parts.path_variables, operation, used);
    let query = validate_variables(&request_parts.query_variables, operation, used);
    match (path, query) {
        (Ok(_), Ok(_)) => Ok(()),
        (Err(path), Ok(_)) => Err(Failure { path: Some(path), query: None }),
        (Ok(_), Err(query)) => Err(Failure { path: None, query: Some(query) }),
        (Err(path), Err(query)) => Err(Failure { path: Some(path), query: Some(query) }),
    }
}

} // verus!
