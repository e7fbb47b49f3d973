//! A summary of what the requests served so far have used of the
//! description.

use vstd::prelude::*;
use vstd::string::StringExecFns;
use crate::document::{Location, Operation, Parameter, ParameterView};
use crate::path_finder::{PathFinder, PathMatch};
use crate::reference::{RefOr, RefOrView};
use crate::spec_utils::{
    declared, declared_methods, is_used, method_key, operation_list, Method, UsageMark,
    UsageTable,
};

verus! {

/// A parameter of an operation, and whether a request has used it.
#[derive(Debug, Clone, PartialEq, Eq)]
pub struct UsedParam {
    pub used: bool,
    pub name: String,
    pub location: String,
}

pub struct UsedParamView {
    pub used: bool,
    pub name: Seq<char>,
    pub location: Seq<char>,
}

impl View for UsedParam {
    type V = UsedParamView;

    open spec fn view(&self) -> UsedParamView {
        UsedParamView { used: self.used, name: self.name@, location: self.location@ }
    }
}

/// An operation of a route, and whether a request has used it.
#[derive(Debug, Clone, PartialEq, Eq)]
pub struct UsedMethod {
    pub used: bool,
    pub method: String,
    pub parameters: Vec<UsedParam>,
}

pub struct UsedMethodView {
    pub used: bool,
    pub method: Seq<char>,
    pub parameters: Seq<UsedParamView>,
}

impl View for UsedMethod {
    type V = UsedMethodView;

    open spec fn view(&self) -> UsedMethodView {
        UsedMethodView {
            used: self.used,
            method: self.method@,
            parameters: crate::document::views(self.parameters@),
        }
    }
}

/// A route with its operations.
#[derive(Debug, Clone, PartialEq, Eq)]
pub struct UsedRoute {
    pub route: String,
    pub methods: Vec<UsedMethod>,
}

pub struct UsedRouteView {
    pub route: Seq<char>,
    pub methods: Seq<UsedMethodView>,
}

impl View for UsedRoute {
    type V = UsedRouteView;

    open spec fn view(&self) -> UsedRouteView {
        UsedRouteView { route: self.route@, methods: crate::document::views(self.methods@) }
    }
}

/// The summary: one entry for each route, in the order of the routes.
#[derive(Debug, Clone, PartialEq, Eq)]
pub struct UsedSpec {
    pub spec: Vec<UsedRoute>,
}

/// Where a parameter stands, in words.
pub open spec fn location_text(location: Location) -> Seq<char> {
    match location {
        Location::Query => "query"@,
        Location::Header => "header"@,
        Location::Path => "path"@,
        Location::Cookie => "cookie"@,
    }
}

/// The summary of the first `upto` parameters of an operation: one entry for
/// each that is no reference.
pub open spec fn params_summary(
    parameters: Seq<RefOrView<ParameterView>>,
    upto: int,
    route: usize,
    method: Method,
    usage: Set<UsageMark>,
) -> Seq<UsedParamView>
    decreases upto,
{
    if upto <= 0 || upto > parameters.len() {
        Seq::empty()
    } else {
        let before = params_summary(parameters, upto - 1, route, method, usage);
        match parameters[upto - 1] {
            RefOrView::Item(parameter) => before.push(
                UsedParamView {
                    used: usage.contains(
                        UsageMark { route, method, parameter: Some((upto - 1) as usize) },
                    ),
                    name: parameter.name,
                    location: location_text(parameter.location),
                },
            ),
            RefOrView::Reference(_) => before,
        }
    }
}

/// The summary of one operation.
pub open spec fn method_summary(
    operation: Operation,
    route: usize,
    method: Method,
    usage: Set<UsageMark>,
) -> UsedMethodView {
    UsedMethodView {
        used: usage.contains(UsageMark { route, method, parameter: None }),
        method: method_key(method),
        parameters: params_summary(
            operation@.parameters,
            operation@.parameters.len() as int,
            route,
            method,
            usage,
        ),
    }
}

/// The summary of one route: its template, and one entry for each operation
/// that it declares, in the order delete, get, head, options, patch, post,
/// put.
pub open spec fn route_summary(route: PathMatch, place: usize, usage: Set<UsageMark>) -> UsedRouteView {
    let methods = declared_methods(route.path, 7);
    UsedRouteView {
        route: route.template@,
        methods: Seq::new(
            methods.len(),
            |i: int| method_summary(declared(route.path, methods[i])->Some_0, place, methods[i], usage),
        ),
    }
}

impl Parameter {
    /// Where the parameter stands, in words.
    pub fn location_string(&self) -> (text: String)
        ensures
            text@ == location_text(self.place()),
    {
        match self {
            Parameter::Query { .. } => String::from_str("query"),
            Parameter::Header { .. } => String::from_str("header"),
            Parameter::Path { .. } => String::from_str("path"),
            Parameter::Cookie { .. } => String::from_str("cookie"),
        }
    }
}

fn summarize_parameters(operation: &Operation, route: usize, method: Method, usage: &UsageTable) -> (params:
    Vec<UsedParam>)
    ensures
        crate::document::views(params@) == params_summary(
            operation@.parameters,
            operation@.parameters.len() as int,
            route,
            method,
            usage@,
        ),
{
    let ghost all = operation@.parameters;
    let mut params: Vec<UsedParam> = Vec::new();
    let mut i: usize = 0;
    assert(crate::document::views(params@) =~= Seq::empty());
    while i < operation.parameters.len()
        invariant
            i <= operation.parameters@.len(),
            all == operation@.parameters,
            crate::document::views(params@) == params_summary(
                all,
                i as int,
                route,
                method,
                usage@,
            ),
        decreases operation.parameters@.len() - i,
    {
        assert(all[i as int] == operation.parameters@[i as int]@);
        match &operation.parameters[i] {
            RefOr::Item(parameter) => {
                let entry = UsedParam {
                    used: is_used(usage, &UsageMark { route, method, parameter: Some(i) }),
                    name: parameter.parameter_data().name.clone(),
                    location: parameter.location_string(),
                };
                assert(crate::document::views(params@.push(entry)) =~= crate::document::views(
                    params@,
                ).push(entry@));
                params.push(entry);
            },
            RefOr::Reference { .. } => {},
        }
        i += 1;
    }
    params
}

/// Summarises the routes and what has been used of them: see
/// [`route_summary`].
pub fn usage_summary(builder: &PathFinder, usage: &UsageTable) -> (summary: UsedSpec)
    ensures
        summary.spec@.len() == builder.path_matches@.len(),
        forall|i: int|
            0 <= i < summary.spec@.len() ==> (#[trigger] summary.spec@[i])@ == route_summary(
                builder.path_matches@[i],
                i as usize,
                usage@,
            ),
{
    let mut spec: Vec<UsedRoute> = Vec::new();
    let mut r: usize = 0;
    while r < builder.path_matches.len()
        invariant
            r <= builder.path_matches@.len(),
            spec@.len() == r,
            forall|i: int|
                0 <= i < r ==> (#[trigger] spec@[i])@ == route_summary(
                    builder.path_matches@[i],
                    i as usize,
                    usage@,
                ),
        decreases builder.path_matches@.len() - r,
    {
        let route = &builder.path_matches[r];
        let operations = operation_list(&route.path);
        let ghost wanted = route_summary(*route, r, usage@);
        let mut methods: Vec<UsedMethod> = Vec::new();
        let mut k: usize = 0;
        while k < operations.len()
            invariant
                k <= operations@.len(),
                operations@.len() == declared_methods(route.path, 7).len(),
                forall|i: int|
                    0 <= i < operations@.len() ==> (#[trigger] operations@[i]).0
                        == declared_methods(route.path, 7)[i] && declared(
                        route.path,
                        operations@[i].0,
                    ) == Some(*operations@[i].1),
                wanted == route_summary(*route, r, usage@),
                methods@.len() == k,
                forall|i: int| 0 <= i < k ==> (#[trigger] methods@[i])@ == wanted.methods[i],
            decreases operations@.len() - k,
        {
            let (method, operation) = operations[k];
            assert(operations@[k as int].0 == method);
            let entry = UsedMethod {
                used: is_used(usage, &UsageMark { route: r, method, parameter: None }),
                method: String::from_str(method.key()),
                parameters: summarize_parameters(operation, r, method, usage),
            };
            methods.push(entry);
            k += 1;
        }
        let entry = UsedRoute { route: route.template.clone(), methods };
        assert(entry@.methods =~= wanted.methods);
        spec.push(entry);
        r += 1;
    }
    UsedSpec { spec }
}

} // verus!
