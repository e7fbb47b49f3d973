//! The decision on a request: whether it agrees with the description and
//! may pass, or why it may not.

use vstd::prelude::*;
use vstd::string::StringExecFns;
use crate::deref_error::DerefError;
use crate::dereferer::deref_all;
use crate::document::{views, Document, DocumentView};
use crate::error::{category_of, error_text, Category, EView, E};
use crate::outside::uri_path;
use crate::parts::OpenAPIParts;
use crate::path_finder::{base_of, best_match, compiled, no_match, PathFinder, PathMatch};
use crate::request::{path_attributes, query_attributes, AttributeView, RequestParts};
use crate::resolution::resolve_document;
use crate::resolution_laws::document_resolved;
use crate::spec_utils::{declared, method_text, Method, UsageMark};
use crate::text::str_equal;
use crate::validator::{causes_of, failure_category, group_outcome, group_used, validate, verdict};

verus! {

/// What a caller is told of a request that is refused.
#[derive(Debug, Clone, PartialEq, Eq)]
pub struct Diagnostic {
    /// The path of the request.
    pub failed_url: String,
    /// Why it is refused, from the outermost cause in.
    pub causes: Vec<String>,
    pub category: Category,
}

pub struct DiagnosticView {
    pub failed_url: Seq<char>,
    pub causes: Seq<Seq<char>>,
    pub category: Category,
}

impl View for Diagnostic {
    type V = DiagnosticView;

    open spec fn view(&self) -> DiagnosticView {
        DiagnosticView {
            failed_url: self.failed_url@,
            causes: views(self.causes@),
            category: self.category,
        }
    }
}

/// What is to be done with a request.
#[derive(Debug, Clone, PartialEq, Eq)]
pub enum Decision {
    /// The request asks for the summary of what has been used.
    Report,
    /// The request agrees with the description and is passed on; `used` is
    /// what it used of the description.
    Forward { used: Vec<UsageMark> },
    /// The request is refused; `used` is what it used of the description
    /// before it failed.
    Reject { diagnostic: Diagnostic, used: Vec<UsageMark> },
}

pub enum DecisionView {
    Report,
    Forward { used: Seq<UsageMark> },
    Reject { diagnostic: DiagnosticView, used: Seq<UsageMark> },
}

impl View for Decision {
    type V = DecisionView;

    open spec fn view(&self) -> DecisionView {
        match *self {
            Decision::Report => DecisionView::Report,
            Decision::Forward { used } => DecisionView::Forward { used: used@ },
            Decision::Reject { diagnostic, used } => DecisionView::Reject {
                diagnostic: diagnostic@,
                used: used@,
            },
        }
    }
}

/// The refusal of a request for which no operation was found.
pub open spec fn unrouted(path: Seq<char>, error: EView) -> DecisionView {
    DecisionView::Reject {
        diagnostic: DiagnosticView {
            failed_url: path,
            causes: Seq::empty().push(error_text(error)),
            category: category_of(error),
        },
        used: Seq::empty(),
    }
}

/// The uses of an operation and of some of its parameters.
pub open spec fn marks_of(route: usize, method: Method, places: Seq<usize>) -> Seq<UsageMark> {
    Seq::empty().push(UsageMark { route, method, parameter: None }) + Seq::new(
        places.len(),
        |i: int| UsageMark { route, method, parameter: Some(places[i]) },
    )
}

/// The query of a request as attributes; a request without a query has
/// none.
pub open spec fn attributes_of_query(query: Option<&str>) -> Seq<AttributeView> {
    match query {
        Some(query) => query_attributes(query@),
        None => Seq::empty(),
    }
}

/// The decision on a request that belongs to a route: where the route
/// declares no operation for the method, the request is refused for that;
/// else its attributes are checked against the operation, and it is passed
/// on where they pass and refused with the causes where they do not.
pub open spec fn routed(
    route: PathMatch,
    place: usize,
    method: Method,
    path: Seq<char>,
    query: Option<&str>,
) -> DecisionView {
    match declared(route.path, method) {
        None => unrouted(path, EView::MethodError(method_text(method))),
        Some(operation) => {
            let parameters = operation@.parameters;
            let in_path = path_attributes(route@.pattern, path);
            let in_query = attributes_of_query(query);
            let used = marks_of(
                place,
                method,
                group_used(parameters, in_path) + group_used(parameters, in_query),
            );
            match verdict(group_outcome(parameters, in_path), group_outcome(parameters, in_query)) {
                Ok(_) => DecisionView::Forward { used },
                Err(failure) => DecisionView::Reject {
                    diagnostic: DiagnosticView {
                        failed_url: path,
                        causes: causes_of(failure),
                        category: failure_category(failure),
                    },
                    used,
                },
            }
        },
    }
}

/// The routes of a description, against which requests are checked.
#[derive(Debug)]
pub struct OASMiddleware {
    pub path_finder: PathFinder,
}

impl OASMiddleware {
    /// Resolves the description and reads its routes as patterns. A
    /// description that cannot be resolved is refused.
    pub fn new(spec: Document) -> (made: Result<OASMiddleware, DerefError>)
        ensures
            match made {
                Ok(middleware) => resolve_document(spec@) is Ok && document_resolved(
                    resolve_document(spec@)->Ok_0,
                ) && middleware.path_finder@ == compiled(
                    resolve_document(spec@)->Ok_0,
                    base_of(
                        spec@.servers,
                        if spec@.servers.len() > 0 {
                            uri_path(spec@.servers[0].url)
                        } else {
                            None
                        },
                    ),
                ),
                Err(error) => resolve_document(spec@) == Err::<DocumentView, _>(error@),
            },
    {
        match deref_all(spec) {
            Ok(resolved) => Ok(OASMiddleware { path_finder: PathFinder::new(resolved) }),
            Err(error) => Err(error),
        }
    }

    /// The name of this check.
    pub fn name() -> (name: String)
        ensures
            name@ == "OpenAPI Validator Middleware"@,
    {
        String::from_str("OpenAPI Validator Middleware")
    }

    /// Decides on a request. A request for `/report` asks for the summary.
    /// Any other is refused where no route matches its path, and else
    /// decided by the route it belongs to: see [`routed`].
    pub fn before_request(&self, method: &Method, path: &str, query: &Option<&str>) -> (decision:
        Decision)
        ensures
            path@ == "/report"@ ==> decision@ == DecisionView::Report,
            path@ != "/report"@ && no_match(self.path_finder@, path@) ==> decision@ == unrouted(
                path@,
                EView::PathError(path@),
            ),
            path@ != "/report"@ && !no_match(self.path_finder@, path@) ==> exists|i: int|
                best_match(self.path_finder@, path@, i) && decision@ == routed(
                    self.path_finder.path_matches@[i],
                    i as usize,
                    *method,
                    path@,
                    *query,
                ),
    {
        if str_equal(path, "/report") {
            return Decision::Report;
        }
        let place = match self.path_finder.find_index(path) {
            Ok(place) => place,
            Err(error) => {
                return refusal(path, &error);
            },
        };
        let route = &self.path_finder.path_matches[place];
        assert(self.path_finder@[place as int] == route@);
        let openapi_parts = match OpenAPIParts::new(&route.path, method) {
            Ok(parts) => parts,
            Err(error) => {
                return refusal(path, &error);
            },
        };
        let request_parts = RequestParts::new(route, path, query);
        let mut places: Vec<usize> = Vec::new();
        let result = validate(&openapi_parts, &request_parts, &mut places);
        let ghost parameters = openapi_parts.operation@.parameters;
        proof {
            let in_path = path_attributes(route@.pattern, path@);
            let in_query = attributes_of_query(*query);
            assert(places@ =~= group_used(parameters, in_path) + group_used(parameters, in_query));
        }
        let mut used: Vec<UsageMark> = Vec::new();
        used.push(UsageMark { route: place, method: *method, parameter: None });
        let mut i: usize = 0;
        while i < places.len()
            invariant
                i <= places@.len(),
                used@.len() == i + 1,
                used@[0] == (UsageMark { route: place, method: *method, parameter: None }),
                forall|j: int|
                    0 <= j < i ==> (#[trigger] used@[j + 1]) == (UsageMark {
                        route: place,
                        method: *method,
                        parameter: Some(places@[j]),
                    }),
            decreases places@.len() - i,
        {
            used.push(UsageMark { route: place, method: *method, parameter: Some(places[i]) });
            i += 1;
        }
        proof {
            let wanted = marks_of(place, *method, places@);
            assert(wanted.len() == used@.len());
            assert forall|k: int| 0 <= k < used@.len() implies used@[k] == wanted[k] by {
                if k > 0 {
                    assert(used@[(k - 1) + 1] == wanted[k]);
                }
            }
            assert(used@ =~= wanted);
        }
        match result {
            Ok(_) => Decision::Forward { used },
            Err(failure) => Decision::Reject {
                diagnostic: Diagnostic {
                    failed_url: String::from_str(path),
                    causes: failure.causes(),
                    category: failure.category(),
                },
                used,
            },
        }
    }
}

/// The refusal of a request for which no operation was found: see
/// [`unrouted`].
pub fn refusal(path: &str, error: &E) -> (decision: Decision)
    ensures
        decision@ == unrouted(path@, error@),
{
    let mut causes: Vec<String> = Vec::new();
    causes.push(error.message());
    assert(views(causes@) =~= Seq::empty().push(error_text(error@)));
    Decision::Reject {
        diagnostic: Diagnostic {
            failed_url: String::from_str(path),
            causes,
            category: error.category(),
        },
        used: Vec::new(),
    }
}

} // verus!
