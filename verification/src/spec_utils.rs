//! The operations of a route by method, and the record of what was used.

use vstd::prelude::*;
use vstd::string::StringExecFns;
use crate::document::{Operation, PathItem};
use crate::error::{EView, E};

verus! {

/// The methods that a route can declare an operation for.
#[derive(Debug, Clone, Copy, PartialEq, Eq, Structural)]
pub enum Method {
    Delete,
    Get,
    Head,
    Options,
    Patch,
    Post,
    Put,
}

/// The name of a method as a request writes it.
pub open spec fn method_text(method: Method) -> Seq<char> {
    match method {
        Method::Delete => "DELETE"@,
        Method::Get => "GET"@,
        Method::Head => "HEAD"@,
        Method::Options => "OPTIONS"@,
        Method::Patch => "PATCH"@,
        Method::Post => "POST"@,
        Method::Put => "PUT"@,
    }
}

/// The name under which a method stands in a description.
pub open spec fn method_key(method: Method) -> Seq<char> {
    match method {
        Method::Delete => "delete"@,
        Method::Get => "get"@,
        Method::Head => "head"@,
        Method::Options => "options"@,
        Method::Patch => "patch"@,
        Method::Post => "post"@,
        Method::Put => "put"@,
    }
}

impl Method {
    /// The name of the method as a request writes it.
    pub fn text(&self) -> (text: &'static str)
        ensures
            text@ == method_text(*self),
    {
        match self {
            Method::Delete => "DELETE",
            Method::Get => "GET",
            Method::Head => "HEAD",
            Method::Options => "OPTIONS",
            Method::Patch => "PATCH",
            Method::Post => "POST",
            Method::Put => "PUT",
        }
    }

    /// The name under which the method stands in a description.
    pub fn key(&self) -> (text: &'static str)
        ensures
            text@ == method_key(*self),
    {
        match self {
            Method::Delete => "delete",
            Method::Get => "get",
            Method::Head => "head",
            Method::Options => "options",
            Method::Patch => "patch",
            Method::Post => "post",
            Method::Put => "put",
        }
    }
}

/// The operation that a path item declares for a method.
pub open spec fn declared(item: PathItem, method: Method) -> Option<Operation> {
    match method {
        Method::Delete => item.delete,
        Method::Get => item.get,
        Method::Head => item.head,
        Method::Options => item.options,
        Method::Patch => item.patch,
        Method::Post => item.post,
        Method::Put => item.put,
    }
}

/// The operation that a route declares for a method; where it declares none,
/// the error names the method.
pub fn path_to_operation<'a>(item: &'a PathItem, method: &Method) -> (found: Result<
    &'a Operation,
    E,
>)
    ensures
        match found {
            Ok(operation) => declared(*item, *method) == Some(*operation),
            Err(error) => declared(*item, *method) is None && error@ == EView::MethodError(
                method_text(*method),
            ),
        },
{
    let operation = match method {
        Method::Delete => &item.delete,
        Method::Get => &item.get,
        Method::Head => &item.head,
        Method::Options => &item.options,
        Method::Patch => &item.patch,
        Method::Post => &item.post,
        Method::Put => &item.put,
    };
    match operation {
        Some(operation) => Ok(operation),
        None => Err(E::MethodError(String::from_str(method.text()))),
    }
}

/// The methods in the order in which operations are listed.
pub open spec fn method_order() -> Seq<Method> {
    seq![
        Method::Delete,
        Method::Get,
        Method::Head,
        Method::Options,
        Method::Patch,
        Method::Post,
        Method::Put,
    ]
}

/// The methods among the first `upto` of the order for which a path item
/// declares an operation.
pub open spec fn declared_methods(item: PathItem, upto: int) -> Seq<Method>
    decreases upto,
{
    if upto <= 0 || upto > 7 {
        Seq::empty()
    } else if declared(item, method_order()[upto - 1]) is Some {
        declared_methods(item, upto - 1).push(method_order()[upto - 1])
    } else {
        declared_methods(item, upto - 1)
    }
}

/// The operations that a route declares, each with its method, in the order
/// delete, get, head, options, patch, post, put.
pub fn operation_list(item: &PathItem) -> (result: Vec<(Method, &Operation)>)
    ensures
        result@.len() == declared_methods(*item, 7).len(),
        forall|i: int|
            0 <= i < result@.len() ==> (#[trigger] result@[i]).0 == declared_methods(*item, 7)[i]
                && declared(*item, result@[i].0) == Some(*result@[i].1),
{
    let mut result: Vec<(Method, &Operation)> = Vec::new();
    let methods = [
        Method::Delete,
        Method::Get,
        Method::Head,
        Method::Options,
        Method::Patch,
        Method::Post,
        Method::Put,
    ];
    assert(methods@ =~= method_order());
    let mut k: usize = 0;
    while k < 7
        invariant
            k <= 7,
            methods@ == method_order(),
            result@.len() == declared_methods(*item, k as int).len(),
            forall|i: int|
                0 <= i < result@.len() ==> (#[trigger] result@[i]).0 == declared_methods(
                    *item,
                    k as int,
                )[i] && declared(*item, result@[i].0) == Some(*result@[i].1),
        decreases 7 - k,
    {
        let method = methods[k];
        match path_to_operation(item, &method) {
            Ok(operation) => {
                result.push((method, operation));
            },
            Err(_) => {},
        }
        k += 1;
    }
    result
}

/// One use of an operation, or of one of its parameters, by a request.
#[derive(Debug, Clone, Copy, PartialEq, Eq, Structural)]
pub struct UsageMark {
    /// The place of the route among the routes.
    pub route: usize,
    pub method: Method,
    /// The place of the parameter among those of the operation; none for
    /// the operation itself.
    pub parameter: Option<usize>,
}

/// What requests have used so far. It is kept beside the document, which no
/// request changes.
#[derive(Debug)]
pub struct UsageTable {
    pub marks: Vec<UsageMark>,
}

impl View for UsageTable {
    type V = Set<UsageMark>;

    open spec fn view(&self) -> Set<UsageMark> {
        self.marks@.to_set()
    }
}

impl UsageTable {
    /// A table in which nothing is used.
    pub fn new() -> (table: UsageTable)
        ensures
            table@ == Set::<UsageMark>::empty(),
    {
        let table = UsageTable { marks: Vec::new() };
        assert(table@ =~= Set::<UsageMark>::empty());
        table
    }
}

/// Whether a use is on record.
pub fn is_used(table: &UsageTable, mark: &UsageMark) -> (found: bool)
    ensures
        found == table@.contains(*mark),
{
    let mut i: usize = 0;
    while i < table.marks.len()
        invariant
            i <= table.marks@.len(),
            forall|j: int| 0 <= j < i ==> table.marks@[j] != *mark,
        decreases table.marks@.len() - i,
    {
        let seen = &table.marks[i];
        if seen.route == mark.route && seen.method == mark.method && seen.parameter
            == mark.parameter {
            assert(table.marks@[i as int] == *mark);
            return true;
        }
        i += 1;
    }
    false
}

/// Puts a use on record.
pub fn used(table: &mut UsageTable, mark: UsageMark)
    ensures
        final(table)@ == old(table)@.insert(mark),
{
    if !is_used(table, &mark) {
        table.marks.push(mark);
        assert(table@ =~= old(table)@.insert(mark)) by {
            assert forall|m: UsageMark| table@.contains(m) == old(table)@.insert(mark).contains(
                m,
            ) by {
                if table.marks@.contains(m) {
                    let i = choose|i: int| 0 <= i < table.marks@.len() && table.marks@[i] == m;
                    if i < old(table).marks@.len() {
                        assert(old(table).marks@[i] == m);
                    }
                }
                if old(table).marks@.contains(m) {
                    let i = choose|i: int|
                        0 <= i < old(table).marks@.len() && old(table).marks@[i] == m;
                    assert(table.marks@[i] == m);
                }
                if m == mark {
                    assert(table.marks@[old(table).marks@.len() as int] == m);
                }
            }
        }
    } else {
        assert(table@ =~= old(table)@.insert(mark));
    }
}

} // verus!
