//! What a request carries: the values captured from its path and the pairs of
//! its query.

use vstd::prelude::*;
use vstd::string::StrSliceExecFns;
use vstd::string::StringExecFns;
use crate::document::views;
use crate::path_finder::PathMatch;
use crate::pattern::{capture_names, captures_of, names_of_captures, TokenView};
use crate::text::{chars_of, find_between, first_index_of, lemma_first_index_of};

verus! {

/// A value of a request under its name, as the raw text that was sent.
#[derive(Clone, Debug, PartialEq, Eq)]
pub struct Attribute {
    pub name: String,
    pub value: String,
}

pub struct AttributeView {
    pub name: Seq<char>,
    pub value: Seq<char>,
}

impl View for Attribute {
    type V = AttributeView;

    open spec fn view(&self) -> AttributeView {
        AttributeView { name: self.name@, value: self.value@ }
    }
}

impl Attribute {
    pub fn new(name: &str, value: &str) -> (attribute: Attribute)
        ensures
            attribute@ == (AttributeView { name: name@, value: value@ }),
    {
        Attribute { name: String::from_str(name), value: String::from_str(value) }
    }
}

/// The attributes of a request.
pub type Params = Vec<Attribute>;

/// What a request carries in its path and in its query.
#[derive(Debug)]
pub struct RequestParts {
    pub path_variables: Vec<Attribute>,
    pub query_variables: Vec<Attribute>,
}

/// The attribute that one piece of a query holds: the piece is split at its
/// first `=`; a piece without `=` holds none.
pub open spec fn piece_attribute(piece: Seq<char>) -> Seq<AttributeView> {
    match first_index_of(piece, '=') {
        Some(at) => Seq::empty().push(
            AttributeView { name: piece.take(at), value: piece.skip(at + 1) },
        ),
        None => Seq::empty(),
    }
}

/// The attributes of a query: the query is split at every `&`, and each piece
/// gives at most one attribute. Nothing is decoded.
pub open spec fn query_attributes(query: Seq<char>) -> Seq<AttributeView>
    decreases query.len(),
{
    match first_index_of(query, '&') {
        Some(at) => if 0 <= at < query.len() {
            piece_attribute(query.take(at)) + query_attributes(query.skip(at + 1))
        } else {
            Seq::empty()
        },
        None => piece_attribute(query),
    }
}

/// Names and values paired in order, as far as both reach.
pub open spec fn pair_up(names: Seq<Seq<char>>, values: Seq<Seq<char>>) -> Seq<AttributeView> {
    Seq::new(
        if names.len() <= values.len() {
            names.len()
        } else {
            values.len()
        },
        |i: int| AttributeView { name: names[i], value: values[i] },
    )
}

/// The attributes of a path under a pattern: each capture under its name, or
/// none where the path does not match.
pub open spec fn path_attributes(tokens: Seq<TokenView>, path: Seq<char>) -> Seq<AttributeView> {
    match captures_of(tokens, path) {
        Some(values) => pair_up(capture_names(tokens), values),
        None => Seq::empty(),
    }
}

/// The attributes of a raw query: see [`query_attributes`]. A request
/// without a query has none.
pub fn query_variables(q: &Option<&str>) -> (attributes: Vec<Attribute>)
    ensures
        views(attributes@) == match *q {
            Some(query) => query_attributes(query@),
            None => Seq::empty(),
        },
{
    let mut attributes: Vec<Attribute> = Vec::new();
    let query: &str = match q {
        None => {
            assert(views(attributes@) =~= Seq::empty());
            return attributes;
        },
        Some(query) => query,
    };
    let chars = chars_of(query);
    let n = chars.len();
    let mut start: usize = 0;
    assert(chars@.skip(0) =~= chars@);
    assert(views(attributes@) + query_attributes(chars@) =~= query_attributes(chars@));
    loop
        invariant
            *q == Some(query),
            n == chars@.len(),
            chars@ == query@,
            start <= n,
            views(attributes@) + query_attributes(chars@.skip(start as int)) == query_attributes(
                chars@,
            ),
        decreases n - start,
    {
        let ghost rest = chars@.skip(start as int);
        let ghost before = views(attributes@);
        assert(rest =~= chars@.subrange(start as int, n as int));
        let ampersand = find_between(&chars, start, n, '&');
        let end = match ampersand {
            Some(at) => at,
            None => n,
        };
        let ghost piece = chars@.subrange(start as int, end as int);
        proof {
            lemma_first_index_of(rest, '&');
            if ampersand is Some {
                assert(rest.take(end - start) =~= piece);
                assert(rest.skip(end - start + 1) =~= chars@.skip(end + 1));
            } else {
                assert(rest =~= piece);
            }
        }
        match find_between(&chars, start, end, '=') {
            Some(at) => {
                let attribute = Attribute::new(
                    query.substring_char(start, at),
                    query.substring_char(at + 1, end),
                );
                proof {
                    assert(piece.take(at - start) =~= chars@.subrange(start as int, at as int));
                    assert(piece.skip(at - start + 1) =~= chars@.subrange(at + 1, end as int));
                    assert(piece_attribute(piece) =~= Seq::empty().push(attribute@));
                    assert(views(attributes@.push(attribute)) =~= before.push(attribute@));
                }
                attributes.push(attribute);
            },
            None => {
                assert(piece_attribute(piece) =~= Seq::empty());
            },
        }
        proof {
            let found = piece_attribute(piece);
            assert(views(attributes@) =~= before + found);
            if ampersand is Some {
                let after = query_attributes(chars@.skip(end + 1));
                assert((before + found) + after =~= before + (found + after));
            } else {
                assert(before + found =~= query_attributes(chars@));
            }
        }
        match ampersand {
            Some(_) => {
                start = end + 1;
            },
            None => {
                return attributes;
            },
        }
    }
}

/// The attributes of a path under the pattern of a route: see
/// [`path_attributes`].
pub fn path_variables(route: &PathMatch, path: &str) -> (attributes: Vec<Attribute>)
    ensures
        views(attributes@) == path_attributes(route@.pattern, path@),
{
    let mut attributes: Vec<Attribute> = Vec::new();
    let values = match route.captures(path) {
        Some(values) => values,
        None => {
            assert(views(attributes@) =~= Seq::empty());
            return attributes;
        },
    };
    let names = names_of_captures(&route.pattern);
    let ghost all = pair_up(views(names@), views(values@));
    let mut i: usize = 0;
    while i < names.len() && i < values.len()
        invariant
            i <= names@.len(),
            i <= values@.len(),
            attributes@.len() == i,
            all == pair_up(views(names@), views(values@)),
            forall|j: int| 0 <= j < i ==> (#[trigger] attributes@[j])@ == all[j],
        decreases names@.len() - i,
    {
        attributes.push(Attribute::new(names[i].as_str(), values[i].as_str()));
        i += 1;
    }
    assert(views(attributes@) =~= all);
    attributes
}

impl RequestParts {
    /// The attributes of a request, from its path under the pattern of the
    /// route it belongs to and from its raw query.
    pub fn new(route: &PathMatch, path: &str, query: &Option<&str>) -> (parts: RequestParts)
        ensures
            views(parts.path_variables@) == path_attributes(route@.pattern, path@),
            views(parts.query_variables@) == match *query {
                Some(query) => query_attributes(query@),
                None => Seq::empty(),
            },
    {
        RequestParts {
            path_variables: path_variables(route, path),
            query_variables: query_variables(query),
        }
    }
}

} // verus!
