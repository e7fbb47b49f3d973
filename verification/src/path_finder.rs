//! The routes of a document as patterns, and the choice of the route that a
//! path belongs to.

use vstd::prelude::*;
use vstd::string::StrSliceExecFns;
use vstd::string::StringExecFns;
use crate::document::{views, Document, DocumentView, PathItem, PathItemView, ServerView};
use crate::error::{EView, E};
use crate::matcher::{match_from, span_values, spans_within};
use crate::outside::uri_path;
use crate::pattern::{
    capture_count, captures_of, compile_template, count_captures, parse_template, pattern_matches,
    Token, TokenView,
};
use crate::server::base_path_of;
use crate::text::{chars_of, concat};

verus! {

/// A route as a pattern, with what the route declares.
#[derive(Debug)]
pub struct PathMatch {
    /// The template of the route, with the base path before it.
    pub template: String,
    /// The template read as a pattern.
    pub pattern: Vec<Token>,
    /// What the route declares.
    pub path: PathItem,
}

pub struct PathMatchView {
    pub template: Seq<char>,
    pub pattern: Seq<TokenView>,
    pub path: PathItemView,
}

impl View for PathMatch {
    type V = PathMatchView;

    open spec fn view(&self) -> PathMatchView {
        PathMatchView { template: self.template@, pattern: views(self.pattern@), path: self.path@ }
    }
}

/// The routes of a document, ready to be matched.
#[derive(Debug)]
pub struct PathFinder {
    pub path_matches: Vec<PathMatch>,
}

impl View for PathFinder {
    type V = Seq<PathMatchView>;

    open spec fn view(&self) -> Seq<PathMatchView> {
        views(self.path_matches@)
    }
}

/// The base path of a document: that of its first server, or empty where it
/// names no server. `first_path` is the path of the first server's address.
pub open spec fn base_of(servers: Seq<ServerView>, first_path: Option<Seq<char>>) -> Seq<char> {
    if servers.len() == 0 {
        Seq::empty()
    } else {
        base_path_of(servers[0], first_path)
    }
}

/// The routes of a document as patterns: each template, with the base path
/// before it, read as a pattern and paired with what the route declares.
pub open spec fn compiled(document: DocumentView, base: Seq<char>) -> Seq<PathMatchView> {
    Seq::new(
        document.paths.len(),
        |i: int|
            PathMatchView {
                template: base + document.paths[i].template,
                pattern: parse_template(base + document.paths[i].template),
                path: document.paths[i].item,
            },
    )
}

/// The route that a path belongs to: among the routes that match, the first
/// of those with the fewest captures.
pub open spec fn best_match(routes: Seq<PathMatchView>, path: Seq<char>, i: int) -> bool {
    &&& 0 <= i < routes.len()
    &&& pattern_matches(routes[i].pattern, path)
    &&& forall|j: int|
        0 <= j < routes.len() && pattern_matches(#[trigger] routes[j].pattern, path) ==> capture_count(
            routes[i].pattern,
        ) <= capture_count(routes[j].pattern)
    &&& forall|j: int|
        0 <= j < i && pattern_matches(#[trigger] routes[j].pattern, path) ==> capture_count(
            routes[i].pattern,
        ) < capture_count(routes[j].pattern)
}

/// No route matches the path.
pub open spec fn no_match(routes: Seq<PathMatchView>, path: Seq<char>) -> bool {
    forall|j: int| 0 <= j < routes.len() ==> !pattern_matches(#[trigger] routes[j].pattern, path)
}

/// The views of optional captures.
pub open spec fn option_views(values: Option<Vec<String>>) -> Option<Seq<Seq<char>>> {
    match values {
        Some(values) => Some(views(values@)),
        None => None,
    }
}

impl PathMatch {
    /// Whether all of `path` matches the pattern.
    pub fn is_match(&self, path: &str) -> (matched: bool)
        ensures
            matched == pattern_matches(self@.pattern, path@),
    {
        let chars = chars_of(path);
        let mut spans: Vec<(usize, usize)> = Vec::new();
        assert(views(self.pattern@).skip(0) =~= views(self.pattern@));
        assert(chars@.skip(0) =~= chars@);
        match_from(&self.pattern, 0, &chars, 0, &mut spans)
    }

    /// What the captures of the pattern hold when it is matched against all
    /// of `path`, or nothing where the path does not match.
    pub fn captures(&self, path: &str) -> (values: Option<Vec<String>>)
        ensures
            option_views(values) == captures_of(self@.pattern, path@),
    {
        let chars = chars_of(path);
        let mut spans: Vec<(usize, usize)> = Vec::new();
        assert(views(self.pattern@).skip(0) =~= views(self.pattern@));
        assert(chars@.skip(0) =~= chars@);
        if !match_from(&self.pattern, 0, &chars, 0, &mut spans) {
            return None;
        }
        let ghost found = captures_of(self@.pattern, path@)->Some_0;
        assert(span_values(chars@, spans@) =~= found) by {
            assert(span_values(chars@, Seq::empty()) + found =~= found);
        }
        let mut values: Vec<String> = Vec::new();
        let mut i: usize = 0;
        while i < spans.len()
            invariant
                chars@ == path@,
                i <= spans@.len(),
                spans_within(spans@, chars@.len()),
                values@.len() == i,
                forall|j: int| 0 <= j < i ==> values@[j]@ == span_values(chars@, spans@)[j],
            decreases spans@.len() - i,
        {
            let (start, end) = spans[i];
            assert(spans@[i as int].0 <= spans@[i as int].1 <= chars@.len());
            values.push(String::from_str(path.substring_char(start, end)));
            i += 1;
        }
        assert(views(values@) =~= found);
        Some(values)
    }

    /// How many captures the pattern has.
    pub fn captures_len(&self) -> (count: usize)
        ensures
            count == capture_count(self@.pattern),
    {
        count_captures(&self.pattern)
    }
}

impl PathFinder {
    /// The routes of a document as patterns, under the base path of its
    /// first server.
    pub fn new(spec: Document) -> (finder: PathFinder)
        ensures
            finder@ == compiled(
                spec@,
                base_of(
                    spec@.servers,
                    if spec@.servers.len() > 0 {
                        uri_path(spec@.servers[0].url)
                    } else {
                        None
                    },
                ),
            ),
    {
        let base = if spec.servers.len() > 0 {
            assert(views(spec.servers@)[0] == spec.servers@[0]@);
            spec.servers[0].base_path()
        } else {
            String::new()
        };
        PathFinder { path_matches: Self::create_path_matches(spec, base.as_str()) }
    }

    /// The routes of a document as patterns, under a given base path.
    pub fn with_base(spec: Document, base_path: &str) -> (finder: PathFinder)
        ensures
            finder@ == compiled(spec@, base_path@),
    {
        PathFinder { path_matches: Self::create_path_matches(spec, base_path) }
    }

    fn create_path_matches(spec: Document, base_path: &str) -> (result: Vec<PathMatch>)
        ensures
            views(result@) == compiled(spec@, base_path@),
    {
        let ghost document = spec@;
        let mut result: Vec<PathMatch> = Vec::new();
        let paths = spec.paths;
        assert(views(paths@) == document.paths);
        for route in it: paths
            invariant
                result@.len() == it.index(),
                it.seq().len() == document.paths.len(),
                forall|j: int| 0 <= j < it.seq().len() ==> (#[trigger] it.seq()[j])@ == document.paths[j],
                forall|j: int|
                    0 <= j < it.index() ==> (#[trigger] result@[j])@ == compiled(
                        document,
                        base_path@,
                    )[j],
        {
            let path = concat(base_path, route.template.as_str());
            let pattern = compile_template(path.as_str());
            let pr = PathMatch { template: path, pattern, path: route.item };
            result.push(pr);
        }
        assert(views(result@) =~= compiled(document, base_path@));
        result
    }

    /// The place of the route that a path belongs to: see [`best_match`].
    pub fn find_index(&self, path: &str) -> (found: Result<usize, E>)
        ensures
            match found {
                Ok(i) => best_match(self@, path@, i as int),
                Err(error) => no_match(self@, path@) && error@ == EView::PathError(path@),
            },
    {
        let mut best: Option<(usize, usize)> = None;
        let mut i: usize = 0;
        while i < self.path_matches.len()
            invariant
                i <= self.path_matches@.len(),
                match best {
                    Some((place, count)) => place < i && count == capture_count(
                        self@[place as int].pattern,
                    ) && best_match(self@.take(i as int), path@, place as int),
                    None => no_match(self@.take(i as int), path@),
                },
            decreases self.path_matches@.len() - i,
        {
            let candidate = &self.path_matches[i];
            assert(self@[i as int] == candidate@);
            if candidate.is_match(path) {
                let count = candidate.captures_len();
                match best {
                    Some((_, least)) => {
                        if count < least {
                            best = Some((i, count));
                        }
                    },
                    None => {
                        best = Some((i, count));
                    },
                }
            }
            i += 1;
        }
        assert(self@.take(i as int) =~= self@);
        match best {
            Some((place, _)) => Ok(place),
            None => Err(E::PathError(String::from_str(path))),
        }
    }

    /// The route that a path belongs to: among the routes that match, the
    /// first of those with the fewest captures.
    pub fn find(&self, path: &str) -> (found: Result<&PathMatch, E>)
        ensures
            match found {
                Ok(route) => exists|i: int|
                    best_match(self@, path@, i) && *route == self.path_matches@[i],
                Err(error) => no_match(self@, path@) && error@ == EView::PathError(path@),
            },
    {
        match self.find_index(path) {
            Ok(place) => Ok(&self.path_matches[place]),
            Err(error) => Err(error),
        }
    }
}

} // verus!
