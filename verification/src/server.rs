//! The path under which a server exposes the routes.

use vstd::prelude::*;
use vstd::string::StrSliceExecFns;
use vstd::string::StringExecFns;
use crate::document::{Server, ServerVariable, ServerVariableView, ServerView};
use crate::outside::{option_text, path_of_uri, uri_path};
use crate::text::{chars_of, str_equal};

verus! {

/// A text without the `/` that it may end with.
pub open spec fn trim_slash(text: Seq<char>) -> Seq<char> {
    if text.len() > 0 && text.last() == '/' {
        text.drop_last()
    } else {
        text
    }
}

/// The default of the first variable of the name, if there is one.
pub open spec fn default_of(variables: Seq<ServerVariableView>, name: Seq<char>) -> Option<
    Seq<char>,
>
    decreases variables.len(),
{
    if variables.len() == 0 {
        None
    } else if variables[0].name == name {
        Some(variables[0].default)
    } else {
        default_of(variables.drop_first(), name)
    }
}

/// The base path of a server, without the `/` that it may end with. Where
/// the server has variables, it is the default of the first variable named
/// `basePath`, or empty where there is none; else it is the path of the
/// server's address, `path`, or empty where the address has none. One `/` is
/// taken from the end, no more: `/v1//` gives `/v1/`.
pub open spec fn base_path_of(server: ServerView, path: Option<Seq<char>>) -> Seq<char> {
    match server.variables {
        Some(variables) => match default_of(variables, "basePath"@) {
            Some(default) => trim_slash(default),
            None => Seq::empty(),
        },
        None => match path {
            Some(path) => trim_slash(path),
            None => Seq::empty(),
        },
    }
}

/// Computes [`trim_slash`].
pub fn trimmed(text: &str) -> (out: String)
    ensures
        out@ == trim_slash(text@),
{
    let chars = chars_of(text);
    let n = chars.len();
    if n > 0 && chars[n - 1] == '/' {
        String::from_str(text.substring_char(0, n - 1))
    } else {
        String::from_str(text)
    }
}

fn find_default<'a>(variables: &'a Vec<ServerVariable>, name: &str) -> (found: Option<&'a String>)
    ensures
        match found {
            Some(default) => default_of(crate::document::views(variables@), name@) == Some(
                default@,
            ),
            None => default_of(crate::document::views(variables@), name@) is None,
        },
{
    let ghost all = crate::document::views(variables@);
    let mut i: usize = 0;
    assert(all.skip(0) =~= all);
    while i < variables.len()
        invariant
            i <= variables@.len(),
            all == crate::document::views(variables@),
            default_of(all, name@) == default_of(all.skip(i as int), name@),
        decreases variables@.len() - i,
    {
        let ghost rest = all.skip(i as int);
        assert(rest[0] == variables@[i as int]@);
        assert(rest.drop_first() =~= all.skip(i + 1));
        if str_equal(variables[i].name.as_str(), name) {
            return Some(&variables[i].default);
        }
        i += 1;
    }
    None
}

impl Server {
    /// The base path, given the path that the server's address has as a URI:
    /// see [`base_path_of`].
    pub fn base_path_with(&self, path: Option<String>) -> (base: String)
        ensures
            base@ == base_path_of(self@, option_text(path)),
    {
        match &self.variables {
            Some(variables) => match find_default(variables, "basePath") {
                Some(default) => trimmed(default.as_str()),
                None => String::new(),
            },
            None => match path {
                Some(path) => trimmed(path.as_str()),
                None => String::new(),
            },
        }
    }

    /// The base path of the server, without the `/` that it may end with:
    /// see [`base_path_of`].
    pub fn base_path(&self) -> (base: String)
        ensures
            base@ == base_path_of(self@, uri_path(self.url@)),
    {
        let path = if self.variables.is_some() {
            None
        } else {
            path_of_uri(self.url.as_str())
        };
        self.base_path_with(path)
    }
}

} // verus!
