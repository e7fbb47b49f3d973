//! Route patterns: a template such as `/users/{id}` read as literal
//! characters and named captures, and what it means for a path to match one.

use vstd::prelude::*;
use vstd::string::StrSliceExecFns;
use vstd::string::StringExecFns;
use crate::document::views;
use crate::text::{chars_of, find_from, first_index_of, lemma_first_index_of};

verus! {

/// One piece of a route pattern.
#[derive(Debug, Clone, PartialEq, Eq)]
pub enum Token {
    /// A character that the path must hold at this place.
    Literal(char),
    /// A capture under a name: one or more characters of the path, none of
    /// them a `/`.
    Capture(String),
}

pub enum TokenView {
    Literal(char),
    Capture(Seq<char>),
}

impl View for Token {
    type V = TokenView;

    open spec fn view(&self) -> TokenView {
        match *self {
            Token::Literal(c) => TokenView::Literal(c),
            Token::Capture(name) => TokenView::Capture(name@),
        }
    }
}

/// The token for a character that stands for itself.
pub open spec fn literal(c: char) -> TokenView {
    TokenView::Literal(c)
}

/// The pattern that a template writes. `{name}` is a capture; a `{` that is
/// never closed and every other character stand for themselves.
pub open spec fn parse_template(template: Seq<char>) -> Seq<TokenView>
    decreases template.len(),
{
    if template.len() == 0 {
        Seq::empty()
    } else {
        match closing_brace(template) {
            Some(close) => Seq::empty().push(TokenView::Capture(template.subrange(1, close)))
                + parse_template(template.skip(close + 1)),
            None => Seq::empty().push(literal(template.first())) + parse_template(
                template.skip(1),
            ),
        }
    }
}

/// Where the capture that opens a template closes: the place of the first
/// `}` in a template that starts with `{` and holds a `}`.
pub open spec fn closing_brace(template: Seq<char>) -> Option<int> {
    if template.len() > 0 && template.first() == '{' {
        match first_index_of(template.skip(1), '}') {
            Some(offset) => if 0 <= offset < template.len() - 1 {
                Some(offset + 1)
            } else {
                None
            },
            None => None,
        }
    } else {
        None
    }
}

/// How many captures a pattern has.
pub open spec fn capture_count(tokens: Seq<TokenView>) -> nat
    decreases tokens.len(),
{
    if tokens.len() == 0 {
        0
    } else if tokens.first() is Capture {
        capture_count(tokens.drop_first()) + 1
    } else {
        capture_count(tokens.drop_first())
    }
}

/// The names of the captures of a pattern, in order.
pub open spec fn capture_names(tokens: Seq<TokenView>) -> Seq<Seq<char>>
    decreases tokens.len(),
{
    if tokens.len() == 0 {
        Seq::empty()
    } else {
        match tokens.first() {
            TokenView::Capture(name) => Seq::empty().push(name) + capture_names(
                tokens.drop_first(),
            ),
            TokenView::Literal(_) => capture_names(tokens.drop_first()),
        }
    }
}

/// What a capture may hold: one or more characters, none of them a `/`.
pub open spec fn capturable(value: Seq<char>) -> bool {
    value.len() > 0 && forall|i: int| 0 <= i < value.len() ==> value[i] != '/'
}

/// The length of the longest beginning of a text that holds no `/`.
pub open spec fn segment_length(text: Seq<char>) -> nat
    decreases text.len(),
{
    if text.len() == 0 || text[0] == '/' {
        0
    } else {
        segment_length(text.drop_first()) + 1
    }
}

/// What the captures of a pattern hold when the pattern is matched against
/// all of `path`, or nothing where the path does not match. Where more than
/// one choice matches, each capture takes as much as it can, the earlier
/// before the later.
pub open spec fn captures_of(tokens: Seq<TokenView>, path: Seq<char>) -> Option<Seq<Seq<char>>>
    decreases tokens.len(), 0nat, 0nat,
{
    if tokens.len() == 0 {
        if path.len() == 0 {
            Some(Seq::empty())
        } else {
            None
        }
    } else {
        match tokens[0] {
            TokenView::Literal(c) => if path.len() > 0 && path[0] == c {
                captures_of(tokens.drop_first(), path.drop_first())
            } else {
                None
            },
            TokenView::Capture(_) => longest_capture(
                tokens.drop_first(),
                path,
                segment_length(path),
            ),
        }
    }
}

/// The choice for a capture that is followed by `rest`: the longest
/// beginning of `path`, of at most `length` characters and at least one,
/// after which `rest` matches what is left.
pub open spec fn longest_capture(rest: Seq<TokenView>, path: Seq<char>, length: nat) -> Option<
    Seq<Seq<char>>,
>
    decreases rest.len(), 1nat, length,
{
    if length == 0 || length > path.len() {
        None
    } else {
        match captures_of(rest, path.skip(length as int)) {
            Some(values) => Some(seq![path.take(length as int)] + values),
            None => longest_capture(rest, path, (length - 1) as nat),
        }
    }
}

/// Whether all of a path matches a pattern.
pub open spec fn pattern_matches(tokens: Seq<TokenView>, path: Seq<char>) -> bool {
    captures_of(tokens, path) is Some
}

/// Reads the token that stands at `from`, and says where the next one starts.
fn next_token(template: &str, chars: &Vec<char>, from: usize) -> (read: (Token, usize))
    requires
        chars@ == template@,
        from < chars@.len(),
    ensures
        from < read.1 <= chars@.len(),
        parse_template(chars@.skip(from as int)) == Seq::empty().push(read.0@) + parse_template(
            chars@.skip(read.1 as int),
        ),
{
    let n = chars.len();
    let ghost rest = chars@.skip(from as int);
    assert(rest.first() == chars@[from as int]);
    assert(rest.skip(1) =~= chars@.skip(from + 1));
    let c = chars[from];
    if c == '{' {
        match find_from(chars, from + 1, '}') {
            Some(close) => {
                proof {
                    lemma_first_index_of(rest.skip(1), '}');
                    assert(closing_brace(rest) == Some(close - from));
                    assert(rest.subrange(1, close - from) =~= template@.subrange(
                        from + 1,
                        close as int,
                    ));
                    assert(rest.skip(close - from + 1) =~= chars@.skip(close + 1));
                }
                let name = String::from_str(template.substring_char(from + 1, close));
                (Token::Capture(name), close + 1)
            },
            None => {
                assert(closing_brace(rest) is None);
                (Token::Literal('{'), from + 1)
            },
        }
    } else {
        assert(closing_brace(rest) is None);
        (Token::Literal(c), from + 1)
    }
}

/// Reads a template as a pattern: see [`parse_template`].
pub fn compile_template(template: &str) -> (tokens: Vec<Token>)
    ensures
        views(tokens@) == parse_template(template@),
{
    let chars = chars_of(template);
    let n = chars.len();
    let mut tokens: Vec<Token> = Vec::new();
    let mut i: usize = 0;
    assert(chars@.skip(0) =~= chars@);
    assert(views(tokens@) + parse_template(chars@) =~= parse_template(chars@));
    while i < n
        invariant
            n == chars@.len(),
            chars@ == template@,
            i <= n,
            views(tokens@) + parse_template(chars@.skip(i as int)) == parse_template(chars@),
        decreases n - i,
    {
        let ghost before = views(tokens@);
        let (token, next) = next_token(template, &chars, i);
        proof {
            let after = parse_template(chars@.skip(next as int));
            assert(views(tokens@.push(token)) =~= before.push(token@));
            assert(before.push(token@) + after =~= before + (Seq::empty().push(token@) + after));
        }
        tokens.push(token);
        i = next;
    }
    assert(views(tokens@) + Seq::<TokenView>::empty() =~= views(tokens@));
    tokens
}

/// Counts the captures of a pattern.
pub fn count_captures(tokens: &Vec<Token>) -> (count: usize)
    ensures
        count == capture_count(views(tokens@)),
{
    let ghost all = views(tokens@);
    let mut count: usize = 0;
    let mut i: usize = 0;
    assert(all.skip(0) =~= all);
    while i < tokens.len()
        invariant
            i <= tokens@.len(),
            all == views(tokens@),
            count <= i,
            count + capture_count(all.skip(i as int)) == capture_count(all),
        decreases tokens@.len() - i,
    {
        assert(all.skip(i as int).drop_first() =~= all.skip(i + 1));
        assert(all.skip(i as int).first() == tokens@[i as int]@);
        match &tokens[i] {
            Token::Capture(_) => {
                count += 1;
            },
            Token::Literal(_) => {},
        }
        i += 1;
    }
    count
}

/// The names of the captures of a pattern, in order.
pub fn names_of_captures(tokens: &Vec<Token>) -> (names: Vec<String>)
    ensures
        views(names@) == capture_names(views(tokens@)),
{
    let ghost all = views(tokens@);
    let mut names: Vec<String> = Vec::new();
    let mut i: usize = 0;
    assert(all.skip(0) =~= all);
    assert(views(names@) + capture_names(all) =~= capture_names(all));
    while i < tokens.len()
        invariant
            i <= tokens@.len(),
            all == views(tokens@),
            views(names@) + capture_names(all.skip(i as int)) == capture_names(all),
        decreases tokens@.len() - i,
    {
        assert(all.skip(i as int).drop_first() =~= all.skip(i + 1));
        assert(all.skip(i as int).first() == tokens@[i as int]@);
        match &tokens[i] {
            Token::Capture(name) => {
                let ghost before = views(names@);
                let ghost after = capture_names(all.skip(i + 1));
                let copy = name.clone();
                assert(views(names@.push(copy)) =~= before.push(name@));
                assert(before.push(name@) + after =~= before + (Seq::empty().push(name@) + after));
                names.push(copy);
            },
            Token::Literal(_) => {},
        }
        i += 1;
    }
    assert(views(names@) + Seq::<Seq<char>>::empty() =~= views(names@));
    names
}

} // verus!
