//! Matching a path against a route pattern.

use vstd::prelude::*;
use crate::document::views;
use crate::pattern::{captures_of, longest_capture, segment_length, Token};

verus! {

/// The pieces of a text that a list of spans marks.
pub open spec fn span_values(text: Seq<char>, spans: Seq<(usize, usize)>) -> Seq<Seq<char>> {
    Seq::new(spans.len(), |i: int| text.subrange(spans[i].0 as int, spans[i].1 as int))
}

/// Every span lies within a text of the given length.
pub open spec fn spans_within(spans: Seq<(usize, usize)>, length: nat) -> bool {
    forall|i: int| 0 <= i < spans.len() ==> (#[trigger] spans[i]).0 <= spans[i].1 <= length
}

/// Counts the characters from `from` up to the next `/` or the end.
fn segment_run(chars: &Vec<char>, from: usize) -> (run: usize)
    requires
        from <= chars@.len(),
    ensures
        from + run <= chars@.len(),
        run == segment_length(chars@.skip(from as int)),
{
    let n = chars.len();
    let mut end: usize = from;
    proof {
        assert(chars@.skip(from as int).skip(0) =~= chars@.skip(from as int));
    }
    while end < n && chars[end] != '/'
        invariant
            n == chars@.len(),
            from <= end <= n,
            segment_length(chars@.skip(from as int)) == (end - from) + segment_length(
                chars@.skip(end as int),
            ),
        decreases n - end,
    {
        proof {
            let rest = chars@.skip(end as int);
            assert(rest[0] == chars@[end as int]);
            assert(rest.drop_first() =~= chars@.skip(end + 1));
        }
        end += 1;
    }
    proof {
        let rest = chars@.skip(end as int);
        if end < n {
            assert(rest[0] == chars@[end as int]);
        }
    }
    end - from
}

/// Matches the tokens from `at` on against the characters from `from` on.
/// Where they match, `spans` grows by the place of each capture; where they
/// do not, it is left as it was.
pub fn match_from(
    tokens: &Vec<Token>,
    at: usize,
    chars: &Vec<char>,
    from: usize,
    spans: &mut Vec<(usize, usize)>,
) -> (matched: bool)
    requires
        at <= tokens@.len(),
        from <= chars@.len(),
        spans_within(old(spans)@, chars@.len()),
    ensures
        matched == captures_of(views(tokens@).skip(at as int), chars@.skip(from as int)) is Some,
        spans_within(final(spans)@, chars@.len()),
        matched ==> span_values(chars@, final(spans)@) == span_values(chars@, old(spans)@)
            + captures_of(views(tokens@).skip(at as int), chars@.skip(from as int))->Some_0,
        !matched ==> final(spans)@ == old(spans)@,
    decreases tokens@.len() - at,
{
    let ghost pattern = views(tokens@);
    let ghost goal = captures_of(pattern.skip(at as int), chars@.skip(from as int));
    let n = chars.len();
    let mut t: usize = at;
    let mut p: usize = from;
    while t < tokens.len()
        invariant
            n == chars@.len(),
            pattern == views(tokens@),
            at <= t <= tokens@.len(),
            from <= p <= n,
            spans@ == old(spans)@,
            spans_within(spans@, chars@.len()),
            goal == captures_of(pattern.skip(at as int), chars@.skip(from as int)),
            captures_of(pattern.skip(t as int), chars@.skip(p as int)) == goal,
        decreases tokens@.len() - t,
    {
        let ghost rest = pattern.skip(t as int);
        let ghost path = chars@.skip(p as int);
        proof {
            assert(rest[0] == tokens@[t as int]@);
            assert(rest.drop_first() =~= pattern.skip(t + 1));
            if p < n {
                assert(path[0] == chars@[p as int]);
                assert(path.drop_first() =~= chars@.skip(p + 1));
            }
        }
        match &tokens[t] {
            Token::Literal(c) => {
                if p < n && chars[p] == *c {
                    t += 1;
                    p += 1;
                } else {
                    return false;
                }
            },
            Token::Capture(_) => {
                let run = segment_run(chars, p);
                let mut length: usize = run;
                while length > 0
                    invariant
                        n == chars@.len(),
                        pattern == views(tokens@),
                        at <= t < tokens@.len(),
                        tokens@.len() <= usize::MAX,
                        p + run <= n,
                        length <= run,
                        rest == pattern.skip(t as int),
                        path == chars@.skip(p as int),
                        spans@ == old(spans)@,
                        spans_within(spans@, chars@.len()),
                        goal == captures_of(pattern.skip(at as int), chars@.skip(from as int)),
                        longest_capture(rest.drop_first(), path, length as nat) == goal,
                    decreases length,
                {
                    let ghost before = spans@;
                    spans.push((p, p + length));
                    proof {
                        assert(path.len() == n - p);
                        assert(path.skip(length as int) =~= chars@.skip(p + length));
                        assert(path.take(length as int) =~= chars@.subrange(
                            p as int,
                            p + length,
                        ));
                        assert(rest.drop_first() =~= pattern.skip(t + 1));
                        assert(span_values(chars@, spans@) =~= span_values(chars@, before).push(
                            path.take(length as int),
                        ));
                    }
                    if match_from(tokens, t + 1, chars, p + length, spans) {
                        proof {
                            let values = captures_of(
                                rest.drop_first(),
                                path.skip(length as int),
                            )->Some_0;
                            assert(span_values(chars@, before).push(path.take(length as int))
                                + values =~= span_values(chars@, before) + (seq![
                                path.take(length as int),
                            ] + values));
                        }
                        return true;
                    }
                    spans.pop();
                    assert(spans@ =~= before);
                    length -= 1;
                }
                return false;
            },
        }
    }
    proof {
        assert(pattern.skip(t as int).len() == 0);
        if p == n {
            assert(span_values(chars@, spans@) + Seq::<Seq<char>>::empty() =~= span_values(
                chars@,
                spans@,
            ));
        }
    }
    p == n
}

} // verus!
