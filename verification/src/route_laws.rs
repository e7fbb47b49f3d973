//! What holds of matching: what a match captures can be put back into the
//! pattern to give the path, every path that can be made from a pattern
//! matches it, and where no segment holds more than one capture, the
//! captures of a path made from values are those values.

use vstd::prelude::*;
use crate::pattern::{
    capturable, capture_count, capture_names, captures_of, longest_capture, pattern_matches,
    segment_length, TokenView,
};
use crate::request::{pair_up, path_attributes};

verus! {

/// The path that a pattern writes when each capture is replaced by a value,
/// in order.
pub open spec fn instantiate(tokens: Seq<TokenView>, values: Seq<Seq<char>>) -> Seq<char>
    decreases tokens.len(),
{
    if tokens.len() == 0 {
        Seq::empty()
    } else {
        match tokens.first() {
            TokenView::Literal(c) => Seq::empty().push(c) + instantiate(
                tokens.drop_first(),
                values,
            ),
            TokenView::Capture(_) => if values.len() > 0 {
                values.first() + instantiate(tokens.drop_first(), values.drop_first())
            } else {
                instantiate(tokens.drop_first(), values)
            },
        }
    }
}

/// There is one value for each capture, and each is one that a capture may
/// hold.
pub open spec fn fits(tokens: Seq<TokenView>, values: Seq<Seq<char>>) -> bool {
    &&& values.len() == capture_count(tokens)
    &&& forall|i: int| 0 <= i < values.len() ==> capturable(#[trigger] values[i])
}

/// No segment of the pattern, that is no stretch of it between one `/` and
/// the next, holds more than one capture. `seen` says whether the segment
/// that the pattern starts in holds a capture already.
pub open spec fn one_capture_per_segment(tokens: Seq<TokenView>, seen: bool) -> bool
    decreases tokens.len(),
{
    if tokens.len() == 0 {
        true
    } else {
        match tokens.first() {
            TokenView::Literal(c) => one_capture_per_segment(
                tokens.drop_first(),
                if c == '/' {
                    false
                } else {
                    seen
                },
            ),
            TokenView::Capture(_) => !seen && one_capture_per_segment(tokens.drop_first(), true),
        }
    }
}

/// How many literal characters other than `/` a pattern starts with.
pub open spec fn literal_run(tokens: Seq<TokenView>) -> nat
    decreases tokens.len(),
{
    if tokens.len() == 0 {
        0
    } else {
        match tokens.first() {
            TokenView::Literal(c) => if c == '/' {
                0
            } else {
                literal_run(tokens.drop_first()) + 1
            },
            TokenView::Capture(_) => 0,
        }
    }
}

/// The first `length` characters of a text hold no `/`, where `length` is at
/// most the length of its first segment.
pub proof fn lemma_segment_prefix(text: Seq<char>, length: nat)
    requires
        length <= segment_length(text),
    ensures
        length <= text.len(),
        forall|i: int| 0 <= i < length ==> text[i] != '/',
    decreases text.len(),
{
    if length > 0 {
        lemma_segment_prefix(text.drop_first(), (length - 1) as nat);
        assert forall|i: int| 0 <= i < length implies text[i] != '/' by {
            if i > 0 {
                assert(text[i] == text.drop_first()[i - 1]);
            }
        }
    }
}

/// A beginning of a text that holds no `/` is no longer than its first
/// segment, and is that segment where a `/` or the end follows it.
pub proof fn lemma_segment_reaches(text: Seq<char>, length: nat)
    requires
        length <= text.len(),
        forall|i: int| 0 <= i < length ==> text[i] != '/',
    ensures
        length <= segment_length(text),
        length == text.len() || text[length as int] == '/' ==> segment_length(text) == length,
    decreases length,
{
    if length > 0 {
        let rest = text.drop_first();
        assert forall|i: int| 0 <= i < length - 1 implies rest[i] != '/' by {
            assert(rest[i] == text[i + 1]);
        }
        lemma_segment_reaches(rest, (length - 1) as nat);
        if length < text.len() {
            assert(rest[length - 1] == text[length as int]);
        }
    }
}

/// The names of a pattern's captures are as many as its captures.
pub proof fn lemma_names_count(tokens: Seq<TokenView>)
    ensures
        capture_names(tokens).len() == capture_count(tokens),
    decreases tokens.len(),
{
    if tokens.len() > 0 {
        lemma_names_count(tokens.drop_first());
    }
}

/// What a match captures fits the pattern, and put back into the pattern it
/// gives the path.
pub proof fn lemma_captures_sound(tokens: Seq<TokenView>, path: Seq<char>)
    requires
        captures_of(tokens, path) is Some,
    ensures
        fits(tokens, captures_of(tokens, path)->Some_0),
        instantiate(tokens, captures_of(tokens, path)->Some_0) == path,
    decreases tokens.len(), 0nat, 0nat,
{
    if tokens.len() == 0 {
        assert(path =~= Seq::empty());
    } else {
        match tokens.first() {
            TokenView::Literal(c) => {
                lemma_captures_sound(tokens.drop_first(), path.drop_first());
                assert(Seq::empty().push(c) + path.drop_first() =~= path);
            },
            TokenView::Capture(_) => {
                lemma_longest_sound(tokens.drop_first(), path, segment_length(path));
            },
        }
    }
}

proof fn lemma_longest_sound(rest: Seq<TokenView>, path: Seq<char>, length: nat)
    requires
        longest_capture(rest, path, length) is Some,
        length <= segment_length(path),
    ensures
        ({
            let values = longest_capture(rest, path, length)->Some_0;
            &&& values.len() == capture_count(rest) + 1
            &&& forall|i: int| 0 <= i < values.len() ==> capturable(#[trigger] values[i])
            &&& values.first() + instantiate(rest, values.drop_first()) == path
        }),
    decreases rest.len(), 1nat, length,
{
    let tail = path.skip(length as int);
    match captures_of(rest, tail) {
        Some(found) => {
            lemma_captures_sound(rest, tail);
            lemma_segment_prefix(path, length);
            let head = path.take(length as int);
            let values = Seq::empty().push(head) + found;
            assert(values.drop_first() =~= found);
            assert(head + tail =~= path);
            assert forall|i: int| 0 <= i < values.len() implies capturable(
                #[trigger] values[i],
            ) by {
                if i > 0 {
                    assert(values[i] == found[i - 1]);
                }
            }
        },
        None => {
            lemma_longest_sound(rest, path, (length - 1) as nat);
        },
    }
}

proof fn lemma_longest_finds(rest: Seq<TokenView>, path: Seq<char>, length: nat, at: nat)
    requires
        1 <= at <= length <= path.len(),
        captures_of(rest, path.skip(at as int)) is Some,
    ensures
        longest_capture(rest, path, length) is Some,
    decreases length,
{
    if captures_of(rest, path.skip(length as int)) is None {
        lemma_longest_finds(rest, path, (length - 1) as nat, at);
    }
}

/// Every path that a pattern writes with fitting values matches the pattern.
pub proof fn lemma_captures_complete(tokens: Seq<TokenView>, values: Seq<Seq<char>>)
    requires
        fits(tokens, values),
    ensures
        pattern_matches(tokens, instantiate(tokens, values)),
    decreases tokens.len(),
{
    let path = instantiate(tokens, values);
    if tokens.len() > 0 {
        let rest = tokens.drop_first();
        match tokens.first() {
            TokenView::Literal(c) => {
                lemma_captures_complete(rest, values);
                assert(path.drop_first() =~= instantiate(rest, values));
            },
            TokenView::Capture(_) => {
                let head = values.first();
                let others = values.drop_first();
                assert(capturable(values[0]));
                assert forall|i: int| 0 <= i < others.len() implies capturable(
                    #[trigger] others[i],
                ) by {
                    assert(others[i] == values[i + 1]);
                }
                lemma_captures_complete(rest, others);
                let tail = instantiate(rest, others);
                assert(path.skip(head.len() as int) =~= tail);
                assert forall|i: int| 0 <= i < head.len() implies path[i] != '/' by {
                    assert(path[i] == head[i]);
                }
                lemma_segment_reaches(path, head.len());
                lemma_segment_prefix(path, segment_length(path));
                lemma_longest_finds(rest, path, segment_length(path), head.len());
            },
        }
    }
}

/// In a segment that holds a capture already, what the rest of the pattern
/// writes starts with its run of literal characters, and after them it ends
/// or goes on with a `/`.
proof fn lemma_run_shape(rest: Seq<TokenView>, values: Seq<Seq<char>>)
    requires
        one_capture_per_segment(rest, true),
    ensures
        literal_run(rest) <= rest.len(),
        literal_run(rest) <= instantiate(rest, values).len(),
        forall|j: int|
            0 <= j < literal_run(rest) ==> (#[trigger] rest[j]) is Literal && rest[j]->Literal_0
                != '/' && instantiate(rest, values)[j] != '/',
        instantiate(rest, values).len() == literal_run(rest) || instantiate(
            rest,
            values,
        )[literal_run(rest) as int] == '/',
    decreases rest.len(),
{
    if rest.len() > 0 {
        match rest.first() {
            TokenView::Literal(c) => {
                if c != '/' {
                    let after = rest.drop_first();
                    lemma_run_shape(after, values);
                    let text = instantiate(rest, values);
                    let tail = instantiate(after, values);
                    assert(text =~= Seq::empty().push(c) + tail);
                    assert forall|j: int| 0 <= j < literal_run(rest) implies (#[trigger] rest[j])
                        is Literal && rest[j]->Literal_0 != '/' && text[j] != '/' by {
                        if j > 0 {
                            assert(rest[j] == after[j - 1]);
                            assert(text[j] == tail[j - 1]);
                        }
                    }
                    if tail.len() != literal_run(after) {
                        assert(text[literal_run(rest) as int] == tail[literal_run(after) as int]);
                    }
                }
            },
            TokenView::Capture(_) => {},
        }
    }
}

/// A text that ends, or goes on with a `/`, before a pattern's run of
/// literal characters is through does not match the pattern.
proof fn lemma_run_too_long(rest: Seq<TokenView>, text: Seq<char>, run: nat, have: nat)
    requires
        run <= rest.len(),
        forall|j: int| 0 <= j < run ==> (#[trigger] rest[j]) is Literal && rest[j]->Literal_0 != '/',
        have < run,
        have <= text.len(),
        text.len() == have || text[have as int] == '/',
    ensures
        captures_of(rest, text) is None,
    decreases have,
{
    assert(rest[0] is Literal && rest[0]->Literal_0 != '/');
    if have > 0 && text[0] == rest[0]->Literal_0 {
        let after = rest.drop_first();
        let tail = text.drop_first();
        assert forall|j: int| 0 <= j < run - 1 implies (#[trigger] after[j]) is Literal
            && after[j]->Literal_0 != '/' by {
            assert(after[j] == rest[j + 1]);
        }
        if text.len() != have {
            assert(tail[have - 1] == text[have as int]);
        }
        lemma_run_too_long(after, tail, (run - 1) as nat, (have - 1) as nat);
    }
}

/// Where no length above `low` up to `high` lets the rest match, trying from
/// `high` down gives what trying from `low` down gives.
proof fn lemma_longest_skips(rest: Seq<TokenView>, path: Seq<char>, high: nat, low: nat)
    requires
        low <= high <= path.len(),
        forall|k: int| low < k <= high ==> captures_of(rest, #[trigger] path.skip(k)) is None,
    ensures
        longest_capture(rest, path, high) == longest_capture(rest, path, low),
    decreases high,
{
    if low < high {
        assert(captures_of(rest, path.skip(high as int)) is None);
        lemma_longest_skips(rest, path, (high - 1) as nat, low);
    }
}

proof fn lemma_round_trip(tokens: Seq<TokenView>, values: Seq<Seq<char>>, seen: bool)
    requires
        fits(tokens, values),
        one_capture_per_segment(tokens, seen),
    ensures
        captures_of(tokens, instantiate(tokens, values)) == Some(values),
    decreases tokens.len(),
{
    let path = instantiate(tokens, values);
    if tokens.len() == 0 {
        assert(values =~= Seq::empty());
    } else {
        let rest = tokens.drop_first();
        match tokens.first() {
            TokenView::Literal(c) => {
                lemma_round_trip(rest, values, if c == '/' {
                    false
                } else {
                    seen
                });
                assert(path.drop_first() =~= instantiate(rest, values));
                assert(path[0] == c);
            },
            TokenView::Capture(_) => {
                let head = values.first();
                let others = values.drop_first();
                assert(capturable(values[0]));
                assert forall|i: int| 0 <= i < others.len() implies capturable(
                    #[trigger] others[i],
                ) by {
                    assert(others[i] == values[i + 1]);
                }
                lemma_round_trip(rest, others, true);
                let tail = instantiate(rest, others);
                let run = literal_run(rest);
                let whole = head.len() + run;
                lemma_run_shape(rest, others);
                assert(path =~= head + tail);
                assert(path.skip(head.len() as int) =~= tail);
                assert(path.take(head.len() as int) =~= head);
                assert forall|i: int| 0 <= i < whole implies path[i] != '/' by {
                    if i < head.len() {
                        assert(path[i] == head[i]);
                        assert(head[i] != '/');
                    } else {
                        let j = i - head.len();
                        assert(path[i] == tail[j]);
                        assert(rest[j] is Literal);
                    }
                }
                if path.len() != whole {
                    assert(path[whole as int] == tail[run as int]);
                }
                lemma_segment_reaches(path, whole);
                assert forall|k: int| head.len() < k <= whole implies captures_of(
                    rest,
                    #[trigger] path.skip(k),
                ) is None by {
                    let text = path.skip(k);
                    let have = (whole - k) as nat;
                    assert(text =~= tail.skip(k - head.len()));
                    if text.len() != have {
                        assert(text[have as int] == tail[run as int]);
                    }
                    lemma_run_too_long(rest, text, run, have);
                }
                lemma_longest_skips(rest, path, whole, head.len());
                assert(captures_of(rest, path.skip(head.len() as int)) == Some(others));
                assert(seq![head] + others =~= values);
                assert(longest_capture(rest, path, head.len()) == Some(values));
            },
        }
    }
}

/// Where no segment of a pattern holds more than one capture, and a path is
/// made by putting one value into each capture, each value not empty and
/// without `/`, then the attributes of the path are those values under the
/// names of the captures: as many as the pattern has captures.
pub proof fn lemma_capture_round_trip(tokens: Seq<TokenView>, values: Seq<Seq<char>>)
    requires
        fits(tokens, values),
        one_capture_per_segment(tokens, false),
    ensures
        path_attributes(tokens, instantiate(tokens, values)) == pair_up(
            capture_names(tokens),
            values,
        ),
        path_attributes(tokens, instantiate(tokens, values)).len() == capture_count(tokens),
{
    lemma_round_trip(tokens, values, false);
    lemma_names_count(tokens);
}

} // verus!
