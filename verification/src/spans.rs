//! Where the words of a text lie, told from its white space alone.
//!
//! A text is seen here as one flag for each of its characters: `true` where
//! the character is white space. A span `(from, to)` stands for the
//! positions `from`, `from + 1`, up to but without `to`.

use vstd::prelude::*;

verus! {

/// The first position at or behind `from` that holds no white space, or the
/// length of `white` where there is none.
pub open spec fn skip_white(white: Seq<bool>, from: int) -> int
    decreases white.len() - from,
{
    if 0 <= from < white.len() && white[from] {
        skip_white(white, from + 1)
    } else {
        from
    }
}

/// The first position at or behind `from` that holds white space, or the
/// length of `white` where there is none.
pub open spec fn word_end(white: Seq<bool>, from: int) -> int
    decreases white.len() - from,
{
    if 0 <= from < white.len() && !white[from] {
        word_end(white, from + 1)
    } else {
        from
    }
}

/// The end of what is left of the span `(from, to)` once the white space at
/// its end is taken off.
pub open spec fn back_over_white(white: Seq<bool>, from: int, to: int) -> int
    decreases to - from,
{
    if from < to <= white.len() && white[to - 1] {
        back_over_white(white, from, to - 1)
    } else {
        to
    }
}

/// The span that is left of the whole text once the white space at both
/// ends is taken off. Of a text that is white space all through, the empty
/// span at its end is left.
pub open spec fn trim_span(white: Seq<bool>) -> (int, int) {
    let from = skip_white(white, 0);
    (from, back_over_white(white, from, white.len() as int))
}

/// The spans of the words that begin at or behind `from`, in their order. A
/// word is a run of positions without white space that is as long as it
/// can be.
pub open spec fn word_spans(white: Seq<bool>, from: int) -> Seq<(int, int)>
    decreases white.len() - from,
    via word_spans_decreases
{
    if !(0 <= from < white.len()) {
        Seq::empty()
    } else if white[from] {
        word_spans(white, from + 1)
    } else {
        seq![(from, word_end(white, from))] + word_spans(white, word_end(white, from))
    }
}

#[via_fn]
proof fn word_spans_decreases(white: Seq<bool>, from: int) {
    if 0 <= from < white.len() && !white[from] {
        lemma_word_end(white, from + 1);
    }
}

/// Spans of machine integers as spans of integers.
pub open spec fn as_spans(bounds: Seq<(usize, usize)>) -> Seq<(int, int)> {
    bounds.map_values(|b: (usize, usize)| (b.0 as int, b.1 as int))
}

/// Finds the span that is left of a text once the white space at both ends
/// is taken off.
pub fn trim_bounds(white: &[bool]) -> (span: (usize, usize))
    ensures
        (span.0 as int, span.1 as int) == trim_span(white@),
        span.0 <= span.1 <= white@.len(),
{
    let n = white.len();
    let mut from: usize = 0;
    while from < n && white[from]
        invariant
            n == white@.len(),
            from <= n,
            skip_white(white@, 0) == skip_white(white@, from as int),
        decreases n - from,
    {
        from += 1;
    }
    let mut to: usize = n;
    while to > from && white[to - 1]
        invariant
            n == white@.len(),
            from <= to <= n,
            back_over_white(white@, from as int, n as int) == back_over_white(
                white@,
                from as int,
                to as int,
            ),
        decreases to,
    {
        to -= 1;
    }
    (from, to)
}

/// Finds the spans of the words of a text, in their order. No span is
/// empty and none reaches beyond the text.
pub fn word_bounds(white: &[bool]) -> (bounds: Vec<(usize, usize)>)
    ensures
        as_spans(bounds@) == word_spans(white@, 0),
        forall|k: int| 0 <= k < bounds@.len() ==> (#[trigger] bounds@[k]).0 < bounds@[k].1 <= white@.len(),
{
    let n = white.len();
    let mut bounds: Vec<(usize, usize)> = Vec::new();
    let mut i: usize = 0;
    while i < n
        invariant
            n == white@.len(),
            i <= n,
            word_spans(white@, 0) == as_spans(bounds@) + word_spans(white@, i as int),
            forall|k: int| 0 <= k < bounds@.len() ==> (#[trigger] bounds@[k]).0 < bounds@[k].1 <= n,
        decreases n - i,
    {
        if white[i] {
            i += 1;
        } else {
            let start = i;
            let mut end = i + 1;
            while end < n && !white[end]
                invariant
                    n == white@.len(),
                    start < end <= n,
                    word_end(white@, start as int) == word_end(white@, end as int),
                decreases n - end,
            {
                end += 1;
            }
            assert(as_spans(bounds@.push((start, end))) == as_spans(bounds@) + seq![
                (start as int, end as int),
            ]);
            bounds.push((start, end));
            i = end;
        }
    }
    bounds
}

/// Whether `(from, to)` is what is left of a text once the white space at
/// both ends is taken off: white space all through before `from` and from
/// `to` on, none at `from` and none just before `to`, and the empty span at
/// the end where the text is white space all through.
pub open spec fn is_trim_span(white: Seq<bool>, from: int, to: int) -> bool {
    &&& 0 <= from <= to <= white.len()
    &&& forall|i: int| 0 <= i < from ==> white[i]
    &&& forall|i: int| to <= i < white.len() ==> white[i]
    &&& from < to ==> !white[from] && !white[to - 1]
    &&& from == to ==> to == white.len()
}

/// Whether `(from, to)` is a word: a run of positions without white space,
/// not empty, that white space or an end of the text bounds on either side.
pub open spec fn is_word_span(white: Seq<bool>, from: int, to: int) -> bool {
    &&& 0 <= from < to <= white.len()
    &&& forall|i: int| from <= i < to ==> !white[i]
    &&& from > 0 ==> white[from - 1]
    &&& to < white.len() ==> white[to]
}

/// Whether the position `i` lies in one of `spans`.
pub open spec fn covered(spans: Seq<(int, int)>, i: int) -> bool {
    exists|k: int| 0 <= k < spans.len() && (#[trigger] spans[k]).0 <= i < spans[k].1
}

/// Skipping white space passes white space only and stops at the first
/// position without it.
pub proof fn lemma_skip_white(white: Seq<bool>, from: int)
    requires
        0 <= from <= white.len(),
    ensures
        from <= skip_white(white, from) <= white.len(),
        forall|i: int| from <= i < skip_white(white, from) ==> white[i],
        skip_white(white, from) < white.len() ==> !white[skip_white(white, from)],
    decreases white.len() - from,
{
    if from < white.len() && white[from] {
        lemma_skip_white(white, from + 1);
    }
}

/// Skipping a word passes no white space and stops at the first white
/// space.
pub proof fn lemma_word_end(white: Seq<bool>, from: int)
    requires
        0 <= from <= white.len(),
    ensures
        from <= word_end(white, from) <= white.len(),
        forall|i: int| from <= i < word_end(white, from) ==> !white[i],
        word_end(white, from) < white.len() ==> white[word_end(white, from)],
    decreases white.len() - from,
{
    if from < white.len() && !white[from] {
        lemma_word_end(white, from + 1);
    }
}

/// Going back over white space passes white space only and stops behind the
/// last position without it.
pub proof fn lemma_back_over_white(white: Seq<bool>, from: int, to: int)
    requires
        0 <= from <= to <= white.len(),
    ensures
        from <= back_over_white(white, from, to) <= to,
        forall|i: int| back_over_white(white, from, to) <= i < to ==> white[i],
        from < back_over_white(white, from, to) ==> !white[back_over_white(white, from, to) - 1],
    decreases to - from,
{
    if from < to && white[to - 1] {
        lemma_back_over_white(white, from, to - 1);
    }
}

/// Trimming leaves a span with no white space at its ends and takes off
/// white space only.
pub proof fn lemma_trim_span_is_tight(white: Seq<bool>)
    ensures
        is_trim_span(white, trim_span(white).0, trim_span(white).1),
{
    let from = skip_white(white, 0);
    lemma_skip_white(white, 0);
    lemma_back_over_white(white, from, white.len() as int);
}

/// Only one span is what trimming leaves.
pub proof fn lemma_trim_span_is_unique(white: Seq<bool>, from: int, to: int)
    requires
        is_trim_span(white, from, to),
    ensures
        trim_span(white) == (from, to),
{
    lemma_trim_span_is_tight(white);
    let found = trim_span(white);
    if from < found.0 {
        assert(white[from]);
    }
    if found.0 < from {
        assert(white[found.0]);
    }
    if to < found.1 {
        assert(white[found.1 - 1]);
    }
    if found.1 < to {
        assert(white[to - 1]);
    }
}

/// The spans of the words that begin at or behind `from` are words, lie
/// apart and in their order, and leave out no position without white space.
/// `from` must not lie inside a word.
pub proof fn lemma_word_spans(white: Seq<bool>, from: int)
    requires
        0 <= from <= white.len(),
        0 < from < white.len() ==> white[from - 1] || white[from],
    ensures
        forall|k: int|
            0 <= k < word_spans(white, from).len() ==> from <= (#[trigger] word_spans(
                white,
                from,
            )[k]).0 && is_word_span(white, word_spans(white, from)[k].0, word_spans(white, from)[k].1),
        forall|k: int|
            0 <= k < word_spans(white, from).len() - 1 ==> (#[trigger] word_spans(white, from)[k]).1
                < word_spans(white, from)[k + 1].0,
        forall|i: int|
            from <= i < white.len() && !white[i] ==> covered(word_spans(white, from), i),
    decreases white.len() - from,
{
    let spans = word_spans(white, from);
    if from < white.len() {
        if white[from] {
            lemma_word_spans(white, from + 1);
            assert forall|i: int| from <= i < white.len() && !white[i] implies covered(spans, i) by {
                assert(covered(word_spans(white, from + 1), i));
            }
        } else {
            let to = word_end(white, from);
            lemma_word_end(white, from);
            lemma_word_spans(white, to);
            let rest = word_spans(white, to);
            assert(spans == seq![(from, to)] + rest);
            assert(is_word_span(white, from, to));
            assert forall|k: int| 0 <= k < spans.len() implies from <= (#[trigger] spans[k]).0
                && is_word_span(white, spans[k].0, spans[k].1) by {
                if k > 0 {
                    assert(spans[k] == rest[k - 1]);
                }
            }
            assert forall|k: int| 0 <= k < spans.len() - 1 implies (#[trigger] spans[k]).1 < spans[k
                + 1].0 by {
                assert(spans[k + 1] == rest[k]);
                if k > 0 {
                    assert(spans[k] == rest[k - 1]);
                } else {
                    assert(is_word_span(white, rest[0].0, rest[0].1));
                }
            }
            assert forall|i: int| from <= i < white.len() && !white[i] implies covered(spans, i) by {
                if i < to {
                    assert(spans[0].0 <= i < spans[0].1);
                } else {
                    assert(covered(rest, i));
                    let k = choose|k: int| 0 <= k < rest.len() && (#[trigger] rest[k]).0 <= i < rest[k].1;
                    assert(spans[k + 1] == rest[k]);
                }
            }
        }
    }
}

} // verus!
