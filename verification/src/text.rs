//! Text as sequences of characters: comparison, white space, case.

use vstd::prelude::*;
use crate::spans::{
    as_spans, is_word_span, lemma_trim_span_is_tight, lemma_word_spans, trim_bounds, trim_span,
    word_bounds, word_spans,
};

verus! {

/// The characters of `s`, one by one.
pub fn chars_of(s: &str) -> (chars: Vec<char>)
    ensures
        chars@ == s@,
{
    let mut chars: Vec<char> = Vec::new();
    for c in it: s.chars()
        invariant
            it.seq() == s@,
            chars@ == it.seq().take(it.index() as int),
    {
        chars.push(c);
    }
    chars
}

/// Whether `a` and `b` hold the same characters.
pub fn str_eq(a: &str, b: &str) -> (same: bool)
    ensures
        same == (a@ == b@),
{
    let left = chars_of(a);
    let right = chars_of(b);
    if left.len() != right.len() {
        return false;
    }
    let mut i: usize = 0;
    while i < left.len()
        invariant
            left@ == a@,
            right@ == b@,
            left.len() == right.len(),
            i <= left.len(),
            a@.take(i as int) == b@.take(i as int),
        decreases left.len() - i,
    {
        if left[i] != right[i] {
            return false;
        }
        assert(a@.take(i + 1) == a@.take(i as int).push(a@[i as int]));
        assert(b@.take(i + 1) == b@.take(i as int).push(b@[i as int]));
        i += 1;
    }
    assert(a@ == a@.take(i as int));
    assert(b@ == b@.take(i as int));
    true
}

/// Whether `c` is white space: Unicode's property `White_Space`, as
/// `char::is_whitespace` answers for it. Which characters have the property
/// is left to the standard library.
pub uninterp spec fn is_whitespace(c: char) -> bool;

/// Asks `char::is_whitespace`. Its answer is what [`is_whitespace`] means;
/// nothing else is claimed of it.
#[verifier::external_body]
fn char_is_whitespace(c: char) -> (white: bool)
    ensures
        white == is_whitespace(c),
{
    c.is_whitespace()
}

/// The lower-case form of `s`, as `str::to_lowercase` gives it. The mapping
/// is Unicode's and is left to the standard library.
pub uninterp spec fn lowercase(s: Seq<char>) -> Seq<char>;

/// Calls `str::to_lowercase`. The text that comes back is what [`lowercase`]
/// means for the text that went in; nothing else is claimed of it.
#[verifier::external_body]
pub(crate) fn to_lowercase(s: &str) -> (lower: String)
    ensures
        lower@ == lowercase(s@),
{
    s.to_lowercase()
}

/// For each character of `s`, whether it is white space.
pub open spec fn whiteness(s: Seq<char>) -> Seq<bool> {
    s.map_values(|c: char| is_whitespace(c))
}

/// `s` without the white space at either end.
pub open spec fn trimmed(s: Seq<char>) -> Seq<char> {
    let span = trim_span(whiteness(s));
    s.subrange(span.0, span.1)
}

/// The words of `s` in their order: the longest runs of characters that hold
/// no white space. White space between them, before the first and after the
/// last belongs to none.
pub open spec fn words(s: Seq<char>) -> Seq<Seq<char>> {
    word_spans(whiteness(s), 0).map_values(|span: (int, int)| s.subrange(span.0, span.1))
}

/// The character sequences of a list of texts.
pub open spec fn texts<'a>(parts: Seq<&'a str>) -> Seq<Seq<char>> {
    parts.map_values(|part: &'a str| part@)
}

/// What trimming leaves is empty, or begins and ends with a character that
/// is no white space.
pub proof fn lemma_trimmed_ends(s: Seq<char>)
    ensures
        trimmed(s).len() > 0 ==> !is_whitespace(trimmed(s).first()) && !is_whitespace(
            trimmed(s).last(),
        ),
{
    lemma_trim_span_is_tight(whiteness(s));
}

/// A word is not empty and holds no white space.
pub proof fn lemma_words_hold_no_white_space(s: Seq<char>, k: int)
    requires
        0 <= k < words(s).len(),
    ensures
        words(s)[k].len() > 0,
        forall|i: int| 0 <= i < words(s)[k].len() ==> !is_whitespace(#[trigger] words(s)[k][i]),
{
    let white = whiteness(s);
    lemma_word_spans(white, 0);
    let span = word_spans(white, 0)[k];
    assert(is_word_span(white, span.0, span.1));
    assert forall|i: int| 0 <= i < words(s)[k].len() implies !is_whitespace(
        #[trigger] words(s)[k][i],
    ) by {
        assert(!white[span.0 + i]);
    }
}

/// Tells for each character of `s` whether it is white space.
pub fn whiteness_of(s: &str) -> (white: Vec<bool>)
    ensures
        white@ == whiteness(s@),
{
    let mut white: Vec<bool> = Vec::new();
    for c in it: s.chars()
        invariant
            it.seq() == s@,
            white@ == whiteness(it.seq().take(it.index() as int)),
    {
        assert(whiteness(s@.take(it.index() + 1)) == whiteness(s@.take(it.index() as int)).push(
            is_whitespace(c),
        ));
        white.push(char_is_whitespace(c));
    }
    assert(s@.take(s@.len() as int) == s@);
    white
}

/// The part of `s` between the white space at its ends.
pub fn trim<'a>(s: &'a str) -> (inner: &'a str)
    ensures
        inner@ == trimmed(s@),
{
    let white = whiteness_of(s);
    let (from, to) = trim_bounds(white.as_slice());
    s.substring_char(from, to)
}

/// The words of `s`, each a part of `s` itself.
pub fn split_whitespace<'a>(s: &'a str) -> (parts: Vec<&'a str>)
    ensures
        texts(parts@) == words(s@),
{
    let white = whiteness_of(s);
    let bounds = word_bounds(white.as_slice());
    let mut parts: Vec<&'a str> = Vec::new();
    let mut i: usize = 0;
    while i < bounds.len()
        invariant
            i <= bounds.len(),
            white@.len() == s@.len(),
            as_spans(bounds@) == word_spans(whiteness(s@), 0),
            forall|k: int|
                0 <= k < bounds@.len() ==> (#[trigger] bounds@[k]).0 < bounds@[k].1 <= white@.len(),
            parts@.len() == i,
            forall|k: int| 0 <= k < i ==> (#[trigger] parts@[k])@ == words(s@)[k],
        decreases bounds.len() - i,
    {
        let (from, to) = bounds[i];
        assert(as_spans(bounds@)[i as int] == (from as int, to as int));
        parts.push(s.substring_char(from, to));
        i += 1;
    }
    assert(texts(parts@) =~= words(s@));
    parts
}

} // verus!
