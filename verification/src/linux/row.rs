//! One row of a limits table: where its label ends and which of its words
//! are the limits.

use vstd::prelude::*;
use crate::text::{split_whitespace, texts, trim, trimmed, words};

verus! {

/// The number of characters at the start of a row that belong to its label.
/// The limits begin behind them.
pub const LABEL_WIDTH: usize = 26;

/// The label, the soft limit and the hard limit of the row `line`.
///
/// The label is what the first [`LABEL_WIDTH`] characters hold between their
/// white space. The limits are the first two words behind those characters;
/// a third word, the unit, is not looked at. A line that is shorter than
/// the label's width, or has fewer than two words behind it, is no row.
pub open spec fn row_fields(line: Seq<char>) -> Option<(Seq<char>, Seq<char>, Seq<char>)> {
    if line.len() < LABEL_WIDTH {
        None
    } else {
        let values = words(line.skip(LABEL_WIDTH as int));
        if values.len() < 2 {
            None
        } else {
            Some((trimmed(line.take(LABEL_WIDTH as int)), values[0], values[1]))
        }
    }
}

/// Splits a row into its label, its soft limit and its hard limit, each a
/// part of `line`. Gives `None` exactly for the lines that are no rows.
pub fn split_row<'a>(line: &'a str) -> (fields: Option<(&'a str, &'a str, &'a str)>)
    ensures
        match fields {
            Some((label, soft, hard)) => row_fields(line@) == Some((label@, soft@, hard@)),
            None => row_fields(line@) is None,
        },
{
    let n = line.unicode_len();
    if n < LABEL_WIDTH {
        return None;
    }
    let label = trim(line.substring_char(0, LABEL_WIDTH));
    let values = split_whitespace(line.substring_char(LABEL_WIDTH, n));
    assert(line@.take(LABEL_WIDTH as int) == line@.subrange(0, LABEL_WIDTH as int));
    assert(line@.skip(LABEL_WIDTH as int) == line@.subrange(LABEL_WIDTH as int, n as int));
    if values.len() < 2 {
        assert(texts(values@).len() == values@.len());
        return None;
    }
    let soft = values[0];
    let hard = values[1];
    assert(texts(values@)[0] == soft@);
    assert(texts(values@)[1] == hard@);
    Some((label, soft, hard))
}

} // verus!
