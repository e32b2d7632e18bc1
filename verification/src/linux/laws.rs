//! What holds of limits, rows and tables, whatever they are.

use vstd::prelude::*;
use crate::decimal::{
    all_digits, decimal_digits, decimal_value, is_digit, lemma_parse_in_range,
    lemma_parse_of_digits, lemma_parse_out_of_range, numeral_digits, parse_u32,
};
use crate::linux::property::Property;
use crate::linux::row::LABEL_WIDTH;
use crate::linux::{decoded, limit_value, Limit, Limits};
use crate::text::{lowercase, words};
use crate::Error;

verus! {

/// The word `unlimited` is no numeral, so what a limit says is exactly what
/// its text is worth as an unsigned 32-bit numeral.
pub proof fn lemma_limit_value_is_numeral_value(token: Seq<char>)
    ensures
        limit_value(token) == parse_u32(token),
{
    reveal_strlit("unlimited");
    if token == "unlimited"@ {
        assert(!is_digit(numeral_digits(token)[0]));
    }
}

/// A limit written as the digits of a number says that number.
pub proof fn lemma_limit_of_number(n: u32)
    ensures
        limit_value(decimal_digits(n as nat)) == Some(n),
{
    lemma_limit_value_is_numeral_value(decimal_digits(n as nat));
    lemma_parse_of_digits(n);
}

/// A limit written in digits alone says what they are worth where that is
/// no more than `u32::MAX`, and is no limit where it is more.
pub proof fn lemma_limit_of_digits(token: Seq<char>)
    requires
        token.len() > 0,
        all_digits(token),
    ensures
        decimal_value(token) <= u32::MAX ==> limit_value(token) == Some(decimal_value(token) as u32),
        decimal_value(token) > u32::MAX ==> limit_value(token) is None,
{
    lemma_limit_value_is_numeral_value(token);
    if decimal_value(token) <= u32::MAX {
        lemma_parse_in_range(token);
    } else {
        lemma_parse_out_of_range(token);
    }
}

/// A limit with anything but a digit in it, after the `+` that may lead it,
/// is no limit. So is the empty text.
pub proof fn lemma_limit_of_other_text(token: Seq<char>)
    requires
        numeral_digits(token).len() == 0 || !all_digits(numeral_digits(token)),
    ensures
        limit_value(token) is None,
{
}

/// Two limits that both read `unlimited` bound neither side.
pub proof fn lemma_unlimited_tokens(soft: Seq<char>, hard: Seq<char>)
    requires
        soft == "unlimited"@,
        hard == "unlimited"@,
    ensures
        Limit::of_tokens(soft, hard) == Limit::unlimited(),
{
}

/// The soft limit of a row depends on its first text alone and the hard
/// limit on its second: a number written in digits on one side is that
/// side's limit, whatever stands on the other.
pub proof fn lemma_numeric_tokens(n: u32, other: Seq<char>)
    ensures
        Limit::of_tokens(decimal_digits(n as nat), other).soft == Some(n),
        Limit::of_tokens(other, decimal_digits(n as nat)).hard == Some(n),
{
    lemma_limit_of_number(n);
}

/// Putting a limit in one property's place changes that place and no
/// other.
pub proof fn lemma_with_changes_one(limits: Limits, property: Property, limit: Limit)
    ensures
        limits.with(property, limit).get(property) == limit,
        forall|other: Property|
            other != property ==> #[trigger] limits.with(property, limit).get(other) == limits.get(
                other,
            ),
{
}

/// Two records that hold the same limit for every property are one
/// record.
pub proof fn lemma_equal_by_properties(a: Limits, b: Limits)
    requires
        forall|property: Property| #[trigger] a.get(property) == b.get(property),
    ensures
        a == b,
{
    assert(a.get(Property::MaxCpuTime) == b.get(Property::MaxCpuTime));
    assert(a.get(Property::MaxFileSize) == b.get(Property::MaxFileSize));
    assert(a.get(Property::MaxDataSize) == b.get(Property::MaxDataSize));
    assert(a.get(Property::MaxStackSize) == b.get(Property::MaxStackSize));
    assert(a.get(Property::MaxCoreFileSize) == b.get(Property::MaxCoreFileSize));
    assert(a.get(Property::MaxResidentSet) == b.get(Property::MaxResidentSet));
    assert(a.get(Property::MaxProcesses) == b.get(Property::MaxProcesses));
    assert(a.get(Property::MaxOpenFiles) == b.get(Property::MaxOpenFiles));
    assert(a.get(Property::MaxLockedMemory) == b.get(Property::MaxLockedMemory));
    assert(a.get(Property::MaxAddressSpace) == b.get(Property::MaxAddressSpace));
    assert(a.get(Property::MaxFileLocks) == b.get(Property::MaxFileLocks));
    assert(a.get(Property::MaxPendingSignals) == b.get(Property::MaxPendingSignals));
    assert(a.get(Property::MaxMsgqueueSize) == b.get(Property::MaxMsgqueueSize));
    assert(a.get(Property::MaxNicePriority) == b.get(Property::MaxNicePriority));
    assert(a.get(Property::MaxRealtimePriority) == b.get(Property::MaxRealtimePriority));
    assert(a.get(Property::MaxRealtimeTimeout) == b.get(Property::MaxRealtimeTimeout));
}

/// A row whose label, in lower case, names no property changes nothing:
/// the record after it is the record before it.
pub proof fn lemma_unknown_label(limits: Limits, name: Seq<char>, soft: Seq<char>, hard: Seq<char>)
    requires
        Property::named(lowercase(name)) is None,
    ensures
        limits.with_row(name, soft, hard) == limits,
{
}

/// A row whose label, in lower case, names a property sets that property to
/// the row's limit and leaves every other property as it was.
pub proof fn lemma_known_label(
    limits: Limits,
    name: Seq<char>,
    soft: Seq<char>,
    hard: Seq<char>,
    property: Property,
)
    requires
        Property::named(lowercase(name)) == Some(property),
    ensures
        limits.with_row(name, soft, hard).get(property) == Limit::of_tokens(soft, hard),
        forall|other: Property|
            other != property ==> #[trigger] limits.with_row(name, soft, hard).get(other)
                == limits.get(other),
{
    lemma_with_changes_one(limits, property, Limit::of_tokens(soft, hard));
}

/// A row for a known property whose two limits both read `unlimited`
/// leaves that property without a bound on either side.
pub proof fn lemma_unlimited_row(limits: Limits, name: Seq<char>, property: Property)
    requires
        Property::named(lowercase(name)) == Some(property),
    ensures
        limits.with_row(name, "unlimited"@, "unlimited"@).get(property) == Limit::unlimited(),
{
    lemma_known_label(limits, name, "unlimited"@, "unlimited"@, property);
    lemma_unlimited_tokens("unlimited"@, "unlimited"@);
}

/// Lines taken in two parts, one after the other, give what they give
/// taken as one.
pub proof fn lemma_with_lines_in_turn(limits: Limits, first: Seq<Seq<char>>, then: Seq<Seq<char>>)
    ensures
        limits.with_lines(first + then) == limits.with_lines(first).with_lines(then),
    decreases then.len(),
{
    if then.len() == 0 {
        assert(first + then == first);
    } else {
        assert((first + then).drop_last() == first + then.drop_last());
        lemma_with_lines_in_turn(limits, first, then.drop_last());
    }
}

/// What was read in two parts holds the lines of the first part and then
/// those of the second.
pub proof fn lemma_decoded_in_turn(
    first: Seq<Result<String, std::io::Error>>,
    then: Seq<Result<String, std::io::Error>>,
)
    ensures
        decoded(first + then) == decoded(first) + decoded(then),
    decreases then.len(),
{
    if then.len() == 0 {
        assert(first + then == first);
        assert(decoded(first) + decoded(then) == decoded(first));
    } else {
        assert((first + then).drop_last() == first + then.drop_last());
        lemma_decoded_in_turn(first, then.drop_last());
        match then.last() {
            Ok(line) => {
                assert(decoded(first) + decoded(then.drop_last()).push(line@) == (decoded(first)
                    + decoded(then.drop_last())).push(line@));
            },
            Err(_) => {},
        }
    }
}

/// A line behind the header that could not be read counts for nothing:
/// the table gives the same record with it and without it.
pub proof fn lemma_failed_read_changes_nothing(
    before: Seq<Result<String, std::io::Error>>,
    failure: std::io::Error,
    after: Seq<Result<String, std::io::Error>>,
)
    requires
        before.len() > 0,
    ensures
        Limits::of_table(before + seq![Err(failure)] + after) == Limits::of_table(before + after),
{
    let failed = seq![Err::<String, std::io::Error>(failure)];
    assert((before + failed + after).drop_first() == before.drop_first() + failed + after);
    assert((before + after).drop_first() == before.drop_first() + after);
    lemma_decoded_in_turn(before.drop_first() + failed, after);
    lemma_decoded_in_turn(before.drop_first(), failed);
    lemma_decoded_in_turn(before.drop_first(), after);
    assert(decoded(failed) == Seq::<Seq<char>>::empty()) by {
        reveal_with_fuel(decoded, 2);
    }
    assert(decoded(before.drop_first()) + decoded(failed) == decoded(before.drop_first()));
}

/// A line that is no row counts for nothing: the record after it is the
/// record before it.
pub proof fn lemma_no_row_changes_nothing(limits: Limits, line: Seq<char>)
    requires
        line.len() < LABEL_WIDTH || words(line.skip(LABEL_WIDTH as int)).len() < 2,
    ensures
        limits.with_line(line) == limits,
{
}

/// A table of no lines at all gives the record in which nothing is
/// limited, and so does a table of a header alone.
pub proof fn lemma_empty_table(header: Result<String, std::io::Error>)
    ensures
        Limits::of_table(Seq::empty()) == Limits::unlimited(),
        Limits::of_table(seq![header]) == Limits::unlimited(),
{
    assert(seq![header].drop_first() =~= Seq::<Result<String, std::io::Error>>::empty());
}

/// Reading one table twice gives one record: what is made of the lines
/// depends on the lines alone.
pub proof fn lemma_reading_is_repeatable(
    reads: Seq<Result<String, std::io::Error>>,
    first: Result<Limits, Error>,
    second: Result<Limits, Error>,
)
    requires
        first == Ok::<Limits, Error>(Limits::of_table(reads)),
        second == Ok::<Limits, Error>(Limits::of_table(reads)),
    ensures
        first == second,
{
}

} // verus!
