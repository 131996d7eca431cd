use vstd::prelude::*;
use vstd::string::StrSliceExecFns;
use crate::text::{
    capture, capture_view, decimal_digits, decimal_number, lowercase_of, parse_decimal,
    push_decimal, regex_capture, split, split_on, trim, trimmed,
};

verus! {

/// Whether `year` is a leap year of the Gregorian calendar.
pub open spec fn is_leap_year(year: int) -> bool {
    year % 400 == 0 || (year % 100 != 0 && year % 4 == 0)
}

/// The number of days of `month` in `year`; 31 for a month outside 1..=12
/// that is not one of the shorter ones.
pub open spec fn days_in_month(year: int, month: int) -> int {
    if month == 2 {
        if is_leap_year(year) { 29 } else { 28 }
    } else if month == 4 || month == 6 || month == 9 || month == 11 {
        30
    } else {
        31
    }
}

/// Whether `year` is a leap year.
pub fn leap_year(year: i32) -> (leap: bool)
    ensures
        leap == is_leap_year(year as int),
{
    let by_4: i32 = year % 4;
    let by_100: i32 = year % 100;
    let by_400: i32 = year % 400;
    assert((by_4 == 0) == ((year as int) % 4 == 0));
    assert((by_100 == 0) == ((year as int) % 100 == 0));
    assert((by_400 == 0) == ((year as int) % 400 == 0));
    by_400 == 0 || (by_100 != 0 && by_4 == 0)
}

/// The last day of the given month.
pub fn last_day(year: i32, month: u32) -> (day: u32)
    ensures
        day == days_in_month(year as int, month as int),
{
    if month == 2 {
        if leap_year(year) {
            29
        } else {
            28
        }
    } else if month == 4 || month == 6 || month == 9 || month == 11 {
        30
    } else {
        31
    }
}

/// The pattern of a date and time: year, month and day, parted by `-` or
/// `/`, then a blank, `-`, `t` or `T`, then hour and minute, parted by `:`.
pub const DATETIME_PATTERN: &'static str =
    r"^(?P<year>\d{4})[-/](?P<month>\d{1,2})[-/](?P<day>\d{1,2})[-\stT](?P<hour>\d{1,2}):(?P<minute>\d{1,2})$";

/// The number that a captured group stands for: the group took part in the
/// match and holds one or more decimal digits that make up a number of at
/// most `limit`.
pub open spec fn captured_number(found: Option<Option<Seq<char>>>, limit: nat) -> Option<nat> {
    match found {
        Some(Some(text)) => decimal_number(text, limit),
        _ => None,
    }
}

/// Reads the number of a captured group.
pub fn number_of(found: &Option<Option<String>>, limit: u64) -> (number: Option<u64>)
    ensures
        number.is_some() == captured_number(capture_view(*found), limit as nat).is_some(),
        number matches Some(n) ==> captured_number(capture_view(*found), limit as nat) == Some(
            n as nat,
        ),
{
    match found {
        Some(Some(text)) => parse_decimal(text.as_str(), limit),
        _ => None,
    }
}

/// The five numbers of a date and time as the groups of the pattern hold
/// them: year, month, day, hour and minute, where each group holds a number.
pub open spec fn datetime_fields(
    year: Option<Option<Seq<char>>>,
    month: Option<Option<Seq<char>>>,
    day: Option<Option<Seq<char>>>,
    hour: Option<Option<Seq<char>>>,
    minute: Option<Option<Seq<char>>>,
) -> Option<(i32, u32, u32, u32, u32)> {
    match (
        captured_number(year, i32::MAX as nat),
        captured_number(month, u32::MAX as nat),
        captured_number(day, u32::MAX as nat),
        captured_number(hour, u32::MAX as nat),
        captured_number(minute, u32::MAX as nat),
    ) {
        (Some(year), Some(month), Some(day), Some(hour), Some(minute)) => Some(
            (year as i32, month as u32, day as u32, hour as u32, minute as u32),
        ),
        _ => None,
    }
}

/// Reads the five numbers of a date and time from the captured groups.
pub fn datetime_from(
    year: &Option<Option<String>>,
    month: &Option<Option<String>>,
    day: &Option<Option<String>>,
    hour: &Option<Option<String>>,
    minute: &Option<Option<String>>,
) -> (fields: Option<(i32, u32, u32, u32, u32)>)
    ensures
        fields == datetime_fields(
            capture_view(*year),
            capture_view(*month),
            capture_view(*day),
            capture_view(*hour),
            capture_view(*minute),
        ),
{
    let year = match number_of(year, 0x7fff_ffff) {
        Some(year) => year as i32,
        None => {
            return None;
        },
    };
    let month = match number_of(month, 0xffff_ffff) {
        Some(month) => month as u32,
        None => {
            return None;
        },
    };
    let day = match number_of(day, 0xffff_ffff) {
        Some(day) => day as u32,
        None => {
            return None;
        },
    };
    let hour = match number_of(hour, 0xffff_ffff) {
        Some(hour) => hour as u32,
        None => {
            return None;
        },
    };
    let minute = match number_of(minute, 0xffff_ffff) {
        Some(minute) => minute as u32,
        None => {
            return None;
        },
    };
    Some((year, month, day, hour, minute))
}

/// The date and time that a text stands for: the five numbers of the groups
/// that the pattern of a date and time captures in it.
pub open spec fn written_datetime(text: Seq<char>) -> Option<(i32, u32, u32, u32, u32)> {
    datetime_fields(
        regex_capture(DATETIME_PATTERN@, text, "year"@),
        regex_capture(DATETIME_PATTERN@, text, "month"@),
        regex_capture(DATETIME_PATTERN@, text, "day"@),
        regex_capture(DATETIME_PATTERN@, text, "hour"@),
        regex_capture(DATETIME_PATTERN@, text, "minute"@),
    )
}

/// Reads a date and time written as the pattern says: year, month, day,
/// hour and minute, as they are written, whatever their ranges.
pub fn datetime(text: &str) -> (fields: Option<(i32, u32, u32, u32, u32)>)
    ensures
        fields == written_datetime(text@),
{
    let year = capture(DATETIME_PATTERN, text, "year");
    let month = capture(DATETIME_PATTERN, text, "month");
    let day = capture(DATETIME_PATTERN, text, "day");
    let hour = capture(DATETIME_PATTERN, text, "hour");
    let minute = capture(DATETIME_PATTERN, text, "minute");
    datetime_from(&year, &month, &day, &hour, &minute)
}

/// The pattern of a time span: months, weeks, days, hours and minutes, each a
/// number with its letter, in this order, each of them optional; letters in
/// either case.
pub const DURATION_PATTERN: &'static str = r"^(?ix)
        ((?P<month>\d{1,4})(?P<m_unit>M))?
        ((?P<week>\d{1,5})w)?
        ((?P<day>\d{1,5})d)?
        ((?P<hour>\d{1,5})h)?
        ((?P<minute>\d{1,5})m)?
        $";

/// The largest number that the month of a time span may be.
pub const MONTHS_LIMIT: u64 = 9_999;

/// The largest number that a week, day, hour or minute of a time span may be.
pub const UNITS_LIMIT: u64 = 99_999;

/// The group took part in the match.
pub open spec fn is_captured(found: Option<Option<Seq<char>>>) -> bool {
    found matches Some(Some(_))
}

/// The number of a group that may be absent: 0 where it took no part in the
/// match, its number where it holds one of at most `limit`, and nothing else.
pub open spec fn optional_number(found: Option<Option<Seq<char>>>, limit: nat) -> Option<nat> {
    if is_captured(found) {
        captured_number(found, limit)
    } else {
        Some(0)
    }
}

/// The months and the seconds of a time span as the groups of the pattern
/// hold them. There is none where the pattern did not match or a group holds
/// no number. A span written as a number and a small `m` alone is that many
/// minutes; otherwise the months are the number before `M`, and the seconds
/// are those of the weeks, days, hours and minutes together.
pub open spec fn duration_fields(
    month: Option<Option<Seq<char>>>,
    m_unit: Option<Option<Seq<char>>>,
    week: Option<Option<Seq<char>>>,
    day: Option<Option<Seq<char>>>,
    hour: Option<Option<Seq<char>>>,
    minute: Option<Option<Seq<char>>>,
) -> Option<(i32, i64)> {
    if month is None {
        None
    } else if is_captured(month) && !is_captured(week) && !is_captured(day) && !is_captured(hour)
        && !is_captured(minute) && m_unit == Some(Some(seq!['m'])) {
        match captured_number(month, MONTHS_LIMIT as nat) {
            Some(minutes) => Some((0i32, (minutes * 60) as i64)),
            None => None,
        }
    } else {
        match (
            optional_number(month, MONTHS_LIMIT as nat),
            optional_number(week, UNITS_LIMIT as nat),
            optional_number(day, UNITS_LIMIT as nat),
            optional_number(hour, UNITS_LIMIT as nat),
            optional_number(minute, UNITS_LIMIT as nat),
        ) {
            (Some(months), Some(weeks), Some(days), Some(hours), Some(minutes)) => Some(
                (
                    months as i32,
                    (weeks * 604_800 + days * 86_400 + hours * 3_600 + minutes * 60) as i64,
                ),
            ),
            _ => None,
        }
    }
}

/// Whether the group took part in the match.
fn captured(found: &Option<Option<String>>) -> (yes: bool)
    ensures
        yes == is_captured(capture_view(*found)),
{
    match found {
        Some(Some(_)) => true,
        _ => false,
    }
}

/// Reads the number of a group that may be absent.
fn optional_number_of(found: &Option<Option<String>>, limit: u64) -> (number: Option<u64>)
    ensures
        number.is_some() == optional_number(capture_view(*found), limit as nat).is_some(),
        number matches Some(n) ==> optional_number(capture_view(*found), limit as nat) == Some(
            n as nat,
        ),
{
    if captured(found) {
        number_of(found, limit)
    } else {
        Some(0)
    }
}

/// Whether the group holds the one character `c` and nothing else.
fn holds_char(found: &Option<Option<String>>, c: char) -> (yes: bool)
    ensures
        yes == (capture_view(*found) == Some(Some(seq![c]))),
{
    match found {
        Some(Some(text)) => {
            let text = text.as_str();
            if text.unicode_len() == 1 {
                let yes = text.get_char(0) == c;
                proof {
                    if yes {
                        assert(text@ =~= seq![c]);
                    } else {
                        assert(seq![c][0] == c);
                    }
                }
                yes
            } else {
                proof {
                    assert(seq![c].len() == 1);
                }
                false
            }
        },
        _ => false,
    }
}

/// Reads the months and the seconds of a time span from the captured groups.
pub fn duration_from(
    month: &Option<Option<String>>,
    m_unit: &Option<Option<String>>,
    week: &Option<Option<String>>,
    day: &Option<Option<String>>,
    hour: &Option<Option<String>>,
    minute: &Option<Option<String>>,
) -> (span: Option<(i32, i64)>)
    ensures
        span == duration_fields(
            capture_view(*month),
            capture_view(*m_unit),
            capture_view(*week),
            capture_view(*day),
            capture_view(*hour),
            capture_view(*minute),
        ),
{
    if month.is_none() {
        return None;
    }
    if captured(month) && !captured(week) && !captured(day) && !captured(hour) && !captured(
        minute,
    ) && holds_char(m_unit, 'm') {
        return match number_of(month, MONTHS_LIMIT) {
            Some(minutes) => Some((0, (minutes * 60) as i64)),
            None => None,
        };
    }
    let months = match optional_number_of(month, MONTHS_LIMIT) {
        Some(months) => months as i32,
        None => {
            return None;
        },
    };
    let weeks = match optional_number_of(week, UNITS_LIMIT) {
        Some(weeks) => weeks as i64,
        None => {
            return None;
        },
    };
    let days = match optional_number_of(day, UNITS_LIMIT) {
        Some(days) => days as i64,
        None => {
            return None;
        },
    };
    let hours = match optional_number_of(hour, UNITS_LIMIT) {
        Some(hours) => hours as i64,
        None => {
            return None;
        },
    };
    let minutes = match optional_number_of(minute, UNITS_LIMIT) {
        Some(minutes) => minutes as i64,
        None => {
            return None;
        },
    };
    Some((months, weeks * 604_800 + days * 86_400 + hours * 3_600 + minutes * 60))
}

/// The time span that a text stands for, as months and seconds: what the
/// groups hold that the pattern of a time span captures in it. The empty
/// text is no time span.
pub open spec fn written_duration(text: Seq<char>) -> Option<(i32, i64)> {
    if text.len() == 0 {
        None
    } else {
        duration_fields(
            regex_capture(DURATION_PATTERN@, text, "month"@),
            regex_capture(DURATION_PATTERN@, text, "m_unit"@),
            regex_capture(DURATION_PATTERN@, text, "week"@),
            regex_capture(DURATION_PATTERN@, text, "day"@),
            regex_capture(DURATION_PATTERN@, text, "hour"@),
            regex_capture(DURATION_PATTERN@, text, "minute"@),
        )
    }
}

/// Reads a time span written as the pattern says, as months and seconds.
pub fn duration(text: &str) -> (span: Option<(i32, i64)>)
    ensures
        span == written_duration(text@),
{
    if text.unicode_len() == 0 {
        return None;
    }
    let month = capture(DURATION_PATTERN, text, "month");
    let m_unit = capture(DURATION_PATTERN, text, "m_unit");
    let week = capture(DURATION_PATTERN, text, "week");
    let day = capture(DURATION_PATTERN, text, "day");
    let hour = capture(DURATION_PATTERN, text, "hour");
    let minute = capture(DURATION_PATTERN, text, "minute");
    duration_from(&month, &m_unit, &week, &day, &hour, &minute)
}

/// The pattern of one term of a price: a number of up to eight digits and
/// its unit, `st`, `lc` or none.
pub const STACK_PATTERN: &'static str = r"^(?P<value>\d{1,8})(?P<unit>(st|lc)?)$";

/// The largest number that a term of a price may hold.
pub const TERM_LIMIT: u64 = 99_999_999;

/// How many items one of a unit is: 1 of no unit, 64 a stack (`st`) and 3456
/// a large chest (`lc`).
pub open spec fn unit_factor(unit: Seq<char>) -> Option<nat> {
    if unit == Seq::<char>::empty() {
        Some(1)
    } else if unit == seq!['s', 't'] {
        Some(64)
    } else if unit == seq!['l', 'c'] {
        Some(3456)
    } else {
        None
    }
}

/// The items that one term of a price stands for, as the groups of the
/// pattern hold it: the number times its unit.
pub open spec fn term_items(
    value: Option<Option<Seq<char>>>,
    unit: Option<Option<Seq<char>>>,
) -> Option<nat> {
    match (captured_number(value, TERM_LIMIT as nat), unit) {
        (Some(number), Some(Some(unit))) => match unit_factor(unit) {
            Some(factor) => Some(number * factor),
            None => None,
        },
        _ => None,
    }
}

/// Reads how many items one of a unit is.
fn factor_of(unit: &str) -> (factor: Option<u64>)
    ensures
        factor.is_some() == unit_factor(unit@).is_some(),
        factor matches Some(f) ==> unit_factor(unit@) == Some(f as nat),
{
    let len = unit.unicode_len();
    if len == 0 {
        proof {
            assert(unit@ =~= Seq::<char>::empty());
        }
        Some(1)
    } else if len == 2 {
        let first = unit.get_char(0);
        let second = unit.get_char(1);
        proof {
            assert(unit@ =~= seq![first, second]);
            assert(seq!['s', 't'][0] == 's' && seq!['s', 't'][1] == 't');
            assert(seq!['l', 'c'][0] == 'l' && seq!['l', 'c'][1] == 'c');
        }
        if first == 's' && second == 't' {
            Some(64)
        } else if first == 'l' && second == 'c' {
            Some(3456)
        } else {
            None
        }
    } else {
        proof {
            assert(seq!['s', 't'].len() == 2);
            assert(seq!['l', 'c'].len() == 2);
        }
        None
    }
}

/// Reads the items of one term of a price from the captured groups.
pub fn term_from(value: &Option<Option<String>>, unit: &Option<Option<String>>) -> (items: Option<
    u64,
>)
    ensures
        items.is_some() == term_items(capture_view(*value), capture_view(*unit)).is_some(),
        items matches Some(n) ==> term_items(capture_view(*value), capture_view(*unit)) == Some(
            n as nat,
        ) && n <= TERM_LIMIT * 3456,
{
    let number = match number_of(value, TERM_LIMIT) {
        Some(number) => number,
        None => {
            return None;
        },
    };
    match unit {
        Some(Some(unit)) => match factor_of(unit.as_str()) {
            Some(factor) => {
                assert(number * factor <= 99_999_999 * 3456) by (nonlinear_arith)
                    requires
                        number <= 99_999_999,
                        factor <= 3456,
                ;
                Some(number * factor)
            },
            None => None,
        },
        _ => None,
    }
}

/// The items of one written term: the term without the whitespace around
/// it, matched against the pattern of a term.
pub open spec fn written_term(term: Seq<char>) -> Option<nat> {
    term_items(
        regex_capture(STACK_PATTERN@, trimmed(term), "value"@),
        regex_capture(STACK_PATTERN@, trimmed(term), "unit"@),
    )
}

/// The items of the first `count` terms together; nothing where one of them
/// is no term.
pub open spec fn terms_total(terms: Seq<Seq<char>>, count: int) -> Option<nat>
    decreases count,
{
    if count <= 0 {
        Some(0)
    } else {
        match (terms_total(terms, count - 1), written_term(terms[count - 1])) {
            (Some(total), Some(items)) => Some(total + items),
            _ => None,
        }
    }
}

/// The price that a text stands for: the text in lowercase is cut at every
/// `+`, and the price is the sum of the terms, where every piece is a term
/// and the sum is at most `i32::MAX`.
pub open spec fn written_price(text: Seq<char>) -> Option<i32> {
    let terms = split_on(lowercase_of(text), '+');
    match terms_total(terms, terms.len() as int) {
        Some(total) => if total <= i32::MAX {
            Some(total as i32)
        } else {
            None
        },
        None => None,
    }
}

/// The total of the terms only grows with their number.
proof fn lemma_terms_total_grows(terms: Seq<Seq<char>>, fewer: int, count: int)
    requires
        0 <= fewer <= count,
        terms_total(terms, count) is Some,
    ensures
        terms_total(terms, fewer) is Some,
        terms_total(terms, fewer)->0 <= terms_total(terms, count)->0,
    decreases count - fewer,
{
    if fewer < count {
        lemma_terms_total_grows(terms, fewer, count - 1);
    }
}

/// Where the total of some of the terms is nothing, so is that of all.
proof fn lemma_terms_total_fails(terms: Seq<Seq<char>>, fewer: int, count: int)
    requires
        0 <= fewer <= count,
        terms_total(terms, fewer) is None,
    ensures
        terms_total(terms, count) is None,
    decreases count - fewer,
{
    if fewer < count {
        lemma_terms_total_fails(terms, fewer, count - 1);
    }
}

/// Reads a price written as terms joined by `+`, such as `1lc+2st+3`, as a
/// number of items.
pub fn stack_to_int(text: &str) -> (price: Option<i32>)
    ensures
        price == written_price(text@),
{
    let lower = text.to_lowercase();
    let terms = split(lower.as_str(), '+');
    let ghost pieces = split_on(lowercase_of(text@), '+');
    let mut total: u64 = 0;
    let mut i: usize = 0;
    while i < terms.len()
        invariant
            i <= terms.len(),
            pieces == split_on(lowercase_of(text@), '+'),
            terms@.len() == pieces.len(),
            forall|k: int| 0 <= k < terms@.len() ==> (#[trigger] terms@[k])@ == pieces[k],
            terms_total(pieces, i as int) == Some(total as nat),
            total <= i32::MAX,
        decreases terms.len() - i,
    {
        let term = trim(terms[i]);
        let value = capture(STACK_PATTERN, term, "value");
        let unit = capture(STACK_PATTERN, term, "unit");
        let items = match term_from(&value, &unit) {
            Some(items) => items,
            None => {
                proof {
                    assert(written_term(pieces[i as int]) is None);
                    lemma_terms_total_fails(pieces, i + 1, pieces.len() as int);
                }
                return None;
            },
        };
        assert(written_term(pieces[i as int]) == Some(items as nat));
        total = total + items;
        i += 1;
        if total > 0x7fff_ffff {
            proof {
                if terms_total(pieces, pieces.len() as int) is Some {
                    lemma_terms_total_grows(pieces, i as int, pieces.len() as int);
                }
            }
            return None;
        }
    }
    Some(total as i32)
}

/// `parts` with one more part at its end, after a `+` where `parts` is not
/// empty.
pub open spec fn joined(parts: Seq<char>, part: Seq<char>) -> Seq<char> {
    if parts.len() == 0 {
        part
    } else {
        parts.push('+') + part
    }
}

/// A number of items written in large chests, stacks and single items, the
/// parts that are not zero joined by `+`: 3600 is `1LC+2st+16個`. A number
/// below 1 is the empty text.
pub open spec fn stack_text(value: int) -> Seq<char> {
    if value <= 0 {
        Seq::<char>::empty()
    } else {
        let chests = value / 3456;
        let stacks = value % 3456 / 64;
        let items = value % 64;
        let first = if chests > 0 {
            decimal_digits(chests as nat) + seq!['L', 'C']
        } else {
            Seq::<char>::empty()
        };
        let second = if stacks > 0 {
            joined(first, decimal_digits(stacks as nat) + seq!['s', 't'])
        } else {
            first
        };
        if items > 0 {
            joined(second, decimal_digits(items as nat).push('個'))
        } else {
            second
        }
    }
}

/// Appends a `+` to `out` unless it is empty.
fn push_plus(out: &mut String)
    ensures
        forall|part: Seq<char>| final(out)@ + part == #[trigger] joined(old(out)@, part),
{
    if out.as_str().unicode_len() > 0 {
        out.push('+');
    }
    proof {
        assert forall|part: Seq<char>| out@ + part == #[trigger] joined(old(out)@, part) by {
            if old(out)@.len() == 0 {
                assert(out@ + part =~= part);
            }
        }
    }
}

/// Writes a number of items in large chests, stacks and single items.
pub fn int_to_stack(value: i32) -> (text: String)
    ensures
        text@ == stack_text(value as int),
{
    let mut text = String::new();
    if value <= 0 {
        return text;
    }
    let value = value as u32;
    let chests = value / 3456;
    let stacks = value % 3456 / 64;
    let items = value % 64;
    if chests > 0 {
        push_decimal(&mut text, chests);
        text.push('L');
        text.push('C');
        proof {
            assert(text@ =~= decimal_digits(chests as nat) + seq!['L', 'C']);
        }
    }
    if stacks > 0 {
        let ghost first = text@;
        push_plus(&mut text);
        let ghost plus = text@;
        push_decimal(&mut text, stacks);
        text.push('s');
        text.push('t');
        proof {
            let part = decimal_digits(stacks as nat) + seq!['s', 't'];
            assert(text@ =~= plus + part);
            assert(plus + part == joined(first, part));
        }
    }
    if items > 0 {
        let ghost second = text@;
        push_plus(&mut text);
        let ghost plus = text@;
        push_decimal(&mut text, items);
        text.push('個');
        proof {
            let part = decimal_digits(items as nat).push('個');
            assert(text@ =~= plus + part);
            assert(plus + part == joined(second, part));
        }
    }
    text
}

/// A number of items written in large chests, stacks and single items, and
/// from 64 items on followed by the bare number in brackets: 130 is
/// `2st+2個 (130)`.
pub open spec fn stack_text_with_raw(value: int) -> Seq<char> {
    if value >= 64 {
        (stack_text(value) + seq![' ', '('] + decimal_digits(value as nat)).push(')')
    } else {
        stack_text(value)
    }
}

/// Writes a number of items in large chests, stacks and single items, with
/// the bare number after it where that helps.
pub fn stack_with_raw(value: i32) -> (text: String)
    ensures
        text@ == stack_text_with_raw(value as int),
{
    let mut text = int_to_stack(value);
    if value >= 64 {
        text.push(' ');
        text.push('(');
        push_decimal(&mut text, value as u32);
        text.push(')');
        proof {
            assert(text@ =~= (stack_text(value as int) + seq![' ', '('] + decimal_digits(
                value as nat,
            )).push(')'));
        }
    }
    text
}

/// The name by which a member goes in a guild: the nickname, or the user
/// name where the member has none.
pub fn get_nick<'a>(nick: Option<&'a str>, user_name: &'a str) -> (name: &'a str)
    ensures
        name == match nick {
            Some(nick) => nick,
            None => user_name,
        },
{
    match nick {
        Some(nick) => nick,
        None => user_name,
    }
}

/// What is known of a user's place in the guild of a message.
#[derive(Debug)]
pub enum Membership {
    /// The message came from outside any guild.
    NoGuild,
    /// The user is a member of the guild, under this nickname if any.
    Member { nick: Option<String> },
    /// The guild does not know the user.
    Gone,
}

/// The name that stands for a user who has left the guild.
pub const GONE_USER: &'static str = "退出済みのユーザー";

/// The name under which a user is shown: the nickname in the guild where
/// there is one, the user name where there is none or no guild, and the
/// fixed name of a user who has left where the guild does not know them.
pub fn display_name(user_name: String, membership: Membership) -> (name: String)
    ensures
        name@ == match membership {
            Membership::NoGuild => user_name@,
            Membership::Member { nick: Some(nick) } => nick@,
            Membership::Member { nick: None } => user_name@,
            Membership::Gone => GONE_USER@,
        },
{
    match membership {
        Membership::NoGuild => user_name,
        Membership::Member { nick } => match nick {
            Some(nick) => nick,
            None => user_name,
        },
        Membership::Gone => GONE_USER.to_owned(),
    }
}

} // verus!
