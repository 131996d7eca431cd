use vstd::prelude::*;
use crate::calendar::{civil_of_seconds, civil_seconds, seconds_civil, seconds_of_civil};
use crate::formats::{
    datetime, days_in_month, duration, last_day, stack_text_with_raw, stack_to_int,
    stack_with_raw, written_datetime, written_duration, written_price,
};
use crate::models::{NewAuctionInfo, Timestamp};
use crate::store::listing_verdict;
use crate::text::{
    decimal_digits, has_char, lowercase_of, push_decimal, push_padded, push_text, same_text,
    zero_padded,
};

verus! {

/// The answer that stands for "nothing": no instant-win price, no remarks.
pub const NOTHING: &'static str = "なし";

/// The answer that calls the dialogue off.
pub const CANCEL: &'static str = "cancel";

/// The answer that confirms a listing, in whatever case it is written.
pub const YES: &'static str = "yes";

/// Why an answer to the dialogue was turned down.
#[derive(Clone, Copy, Debug, PartialEq, Eq, Structural)]
pub enum AnswerError {
    /// The answer runs over more than one line.
    LineBreak,
    /// The answer is no price.
    NoPrice,
    /// The start price is below 1.
    PriceBelowOne,
    /// The instant-win price is below the start price.
    BinBelowStart,
    /// The year is not one of 2000 to 3000.
    YearOutOfRange,
    /// The month is not one of 1 to 12.
    NoSuchMonth,
    /// The month has no such day.
    NoSuchDay,
    /// The hour is not below 24 or the minute not below 60, and the time is
    /// not 24:00.
    TimeOutOfRange,
    /// The answer is neither a date and time nor a time span.
    NoTime,
    /// The calendar does not reach that far.
    OutOfCalendar,
    /// The end is not after the present.
    NotAfterNow,
    /// The auction would run for twelve hours or less.
    TooShort,
    /// The auction would run for eight weeks or more.
    TooLong,
}

/// What the dialogue does with a reply.
#[derive(Clone, Copy, Debug, PartialEq, Eq, Structural)]
pub enum ReplyStep {
    /// No reply came in time: the dialogue ends.
    TimedOut,
    /// The reply calls the dialogue off.
    Cancelled,
    /// The reply is an answer to be judged.
    Answer,
}

/// What the dialogue does with a reply, if one came: it ends where none
/// came or the reply is the word that calls it off, and judges the reply as
/// an answer otherwise.
pub fn reply_step(reply: Option<&str>) -> (step: ReplyStep)
    ensures
        step == match reply {
            None => ReplyStep::TimedOut,
            Some(text) => if text@ == CANCEL@ {
                ReplyStep::Cancelled
            } else {
                ReplyStep::Answer
            },
        },
{
    match reply {
        None => ReplyStep::TimedOut,
        Some(text) => if same_text(text, CANCEL) {
            ReplyStep::Cancelled
        } else {
            ReplyStep::Answer
        },
    }
}

/// The verdict on the unit or the item of a listing: it is taken as it is,
/// unless it holds a line break.
pub fn single_line(content: &str) -> (result: Result<String, AnswerError>)
    ensures
        match result {
            Ok(text) => text@ == content@ && !content@.contains('\n'),
            Err(e) => e == AnswerError::LineBreak && content@.contains('\n'),
        },
{
    if has_char(content, '\n') {
        Err(AnswerError::LineBreak)
    } else {
        Ok(content.to_owned())
    }
}

/// The verdict on a start price: the answer is a price, and at least 1.
pub open spec fn start_price_verdict(price: Option<i32>) -> Result<i32, AnswerError> {
    match price {
        None => Err(AnswerError::NoPrice),
        Some(price) => if price < 1 {
            Err(AnswerError::PriceBelowOne)
        } else {
            Ok(price)
        },
    }
}

/// Judges a price as a start price.
pub fn check_start_price(price: Option<i32>) -> (result: Result<i32, AnswerError>)
    ensures
        result == start_price_verdict(price),
{
    match price {
        None => Err(AnswerError::NoPrice),
        Some(price) => if price < 1 {
            Err(AnswerError::PriceBelowOne)
        } else {
            Ok(price)
        },
    }
}

/// Reads and judges the answer for the start price.
pub fn start_price(content: &str) -> (result: Result<i32, AnswerError>)
    ensures
        result == start_price_verdict(written_price(content@)),
{
    check_start_price(stack_to_int(content))
}

/// The verdict on an instant-win price: the answer is a price, and at least
/// the start price.
pub open spec fn bin_price_verdict(price: Option<i32>, start_price: i32) -> Result<
    Option<i32>,
    AnswerError,
> {
    match price {
        None => Err(AnswerError::NoPrice),
        Some(price) => if price < start_price {
            Err(AnswerError::BinBelowStart)
        } else {
            Ok(Some(price))
        },
    }
}

/// Judges a price as an instant-win price.
pub fn check_bin_price(price: Option<i32>, start_price: i32) -> (result: Result<
    Option<i32>,
    AnswerError,
>)
    ensures
        result == bin_price_verdict(price, start_price),
{
    match price {
        None => Err(AnswerError::NoPrice),
        Some(price) => if price < start_price {
            Err(AnswerError::BinBelowStart)
        } else {
            Ok(Some(price))
        },
    }
}

/// Reads and judges the answer for the instant-win price: none where the
/// answer is the word for nothing, and a price of at least the start price
/// otherwise.
pub fn bin_price(content: &str, start_price: i32) -> (result: Result<Option<i32>, AnswerError>)
    ensures
        result == if content@ == NOTHING@ {
            Ok::<Option<i32>, AnswerError>(None)
        } else {
            bin_price_verdict(written_price(content@), start_price)
        },
{
    if same_text(content, NOTHING) {
        Ok(None)
    } else {
        check_bin_price(stack_to_int(content), start_price)
    }
}

/// Whether the lowercase form of an answer is the word that confirms.
pub fn is_confirmed(lowercase: &str) -> (yes: bool)
    ensures
        yes == (lowercase@ == YES@),
{
    same_text(lowercase, YES)
}

/// Whether the answer confirms the listing.
pub fn confirmed(content: &str) -> (yes: bool)
    ensures
        yes == (lowercase_of(content@) == YES@),
{
    let lower = content.to_lowercase();
    is_confirmed(lower.as_str())
}

/// The end of an auction: the moment, and the date and time to show for it.
#[derive(Clone, Copy, Debug, PartialEq, Eq, Structural)]
pub struct EndTime {
    pub time: Timestamp,
    pub year: i32,
    pub month: u32,
    pub day: u32,
    pub hour: u32,
    pub minute: u32,
}

/// The seconds in a day.
pub const DAY: i64 = 86_400;

/// The end that a written date and time stands for. The year is one of 2000
/// to 3000, the month and the day exist, and the time is a time of the day;
/// 24:00 is the start of the next day, and is still shown as 24:00.
pub open spec fn datetime_end(fields: (i32, u32, u32, u32, u32)) -> Result<EndTime, AnswerError> {
    let (year, month, day, hour, minute) = fields;
    if !(2000 <= year <= 3000) {
        Err(AnswerError::YearOutOfRange)
    } else if !(1 <= month <= 12) {
        Err(AnswerError::NoSuchMonth)
    } else if !(1 <= day <= days_in_month(year as int, month as int)) {
        Err(AnswerError::NoSuchDay)
    } else if hour == 24 && minute == 0 {
        match civil_seconds(year, month, day, 0, 0, 0) {
            Some(midnight) => if midnight + DAY <= i64::MAX {
                Ok(
                    EndTime {
                        time: Timestamp { secs: (midnight + DAY) as i64, nanos: 0 },
                        year,
                        month,
                        day,
                        hour,
                        minute,
                    },
                )
            } else {
                Err(AnswerError::OutOfCalendar)
            },
            None => Err(AnswerError::OutOfCalendar),
        }
    } else if !(hour < 24 && minute < 60) {
        Err(AnswerError::TimeOutOfRange)
    } else {
        match civil_seconds(year, month, day, hour, minute, 0) {
            Some(secs) => Ok(
                EndTime { time: Timestamp { secs, nanos: 0 }, year, month, day, hour, minute },
            ),
            None => Err(AnswerError::OutOfCalendar),
        }
    }
}

/// Judges a written date and time as the end of an auction.
pub fn end_from_datetime(fields: (i32, u32, u32, u32, u32)) -> (result: Result<
    EndTime,
    AnswerError,
>)
    ensures
        result == datetime_end(fields),
        result matches Err(e) ==> e != AnswerError::OutOfCalendar || (fields.3 == 24 && fields.4
            == 0),
{
    let (year, month, day, hour, minute) = fields;
    if !(2000 <= year && year <= 3000) {
        return Err(AnswerError::YearOutOfRange);
    }
    if !(1 <= month && month <= 12) {
        return Err(AnswerError::NoSuchMonth);
    }
    if !(1 <= day && day <= last_day(year, month)) {
        return Err(AnswerError::NoSuchDay);
    }
    if hour == 24 && minute == 0 {
        let secs = match seconds_of_civil(year, month, day, 0, 0, 0) {
            Some(midnight) => match midnight.checked_add(DAY) {
                Some(secs) => secs,
                None => {
                    return Err(AnswerError::OutOfCalendar);
                },
            },
            None => {
                return Err(AnswerError::OutOfCalendar);
            },
        };
        return Ok(EndTime { time: Timestamp { secs, nanos: 0 }, year, month, day, hour, minute });
    }
    if !(hour < 24 && minute < 60) {
        return Err(AnswerError::TimeOutOfRange);
    }
    match seconds_of_civil(year, month, day, hour, minute, 0) {
        Some(secs) => Ok(
            EndTime { time: Timestamp { secs, nanos: 0 }, year, month, day, hour, minute },
        ),
        None => Err(AnswerError::OutOfCalendar),
    }
}

/// The end that lies a time span after the present. The months are added
/// first, to the month of the present day, where the day is cut down to the
/// last of the new month, and the time of day stays; the seconds of the
/// span are added to that. The date and time to show are those of the end.
pub open spec fn duration_end(span: (i32, i64), now: Timestamp) -> Result<EndTime, AnswerError> {
    match seconds_civil(now.secs) {
        None => Err(AnswerError::OutOfCalendar),
        Some((year, month, day, hour, minute, second)) => {
            let months = year as int * 12 + month as int - 1 + span.0 as int;
            let new_year = months / 12;
            let new_month = months % 12 + 1;
            let last = days_in_month(new_year, new_month);
            let new_day = if day as int <= last {
                day as int
            } else {
                last
            };
            if months < 0 || new_year > i32::MAX {
                Err(AnswerError::OutOfCalendar)
            } else {
                match civil_seconds(
                    new_year as i32,
                    new_month as u32,
                    new_day as u32,
                    hour,
                    minute,
                    second,
                ) {
                    None => Err(AnswerError::OutOfCalendar),
                    Some(start) => if !(i64::MIN <= start + span.1 <= i64::MAX) {
                        Err(AnswerError::OutOfCalendar)
                    } else {
                        match seconds_civil((start + span.1) as i64) {
                            None => Err(AnswerError::OutOfCalendar),
                            Some((end_year, end_month, end_day, end_hour, end_minute, _)) => Ok(
                                EndTime {
                                    time: Timestamp {
                                        secs: (start + span.1) as i64,
                                        nanos: now.nanos,
                                    },
                                    year: end_year,
                                    month: end_month,
                                    day: end_day,
                                    hour: end_hour,
                                    minute: end_minute,
                                },
                            ),
                        }
                    },
                }
            }
        },
    }
}

/// Finds the end that lies a time span after the present.
pub fn end_from_duration(span: (i32, i64), now: Timestamp) -> (result: Result<
    EndTime,
    AnswerError,
>)
    ensures
        result == duration_end(span, now),
{
    let (year, month, day, hour, minute, second) = match civil_of_seconds(now.secs) {
        Some(civil) => civil,
        None => {
            return Err(AnswerError::OutOfCalendar);
        },
    };
    let months: i64 = year as i64 * 12 + month as i64 - 1 + span.0 as i64;
    if months < 0 {
        return Err(AnswerError::OutOfCalendar);
    }
    let new_year = months / 12;
    let new_month = (months % 12 + 1) as u32;
    if new_year > 0x7fff_ffff {
        return Err(AnswerError::OutOfCalendar);
    }
    let new_year = new_year as i32;
    let last = last_day(new_year, new_month);
    let new_day = if day <= last {
        day
    } else {
        last
    };
    let start = match seconds_of_civil(new_year, new_month, new_day, hour, minute, second) {
        Some(start) => start,
        None => {
            return Err(AnswerError::OutOfCalendar);
        },
    };
    let secs = match start.checked_add(span.1) {
        Some(secs) => secs,
        None => {
            return Err(AnswerError::OutOfCalendar);
        },
    };
    match civil_of_seconds(secs) {
        Some((end_year, end_month, end_day, end_hour, end_minute, _)) => Ok(
            EndTime {
                time: Timestamp { secs, nanos: now.nanos },
                year: end_year,
                month: end_month,
                day: end_day,
                hour: end_hour,
                minute: end_minute,
            },
        ),
        None => Err(AnswerError::OutOfCalendar),
    }
}

/// The nanoseconds in twelve hours.
pub const TWELVE_HOURS: i128 = 43_200_000_000_000;

/// The nanoseconds in eight weeks.
pub const EIGHT_WEEKS: i128 = 4_838_400_000_000_000;

/// The verdict on how long an auction runs: its end is after the present,
/// by more than twelve hours and by less than eight weeks.
pub open spec fn period_verdict(end: Timestamp, now: Timestamp) -> Result<(), AnswerError> {
    let period = end.as_nanos() - now.as_nanos();
    if period <= 0 {
        Err(AnswerError::NotAfterNow)
    } else if period <= TWELVE_HOURS {
        Err(AnswerError::TooShort)
    } else if period >= EIGHT_WEEKS {
        Err(AnswerError::TooLong)
    } else {
        Ok(())
    }
}

/// Judges how long an auction that ends at `end` would run from `now`.
pub fn check_period(end: Timestamp, now: Timestamp) -> (result: Result<(), AnswerError>)
    ensures
        result == period_verdict(end, now),
{
    let end_nanos: i128 = end.secs as i128 * 1_000_000_000 + end.nanos as i128;
    let now_nanos: i128 = now.secs as i128 * 1_000_000_000 + now.nanos as i128;
    let period: i128 = end_nanos - now_nanos;
    if period <= 0 {
        Err(AnswerError::NotAfterNow)
    } else if period <= TWELVE_HOURS {
        Err(AnswerError::TooShort)
    } else if period >= EIGHT_WEEKS {
        Err(AnswerError::TooLong)
    } else {
        Ok(())
    }
}

/// The verdict on the answer for the end of an auction, given what the
/// answer reads as: a date and time if it is one, else a time span from the
/// present if it is one; and the auction runs neither too short nor too long.
pub open spec fn end_time_verdict(
    as_datetime: Option<(i32, u32, u32, u32, u32)>,
    as_duration: Option<(i32, i64)>,
    now: Timestamp,
) -> Result<EndTime, AnswerError> {
    let end = match as_datetime {
        Some(fields) => datetime_end(fields),
        None => match as_duration {
            Some(span) => duration_end(span, now),
            None => Err(AnswerError::NoTime),
        },
    };
    match end {
        Ok(end) => match period_verdict(end.time, now) {
            Ok(_) => Ok(end),
            Err(e) => Err(e),
        },
        Err(e) => Err(e),
    }
}

/// Reads and judges the answer for the end of an auction.
pub fn end_time(content: &str, now: Timestamp) -> (result: Result<EndTime, AnswerError>)
    ensures
        result == end_time_verdict(written_datetime(content@), written_duration(content@), now),
{
    let end = match datetime(content) {
        Some(fields) => end_from_datetime(fields),
        None => match duration(content) {
            Some(span) => end_from_duration(span, now),
            None => Err(AnswerError::NoTime),
        },
    };
    match end {
        Ok(end) => match check_period(end.time, now) {
            Ok(_) => Ok(end),
            Err(e) => Err(e),
        },
        Err(e) => Err(e),
    }
}

/// A year in digits, with a `-` before those of a year before 0.
pub open spec fn year_digits(year: int) -> Seq<char> {
    if year < 0 {
        seq!['-'] + decimal_digits((-year) as nat)
    } else {
        decimal_digits(year as nat)
    }
}

/// The date and time of an end as it is shown: year, month and day parted
/// by `/`, a blank, hour and minute parted by `:`; the year filled up with
/// zeros to four characters and the others to two.
pub open spec fn end_time_shown(end: EndTime) -> Seq<char> {
    zero_padded(year_digits(end.year as int), 4) + seq!['/'] + zero_padded(
        decimal_digits(end.month as nat),
        2,
    ) + seq!['/'] + zero_padded(decimal_digits(end.day as nat), 2) + seq![' '] + zero_padded(
        decimal_digits(end.hour as nat),
        2,
    ) + seq![':'] + zero_padded(decimal_digits(end.minute as nat), 2)
}

/// Appends a number to `out`, filled up with zeros to two characters.
fn push_two_digits(out: &mut String, number: u32)
    ensures
        final(out)@ == old(out)@ + zero_padded(decimal_digits(number as nat), 2),
{
    let mut digits = String::new();
    push_decimal(&mut digits, number);
    proof {
        assert(digits@ =~= decimal_digits(number as nat));
    }
    push_padded(out, digits.as_str(), 2);
}

/// Writes the date and time of an end as it is shown.
pub fn end_time_text(end: &EndTime) -> (text: String)
    ensures
        text@ == end_time_shown(*end),
{
    let mut year = String::new();
    if end.year < 0 {
        year.push('-');
        push_decimal(&mut year, (-(end.year as i64)) as u32);
        proof {
            assert(year@ =~= year_digits(end.year as int));
        }
    } else {
        push_decimal(&mut year, end.year as u32);
        proof {
            assert(year@ =~= year_digits(end.year as int));
        }
    }
    let mut text = String::new();
    push_padded(&mut text, year.as_str(), 4);
    text.push('/');
    push_two_digits(&mut text, end.month);
    text.push('/');
    push_two_digits(&mut text, end.day);
    text.push(' ');
    push_two_digits(&mut text, end.hour);
    text.push(':');
    push_two_digits(&mut text, end.minute);
    proof {
        assert(text@ =~= end_time_shown(*end));
    }
    text
}

/// A price as it is shown: the unit, then the number of items in large
/// chests, stacks and single items.
pub fn price_text(unit: &str, price: i32) -> (text: String)
    ensures
        text@ == unit@ + stack_text_with_raw(price as int),
{
    let mut text = String::new();
    push_text(&mut text, unit);
    let items = stack_with_raw(price);
    push_text(&mut text, items.as_str());
    proof {
        assert(text@ =~= unit@ + stack_text_with_raw(price as int));
    }
    text
}

/// The texts that describe a listing, field by field.
#[derive(Debug)]
pub struct InfoEmbed {
    pub tender: String,
    pub item: String,
    pub start_price: String,
    pub bin_price: String,
    pub end_time: String,
    pub notice: String,
}

impl NewAuctionInfo {
    /// The instant-win price of the listing as it is shown: the price, or
    /// the word for nothing where there is none.
    pub open spec fn bin_price_shown(&self) -> Seq<char> {
        match self.bin_price {
            Some(price) => self.unit@ + stack_text_with_raw(price as int),
            None => NOTHING@,
        }
    }

    /// The texts that describe the listing: the lister and the end as they
    /// are given, item and remarks as they are, and the two prices as they
    /// are shown.
    pub fn info_embed(&self, tender: String, end_time: String) -> (embed: InfoEmbed)
        ensures
            embed.tender == tender,
            embed.item@ == self.item@,
            embed.start_price@ == self.unit@ + stack_text_with_raw(self.start_price as int),
            embed.bin_price@ == self.bin_price_shown(),
            embed.end_time == end_time,
            embed.notice@ == self.notice@,
    {
        let start_price = price_text(self.unit.as_str(), self.start_price);
        let bin_price = match self.bin_price {
            Some(price) => price_text(self.unit.as_str(), price),
            None => NOTHING.to_owned(),
        };
        InfoEmbed {
            tender,
            item: self.item.clone(),
            start_price,
            bin_price,
            end_time,
            notice: self.notice.clone(),
        }
    }
}

/// A start price and an instant-win price that the dialogue takes make a
/// listing that the store takes, and so does a start price that it takes
/// with no instant-win price.
pub proof fn lemma_answers_make_a_listing(start_price: i32, bin_price: i32)
    requires
        start_price_verdict(Some(start_price)) is Ok,
    ensures
        listing_verdict(start_price, None) is Ok,
        bin_price_verdict(Some(bin_price), start_price) is Ok ==> listing_verdict(
            start_price,
            Some(bin_price),
        ) is Ok,
{
}

/// The dialogue takes a price as the instant-win price exactly where it is
/// at least the start price.
pub proof fn lemma_bin_price_threshold(price: i32, start_price: i32)
    ensures
        bin_price_verdict(Some(price), start_price) is Ok <==> price >= start_price,
        price >= start_price ==> bin_price_verdict(Some(price), start_price) == Ok::<
            Option<i32>,
            AnswerError,
        >(Some(price)),
{
}

} // verus!
