use vstd::prelude::*;
use vstd::string::StrSliceExecFns;

verus! {

/// `String::push` of std appends the character to the end of the string.
pub assume_specification[ String::push ](text: &mut String, ch: char)
    ensures
        final(text)@ == old(text)@.push(ch),
;

/// What `str::to_lowercase` of std makes of a text.
pub uninterp spec fn lowercase_of(text: Seq<char>) -> Seq<char>;

/// `str::to_lowercase` of std returns the lowercase equivalent of the text as
/// a new string; the result is named, not described.
pub assume_specification[ str::to_lowercase ](text: &str) -> (lower: String)
    ensures
        lower@ == lowercase_of(text@),
;

/// What the first match of the regular expression `pattern` in `text`
/// captures in its group named `group`: `None` where the pattern is not a
/// regular expression or matches nowhere in the text, `Some(None)` where it
/// matches and the group took no part in the match or the pattern has no
/// group of that name, and the text that the group matched otherwise.
pub uninterp spec fn regex_capture(pattern: Seq<char>, text: Seq<char>, group: Seq<char>) -> Option<
    Option<Seq<char>>,
>;

/// A capture as the texts it holds.
pub open spec fn capture_view(found: Option<Option<String>>) -> Option<Option<Seq<char>>> {
    match found {
        Some(Some(text)) => Some(Some(text@)),
        Some(None) => Some(None),
        None => None,
    }
}

/// Compiles `pattern` with `regex::Regex::new`, searches `text` with
/// `Regex::captures` and reads the group with `Captures::name` and
/// `Match::as_str`. The result is named, not described: it is
/// `regex_capture` of the three texts.
#[verifier::external_body]
pub(crate) fn capture(pattern: &str, text: &str, group: &str) -> (found: Option<Option<String>>)
    ensures
        capture_view(found) == regex_capture(pattern@, text@, group@),
{
    let regex = match regex::Regex::new(pattern) {
        Ok(regex) => regex,
        Err(_) => return None,
    };
    match regex.captures(text) {
        Some(captures) => match captures.name(group) {
            Some(found) => Some(Some(found.as_str().to_string())),
            None => Some(None),
        },
        None => None,
    }
}

/// The character is one of the ten decimal digits `0` to `9`.
pub open spec fn is_digit(c: char) -> bool {
    '0' <= c <= '9'
}

/// The number that a decimal digit stands for.
pub open spec fn digit_value(c: char) -> nat {
    (c as int - '0' as int) as nat
}

/// Every character of the text is a decimal digit.
pub open spec fn all_digits(text: Seq<char>) -> bool {
    forall|i: int| 0 <= i < text.len() ==> is_digit(#[trigger] text[i])
}

/// The number that a text of decimal digits stands for; 0 for the empty text.
pub open spec fn decimal_value(text: Seq<char>) -> nat
    decreases text.len(),
{
    if text.len() == 0 {
        0
    } else {
        decimal_value(text.drop_last()) * 10 + digit_value(text.last())
    }
}

/// The number that `text` stands for, where `text` is one or more decimal
/// digits and nothing else, and the number is at most `limit`.
pub open spec fn decimal_number(text: Seq<char>, limit: nat) -> Option<nat> {
    if text.len() > 0 && all_digits(text) && decimal_value(text) <= limit {
        Some(decimal_value(text))
    } else {
        None
    }
}

/// A longer text of digits stands for a number that is no smaller than the
/// number of any of its beginnings.
pub proof fn lemma_decimal_value_grows(text: Seq<char>, n: int)
    requires
        0 <= n <= text.len(),
    ensures
        decimal_value(text.take(n)) <= decimal_value(text),
    decreases text.len() - n,
{
    if n < text.len() {
        lemma_decimal_value_grows(text, n + 1);
        assert(text.take(n + 1).drop_last() == text.take(n));
    } else {
        assert(text.take(n) == text);
    }
}

/// Reads a number written as one or more decimal digits.
pub fn parse_decimal(text: &str, limit: u64) -> (number: Option<u64>)
    ensures
        number.is_some() == decimal_number(text@, limit as nat).is_some(),
        number matches Some(n) ==> decimal_number(text@, limit as nat) == Some(n as nat),
{
    let len = text.unicode_len();
    if len == 0 {
        return None;
    }
    let mut value: u64 = 0;
    let mut i: usize = 0;
    while i < len
        invariant
            i <= len,
            len == text@.len(),
            all_digits(text@.take(i as int)),
            value == decimal_value(text@.take(i as int)),
            value <= limit,
        decreases len - i,
    {
        let c = text.get_char(i);
        proof {
            assert(text@.take(i + 1).drop_last() == text@.take(i as int));
            assert(text@.take(i + 1).last() == c);
        }
        if !(c >= '0' && c <= '9') {
            proof {
                assert(!is_digit(text@[i as int]));
            }
            return None;
        }
        let digit = (c as u32 - '0' as u32) as u64;
        proof {
            lemma_decimal_value_grows(text@, i + 1);
        }
        let next = match value.checked_mul(10) {
            Some(tens) => match tens.checked_add(digit) {
                Some(next) => next,
                None => {
                    return None;
                },
            },
            None => {
                return None;
            },
        };
        if next > limit {
            return None;
        }
        value = next;
        i += 1;
        proof {
            assert forall|k: int| 0 <= k < i implies is_digit(#[trigger] text@.take(i as int)[k]) by {
                if k < i - 1 {
                    assert(is_digit(text@.take(i - 1)[k]));
                }
            }
        }
    }
    proof {
        assert(text@.take(i as int) == text@);
    }
    Some(value)
}

/// The character that stands for a number below ten.
pub open spec fn digit_char(digit: nat) -> char {
    ('0' as int + digit) as char
}

/// The decimal digits of a number, without leading zeros.
pub open spec fn decimal_digits(number: nat) -> Seq<char>
    decreases number,
{
    if number < 10 {
        seq![digit_char(number)]
    } else {
        decimal_digits(number / 10).push(digit_char(number % 10))
    }
}

/// The digits of a number are digits, and stand for the number.
pub proof fn lemma_decimal_digits_value(number: nat)
    ensures
        decimal_digits(number).len() > 0,
        all_digits(decimal_digits(number)),
        decimal_value(decimal_digits(number)) == number,
    decreases number,
{
    let digits = decimal_digits(number);
    if number < 10 {
        assert(digits.drop_last() == Seq::<char>::empty());
        assert(decimal_value(digits.drop_last()) == 0);
        assert(digits.last() == digit_char(number));
    } else {
        lemma_decimal_digits_value(number / 10);
        let front = decimal_digits(number / 10);
        assert(digits.drop_last() == front);
        assert(digits.last() == digit_char(number % 10));
        assert forall|i: int| 0 <= i < digits.len() implies is_digit(#[trigger] digits[i]) by {
            if i < front.len() {
                assert(is_digit(front[i]));
            }
        }
    }
}

/// The character of a digit.
fn digit_of(digit: u32) -> (c: char)
    requires
        digit < 10,
    ensures
        c == digit_char(digit as nat),
{
    if digit == 0 {
        '0'
    } else if digit == 1 {
        '1'
    } else if digit == 2 {
        '2'
    } else if digit == 3 {
        '3'
    } else if digit == 4 {
        '4'
    } else if digit == 5 {
        '5'
    } else if digit == 6 {
        '6'
    } else if digit == 7 {
        '7'
    } else if digit == 8 {
        '8'
    } else {
        '9'
    }
}

/// Appends the decimal digits of `number` to `out`.
pub fn push_decimal(out: &mut String, number: u32)
    ensures
        final(out)@ == old(out)@ + decimal_digits(number as nat),
    decreases number,
{
    if number >= 10 {
        push_decimal(out, number / 10);
    }
    out.push(digit_of(number % 10));
}

/// Appends `text` to `out`.
pub fn push_text(out: &mut String, text: &str)
    ensures
        final(out)@ == old(out)@ + text@,
{
    let len = text.unicode_len();
    let mut i: usize = 0;
    while i < len
        invariant
            i <= len,
            len == text@.len(),
            out@ == old(out)@ + text@.take(i as int),
        decreases len - i,
    {
        out.push(text.get_char(i));
        i += 1;
        proof {
            assert(text@.take(i as int) == text@.take(i - 1).push(text@[i - 1]));
        }
    }
    proof {
        assert(text@.take(i as int) == text@);
    }
}

/// The pieces into which the separator cuts a text: the text between each
/// two separators, before the first and after the last, empty ones included.
/// A text without separator is its own single piece.
pub open spec fn split_on(text: Seq<char>, separator: char) -> Seq<Seq<char>>
    decreases text.len(),
{
    if text.len() == 0 {
        seq![Seq::<char>::empty()]
    } else {
        let pieces = split_on(text.drop_last(), separator);
        if text.last() == separator {
            pieces.push(Seq::<char>::empty())
        } else {
            pieces.update(pieces.len() - 1, pieces.last().push(text.last()))
        }
    }
}

/// Cuts `text` at every `separator`.
pub fn split<'a>(text: &'a str, separator: char) -> (pieces: Vec<&'a str>)
    ensures
        pieces@.len() == split_on(text@, separator).len(),
        forall|k: int|
            0 <= k < pieces@.len() ==> (#[trigger] pieces@[k])@ == split_on(text@, separator)[k],
{
    let len = text.unicode_len();
    let mut pieces: Vec<&'a str> = Vec::new();
    let mut start: usize = 0;
    let mut i: usize = 0;
    proof {
        assert(text@.take(0) == Seq::<char>::empty());
        assert(text@.subrange(0, 0) == Seq::<char>::empty());
    }
    while i < len
        invariant
            start <= i <= len,
            len == text@.len(),
            split_on(text@.take(i as int), separator).len() == pieces@.len() + 1,
            forall|k: int|
                0 <= k < pieces@.len() ==> (#[trigger] pieces@[k])@ == split_on(
                    text@.take(i as int),
                    separator,
                )[k],
            split_on(text@.take(i as int), separator).last() == text@.subrange(
                start as int,
                i as int,
            ),
        decreases len - i,
    {
        let c = text.get_char(i);
        proof {
            assert(text@.take(i + 1).drop_last() == text@.take(i as int));
            assert(text@.take(i + 1).last() == c);
        }
        if c == separator {
            pieces.push(text.substring_char(start, i));
            start = i + 1;
            proof {
                assert(text@.subrange(start as int, i + 1) == Seq::<char>::empty());
            }
        } else {
            proof {
                assert(text@.subrange(start as int, i + 1) == text@.subrange(
                    start as int,
                    i as int,
                ).push(c));
            }
        }
        i += 1;
    }
    pieces.push(text.substring_char(start, len));
    proof {
        assert(text@.take(len as int) == text@);
    }
    pieces
}

/// Whether two texts are the same, character by character.
pub fn same_text(left: &str, right: &str) -> (same: bool)
    ensures
        same == (left@ == right@),
{
    let len = left.unicode_len();
    if len != right.unicode_len() {
        return false;
    }
    let mut i: usize = 0;
    while i < len
        invariant
            i <= len,
            len == left@.len(),
            len == right@.len(),
            forall|k: int| 0 <= k < i ==> left@[k] == right@[k],
        decreases len - i,
    {
        if left.get_char(i) != right.get_char(i) {
            return false;
        }
        i += 1;
    }
    proof {
        assert(left@ =~= right@);
    }
    true
}

/// Whether the character occurs in the text.
pub fn has_char(text: &str, c: char) -> (found: bool)
    ensures
        found == text@.contains(c),
{
    let len = text.unicode_len();
    let mut i: usize = 0;
    while i < len
        invariant
            i <= len,
            len == text@.len(),
            forall|k: int| 0 <= k < i ==> text@[k] != c,
        decreases len - i,
    {
        if text.get_char(i) == c {
            return true;
        }
        i += 1;
    }
    false
}

/// `text` with zeros before it, as many as it is shorter than `width`.
pub open spec fn zero_padded(text: Seq<char>, width: nat) -> Seq<char> {
    if text.len() >= width {
        text
    } else {
        Seq::new((width - text.len()) as nat, |i: int| '0') + text
    }
}

/// Appends `text` to `out`, after as many zeros as it is shorter than `width`.
pub fn push_padded(out: &mut String, text: &str, width: usize)
    ensures
        final(out)@ == old(out)@ + zero_padded(text@, width as nat),
{
    let len = text.unicode_len();
    let mut i: usize = len;
    while i < width
        invariant
            len <= i,
            len < width ==> i <= width,
            len >= width ==> i == len,
            len == text@.len(),
            out@ == old(out)@ + Seq::new((i - len) as nat, |k: int| '0'),
        decreases width - i,
    {
        out.push('0');
        i += 1;
        proof {
            assert(Seq::new((i - len) as nat, |k: int| '0') =~= Seq::new(
                (i - 1 - len) as nat,
                |k: int| '0',
            ).push('0'));
        }
    }
    let ghost zeros = out@;
    push_text(out, text);
    proof {
        if len >= width {
            assert(Seq::new((i - len) as nat, |k: int| '0') =~= Seq::<char>::empty());
            assert(zeros =~= old(out)@);
        } else {
            assert(out@ =~= old(out)@ + (Seq::new((width - len) as nat, |k: int| '0') + text@));
        }
    }
}

/// The character is whitespace: one of the characters with the Unicode
/// property `White_Space`.
pub open spec fn is_white_space(c: char) -> bool {
    let code = c as u32;
    ||| 0x09 <= code <= 0x0d
    ||| code == 0x20
    ||| code == 0x85
    ||| code == 0xa0
    ||| code == 0x1680
    ||| 0x2000 <= code <= 0x200a
    ||| code == 0x2028
    ||| code == 0x2029
    ||| code == 0x202f
    ||| code == 0x205f
    ||| code == 0x3000
}

/// Whether the character is whitespace.
pub fn is_space(c: char) -> (yes: bool)
    ensures
        yes == is_white_space(c),
{
    let code = c as u32;
    (0x09 <= code && code <= 0x0d) || code == 0x20 || code == 0x85 || code == 0xa0 || code
        == 0x1680 || (0x2000 <= code && code <= 0x200a) || code == 0x2028 || code == 0x2029
        || code == 0x202f || code == 0x205f || code == 0x3000
}

/// How many whitespace characters a text starts with.
pub open spec fn leading_spaces(text: Seq<char>) -> nat
    decreases text.len(),
{
    if text.len() > 0 && is_white_space(text.first()) {
        1 + leading_spaces(text.drop_first())
    } else {
        0
    }
}

/// How many whitespace characters a text ends with.
pub open spec fn trailing_spaces(text: Seq<char>) -> nat
    decreases text.len(),
{
    if text.len() > 0 && is_white_space(text.last()) {
        1 + trailing_spaces(text.drop_last())
    } else {
        0
    }
}

/// A text without the whitespace at its start and at its end.
pub open spec fn trimmed(text: Seq<char>) -> Seq<char> {
    let rest = text.skip(leading_spaces(text) as int);
    rest.take(rest.len() - trailing_spaces(rest))
}

/// A text that starts with `count` whitespace characters starts with as many
/// more as what follows them does.
proof fn lemma_leading_spaces(text: Seq<char>, count: int)
    requires
        0 <= count <= text.len(),
        forall|k: int| 0 <= k < count ==> is_white_space(#[trigger] text[k]),
    ensures
        leading_spaces(text) == count + leading_spaces(text.skip(count)),
    decreases count,
{
    if count == 0 {
        assert(text.skip(0) == text);
    } else {
        let rest = text.drop_first();
        assert forall|k: int| 0 <= k < count - 1 implies is_white_space(#[trigger] rest[k]) by {
            assert(rest[k] == text[k + 1]);
        }
        lemma_leading_spaces(rest, count - 1);
        assert(rest.skip(count - 1) == text.skip(count));
        assert(is_white_space(text[0]));
    }
}

/// A text that ends with `count` whitespace characters ends with as many
/// more as what stands before them does.
proof fn lemma_trailing_spaces(text: Seq<char>, count: int)
    requires
        0 <= count <= text.len(),
        forall|k: int| text.len() - count <= k < text.len() ==> is_white_space(#[trigger] text[k]),
    ensures
        trailing_spaces(text) == count + trailing_spaces(text.take(text.len() - count)),
    decreases count,
{
    if count == 0 {
        assert(text.take(text.len() as int) == text);
    } else {
        let rest = text.drop_last();
        assert forall|k: int| rest.len() - (count - 1) <= k < rest.len() implies is_white_space(
            #[trigger] rest[k],
        ) by {
            assert(rest[k] == text[k]);
        }
        lemma_trailing_spaces(rest, count - 1);
        assert(rest.take(rest.len() - (count - 1)) == text.take(text.len() - count));
        assert(is_white_space(text[text.len() - 1]));
    }
}

/// The text without the whitespace at its start and at its end.
pub fn trim<'a>(text: &'a str) -> (rest: &'a str)
    ensures
        rest@ == trimmed(text@),
{
    let len = text.unicode_len();
    let mut start: usize = 0;
    while start < len && is_space(text.get_char(start))
        invariant
            start <= len,
            len == text@.len(),
            forall|k: int| 0 <= k < start ==> is_white_space(#[trigger] text@[k]),
        decreases len - start,
    {
        start += 1;
    }
    let mut end: usize = len;
    while end > start && is_space(text.get_char(end - 1))
        invariant
            start <= end <= len,
            len == text@.len(),
            forall|k: int| end <= k < len ==> is_white_space(#[trigger] text@[k]),
        decreases end,
    {
        end -= 1;
    }
    proof {
        let after = text@.skip(start as int);
        lemma_leading_spaces(text@, start as int);
        if start < len {
            assert(after.first() == text@[start as int]);
        }
        assert(leading_spaces(after) == 0);
        assert forall|k: int| after.len() - (len - end) <= k < after.len() implies is_white_space(
            #[trigger] after[k],
        ) by {
            assert(after[k] == text@[k + start]);
        }
        lemma_trailing_spaces(after, len - end);
        let kept = after.take(after.len() - (len - end));
        if end > start {
            assert(kept.last() == text@[end - 1]);
        }
        assert(trailing_spaces(kept) == 0);
        assert(kept == text@.subrange(start as int, end as int));
    }
    text.substring_char(start, end)
}

} // verus!
