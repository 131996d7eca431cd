use auction_bot::formats::{
    datetime, datetime_from, display_name, duration, duration_from, get_nick, int_to_stack,
    last_day, leap_year, stack_to_int, stack_with_raw, term_from, Membership,
};
use auction_bot::text::{
    has_char, is_space, parse_decimal, push_decimal, push_padded, push_text, same_text, split,
    trim,
};

fn group(text: &str) -> Option<Option<String>> {
    Some(Some(text.to_string()))
}

#[test]
fn last_day_of_each_kind_of_month() {
    assert_eq!(last_day(2024, 1), 31);
    assert_eq!(last_day(2024, 4), 30);
    assert_eq!(last_day(2024, 6), 30);
    assert_eq!(last_day(2024, 9), 30);
    assert_eq!(last_day(2024, 11), 30);
    assert_eq!(last_day(2024, 12), 31);
    assert_eq!(last_day(2024, 2), 29);
    assert_eq!(last_day(2023, 2), 28);
    assert_eq!(last_day(1900, 2), 28);
    assert_eq!(last_day(2000, 2), 29);
    assert_eq!(last_day(-4, 2), 29);
    assert_eq!(last_day(-100, 2), 28);
    assert_eq!(last_day(2024, 13), 31);
}

#[test]
fn leap_years() {
    assert!(leap_year(2024));
    assert!(leap_year(2000));
    assert!(leap_year(-400));
    assert!(!leap_year(2100));
    assert!(!leap_year(2023));
    assert!(!leap_year(-1));
}

#[test]
fn int_to_stack_writes_each_unit() {
    assert_eq!(int_to_stack(3600), "1LC+2st+16個");
    assert_eq!(int_to_stack(3456), "1LC");
    assert_eq!(int_to_stack(3457), "1LC+1個");
    assert_eq!(int_to_stack(64), "1st");
    assert_eq!(int_to_stack(63), "63個");
    assert_eq!(int_to_stack(1), "1個");
    assert_eq!(int_to_stack(0), "");
    assert_eq!(int_to_stack(-5), "");
    assert_eq!(int_to_stack(i32::MIN), "");
    assert_eq!(int_to_stack(i32::MAX), "621378LC+19st+63個");
}

#[test]
fn stack_with_raw_adds_the_number_from_one_stack_on() {
    assert_eq!(stack_with_raw(130), "2st+2個 (130)");
    assert_eq!(stack_with_raw(64), "1st (64)");
    assert_eq!(stack_with_raw(63), "63個");
    assert_eq!(stack_with_raw(0), "");
    assert_eq!(stack_with_raw(-64), "");
}

#[test]
fn stack_to_int_reads_terms() {
    assert_eq!(stack_to_int("1lc+1st+1"), Some(3521));
    assert_eq!(stack_to_int("1st+1"), Some(65));
    assert_eq!(stack_to_int("32"), Some(32));
    assert_eq!(stack_to_int("0"), Some(0));
    assert_eq!(stack_to_int("1LC + 2ST"), Some(3456 + 128));
    assert_eq!(stack_to_int(" 7 "), Some(7));
    assert_eq!(stack_to_int("5+5+5"), Some(15));
}

#[test]
fn stack_to_int_turns_down_what_is_no_price() {
    assert_eq!(stack_to_int(""), None);
    assert_eq!(stack_to_int("abc"), None);
    assert_eq!(stack_to_int("1.5st"), None);
    assert_eq!(stack_to_int("1 st"), None);
    assert_eq!(stack_to_int("1+"), None);
    assert_eq!(stack_to_int("-1"), None);
    assert_eq!(stack_to_int("123456789"), None);
    assert_eq!(stack_to_int("1kg"), None);
}

#[test]
fn stack_to_int_stops_at_the_largest_price() {
    assert_eq!(stack_to_int("621378lc+19st+63"), Some(i32::MAX));
    assert_eq!(stack_to_int("621378lc+19st+64"), None);
    assert_eq!(stack_to_int("99999999lc"), None);
}

#[test]
fn prices_survive_writing_and_reading() {
    for price in [1, 63, 64, 65, 3455, 3456, 3457, 100_000, i32::MAX] {
        assert_eq!(stack_to_int(&int_to_stack(price).replace('個', "")), Some(price));
    }
}

#[test]
fn term_from_multiplies_by_the_unit() {
    assert_eq!(term_from(&group("12"), &group("")), Some(12));
    assert_eq!(term_from(&group("12"), &group("st")), Some(768));
    assert_eq!(term_from(&group("12"), &group("lc")), Some(41_472));
    assert_eq!(term_from(&group("12"), &group("kg")), None);
    assert_eq!(term_from(&group("12"), &Some(None)), None);
    assert_eq!(term_from(&group("12"), &None), None);
    assert_eq!(term_from(&group(""), &group("st")), None);
    assert_eq!(term_from(&group("１２"), &group("st")), None);
    assert_eq!(term_from(&group("100000000"), &group("")), None);
    assert_eq!(term_from(&None, &group("")), None);
}

#[test]
fn datetime_reads_the_five_numbers() {
    assert_eq!(datetime("2024/05/14-20:00"), Some((2024, 5, 14, 20, 0)));
    assert_eq!(datetime("2024-5-14 9:05"), Some((2024, 5, 14, 9, 5)));
    assert_eq!(datetime("2024/05/14T24:00"), Some((2024, 5, 14, 24, 0)));
    assert_eq!(datetime("2024/05/14t07:30"), Some((2024, 5, 14, 7, 30)));
    assert_eq!(datetime("0000/99/99-99:99"), Some((0, 99, 99, 99, 99)));
}

#[test]
fn datetime_turns_down_other_texts() {
    assert_eq!(datetime("24/05/14-20:00"), None);
    assert_eq!(datetime("2024/05/14"), None);
    assert_eq!(datetime("2024/05/14-20:00 "), None);
    assert_eq!(datetime("2024/05/14-20:000"), None);
    assert_eq!(datetime("1M2w"), None);
    assert_eq!(datetime(""), None);
}

#[test]
fn datetime_from_needs_every_group() {
    let (y, mo, d, h, mi) = (group("2024"), group("5"), group("14"), group("20"), group("00"));
    assert_eq!(datetime_from(&y, &mo, &d, &h, &mi), Some((2024, 5, 14, 20, 0)));
    assert_eq!(datetime_from(&None, &mo, &d, &h, &mi), None);
    assert_eq!(datetime_from(&y, &Some(None), &d, &h, &mi), None);
    assert_eq!(datetime_from(&y, &mo, &group("x"), &h, &mi), None);
    assert_eq!(datetime_from(&y, &mo, &d, &group(""), &mi), None);
    assert_eq!(datetime_from(&y, &mo, &d, &h, &group("4294967296")), None);
    assert_eq!(datetime_from(&group("2147483648"), &mo, &d, &h, &mi), None);
}

#[test]
fn duration_reads_months_and_seconds() {
    assert_eq!(
        duration("1M2w3d4h5m"),
        Some((1, 2 * 604_800 + 3 * 86_400 + 4 * 3_600 + 5 * 60))
    );
    assert_eq!(duration("5M"), Some((5, 0)));
    assert_eq!(duration("2w"), Some((0, 1_209_600)));
    assert_eq!(duration("3D"), Some((0, 259_200)));
    assert_eq!(duration("3h"), Some((0, 10_800)));
    assert_eq!(duration("1M5m"), Some((1, 300)));
    assert_eq!(duration("9999M99999w99999d99999h99999m"), Some((9999, 69_485_305_140)));
}

#[test]
fn duration_takes_a_lone_small_m_for_minutes() {
    assert_eq!(duration("5m"), Some((0, 300)));
    assert_eq!(duration("90m"), Some((0, 5_400)));
    assert_eq!(duration("5m2w"), Some((5, 1_209_600)));
    assert_eq!(duration("2w1M"), Some((0, 1_209_660)));
}

#[test]
fn duration_turns_down_other_texts() {
    assert_eq!(duration(""), None);
    assert_eq!(duration("abc"), None);
    assert_eq!(duration("5"), None);
    assert_eq!(duration("1d2w"), None);
    assert_eq!(duration("2w 1d"), None);
    assert_eq!(duration("100000d"), None);
    assert_eq!(duration("2024/05/14-20:00"), None);
}

#[test]
fn duration_from_judges_the_groups() {
    let none = Some(None);
    assert_eq!(duration_from(&None, &None, &None, &None, &None, &None), None);
    assert_eq!(duration_from(&none, &none, &none, &none, &none, &none), Some((0, 0)));
    assert_eq!(
        duration_from(&group("7"), &group("m"), &none, &none, &none, &none),
        Some((0, 420))
    );
    assert_eq!(
        duration_from(&group("7"), &group("M"), &none, &none, &none, &none),
        Some((7, 0))
    );
    assert_eq!(
        duration_from(&group("7"), &group("m"), &none, &group("1"), &none, &none),
        Some((7, 86_400))
    );
    assert_eq!(duration_from(&group("x"), &group("M"), &none, &none, &none, &none), None);
    assert_eq!(duration_from(&group("10000"), &group("M"), &none, &none, &none, &none), None);
    assert_eq!(duration_from(&none, &none, &group("100000"), &none, &none, &none), None);
}

#[test]
fn get_nick_prefers_the_nickname() {
    assert_eq!(get_nick(Some("nick"), "user"), "nick");
    assert_eq!(get_nick(None, "user"), "user");
}

#[test]
fn display_name_by_membership() {
    let user = || String::from("user");
    assert_eq!(display_name(user(), Membership::NoGuild), "user");
    assert_eq!(display_name(user(), Membership::Member { nick: None }), "user");
    assert_eq!(
        display_name(user(), Membership::Member { nick: Some(String::from("nick")) }),
        "nick"
    );
    assert_eq!(display_name(user(), Membership::Gone), "退出済みのユーザー");
}

#[test]
fn parse_decimal_reads_digits_only() {
    assert_eq!(parse_decimal("0", 10), Some(0));
    assert_eq!(parse_decimal("007", 10), Some(7));
    assert_eq!(parse_decimal("10", 10), Some(10));
    assert_eq!(parse_decimal("11", 10), None);
    assert_eq!(parse_decimal("", 10), None);
    assert_eq!(parse_decimal("+1", 10), None);
    assert_eq!(parse_decimal("1a", 10), None);
    assert_eq!(parse_decimal("٣", 10), None);
    assert_eq!(parse_decimal("18446744073709551615", u64::MAX), Some(u64::MAX));
    assert_eq!(parse_decimal("18446744073709551616", u64::MAX), None);
    assert_eq!(parse_decimal("99999999999999999999999", u64::MAX), None);
}

#[test]
fn push_decimal_writes_digits() {
    for (number, digits) in [(0, "0"), (7, "7"), (10, "10"), (4096, "4096"), (u32::MAX, "4294967295")] {
        let mut out = String::from("n=");
        push_decimal(&mut out, number);
        assert_eq!(out, format!("n={}", digits));
        assert_eq!(parse_decimal(digits, u64::MAX), Some(number as u64));
    }
}

#[test]
fn push_padded_fills_with_zeros() {
    let mut out = String::from(">");
    push_padded(&mut out, "7", 2);
    push_padded(&mut out, "12", 2);
    push_padded(&mut out, "123", 2);
    push_padded(&mut out, "", 3);
    push_text(&mut out, "<");
    assert_eq!(out, ">0712123000<");
}

#[test]
fn split_keeps_empty_pieces() {
    assert_eq!(split("a+b", '+'), vec!["a", "b"]);
    assert_eq!(split("", '+'), vec![""]);
    assert_eq!(split("+", '+'), vec!["", ""]);
    assert_eq!(split("a++b+", '+'), vec!["a", "", "b", ""]);
    assert_eq!(split("個+個", '+'), vec!["個", "個"]);
    assert_eq!(split("abc", '+'), vec!["abc"]);
}

#[test]
fn same_text_compares_characters() {
    assert!(same_text("", ""));
    assert!(same_text("なし", "なし"));
    assert!(!same_text("なし", "なに"));
    assert!(!same_text("a", "ab"));
}

#[test]
fn split_agrees_with_std() {
    for text in ["", "+", "a", "a+b", "+a", "a+", "++", "1lc + 2st+3", "個+個+"] {
        assert_eq!(split(text, '+'), text.split('+').collect::<Vec<_>>());
    }
}

#[test]
fn is_space_agrees_with_std() {
    for code in 0..=0x10ffff_u32 {
        if let Some(c) = char::from_u32(code) {
            assert_eq!(is_space(c), c.is_whitespace(), "U+{:04X}", code);
        }
    }
}

#[test]
fn trim_agrees_with_std() {
    let texts = [
        "",
        " ",
        "a",
        " a",
        "a ",
        "  a b  ",
        "\t\n a \r\n",
        "\u{3000}1st\u{3000}",
        "\u{a0}x\u{2003}y\u{85}",
        " \u{200b} ",
        "   ",
    ];
    for text in texts {
        assert_eq!(trim(text), text.trim(), "{:?}", text);
    }
    assert_eq!(trim("  1lc "), "1lc");
    assert_eq!(trim(" \u{200b} "), "\u{200b}");
}

#[test]
fn parse_decimal_agrees_with_std_on_digits() {
    for text in ["0", "1", "09", "10", "255", "4294967295", "0000000000000000000001"] {
        assert_eq!(parse_decimal(text, u64::MAX), text.parse::<u64>().ok());
    }
}

#[test]
fn has_char_finds_a_character() {
    assert!(has_char("a\nb", '\n'));
    assert!(has_char("個", '個'));
    assert!(!has_char("ab", '\n'));
    assert!(!has_char("", 'a'));
}
