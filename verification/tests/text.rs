use angler::utils::string_set::StringSet;
use angler::utils::text::{
    chars_of, find, is_digit, is_whitespace, parse_digits, parse_unsigned, split_ranges, text_of,
    trim_bounds,
};

fn slice_of(v: &Vec<char>, range: (usize, usize)) -> String {
    v[range.0..range.1].iter().collect()
}

#[test]
fn text_of_gives_the_characters_of_the_range() {
    let v = chars_of("key=vàlue٣");
    assert_eq!(text_of(&v, 0, 3), "key");
    assert_eq!(text_of(&v, 4, 10), "vàlue٣");
    assert_eq!(text_of(&v, 0, v.len()), "key=vàlue٣");
    assert_eq!(text_of(&v, 3, 4), "=");
    assert_eq!(text_of(&v, 5, 5), "");
    assert_eq!(text_of(&Vec::new(), 0, 0), "");
}

#[test]
fn chars_of_gives_every_character() {
    assert_eq!(chars_of(""), Vec::<char>::new());
    assert_eq!(chars_of("a=b"), vec!['a', '=', 'b']);
    assert_eq!(chars_of("é٣ｄ"), vec!['é', '٣', 'ｄ']);
}

#[test]
fn whitespace_is_the_unicode_property() {
    for code in 0..=0x10FFFFu32 {
        if let Some(c) = char::from_u32(code) {
            assert_eq!(is_whitespace(c), c.is_whitespace(), "U+{code:04X}");
        }
    }
}

#[test]
fn digits_are_the_ascii_digits() {
    for code in 0..=0x10FFFFu32 {
        if let Some(c) = char::from_u32(code) {
            assert_eq!(is_digit(c), c.is_ascii_digit(), "U+{code:04X}");
        }
    }
}

#[test]
fn trim_bounds_agrees_with_trim() {
    for text in
        ["", " ", "a", " a", "a ", "  a b  ", "\t\r\n x \u{3000}", "\u{a0}k=v\u{2003}", "   ", "a\n"]
    {
        let v = chars_of(text);
        let bounds = trim_bounds(&v, 0, v.len());
        assert_eq!(slice_of(&v, bounds), text.trim(), "{text:?}");
    }
}

#[test]
fn trim_bounds_stays_inside_its_range() {
    let v = chars_of("  ab  cd  ");
    assert_eq!(trim_bounds(&v, 0, 10), (2, 8));
    assert_eq!(trim_bounds(&v, 3, 7), (3, 7));
    assert_eq!(trim_bounds(&v, 4, 6), (6, 6));
    assert_eq!(trim_bounds(&v, 4, 8), (6, 8));
    assert_eq!(trim_bounds(&v, 5, 5), (5, 5));
}

#[test]
fn find_gives_the_first_occurrence_or_the_end() {
    let v = chars_of("a=b=c");
    assert_eq!(find(&v, 0, 5, '='), 1);
    assert_eq!(find(&v, 2, 5, '='), 3);
    assert_eq!(find(&v, 4, 5, '='), 5);
    assert_eq!(find(&v, 0, 1, '='), 1);
    assert_eq!(find(&v, 0, 5, 'x'), 5);
    assert_eq!(find(&v, 3, 3, '='), 3);
}

#[test]
fn split_ranges_agrees_with_split() {
    for text in ["", ",", "a", "a,b", "a,,b", ",a,", "a, b ,c", ",,,", "no separator here"] {
        let v = chars_of(text);
        let pieces: Vec<String> =
            split_ranges(&v, 0, v.len(), ',').into_iter().map(|r| slice_of(&v, r)).collect();
        let expected: Vec<String> = text.split(',').map(String::from).collect();
        assert_eq!(pieces, expected, "{text:?}");
    }
}

#[test]
fn split_ranges_cuts_only_its_range() {
    let v = chars_of("[a,b,c]");
    assert_eq!(split_ranges(&v, 1, 6, ','), vec![(1, 2), (3, 4), (5, 6)]);
    assert_eq!(split_ranges(&v, 2, 5, ','), vec![(2, 2), (3, 4), (5, 5)]);
    assert_eq!(split_ranges(&v, 3, 3, ','), vec![(3, 3)]);
}

#[test]
fn parse_digits_reads_a_run_of_digits() {
    let v = chars_of("x0042y");
    assert_eq!(parse_digits(&v, 1, 5, u64::MAX), Some(42));
    assert_eq!(parse_digits(&v, 1, 5, 42), Some(42));
    assert_eq!(parse_digits(&v, 1, 5, 41), None);
    assert_eq!(parse_digits(&v, 1, 4, 41), Some(4));
    assert_eq!(parse_digits(&v, 0, 5, u64::MAX), None);
    assert_eq!(parse_digits(&v, 1, 6, u64::MAX), None);
    assert_eq!(parse_digits(&v, 3, 3, u64::MAX), None);
    assert_eq!(parse_digits(&v, 1, 3, 0), Some(0));
}

#[test]
fn parse_digits_stops_at_the_bound() {
    let v = chars_of("18446744073709551615");
    assert_eq!(parse_digits(&v, 0, v.len(), u64::MAX), Some(u64::MAX));
    assert_eq!(parse_digits(&v, 0, v.len(), u64::MAX - 1), None);
    let v = chars_of("18446744073709551616");
    assert_eq!(parse_digits(&v, 0, v.len(), u64::MAX), None);
    let v = chars_of("000000000000000000000000000000000000018446744073709551615");
    assert_eq!(parse_digits(&v, 0, v.len(), u64::MAX), Some(u64::MAX));
    let v = chars_of("99999999999999999999999999999999999999");
    assert_eq!(parse_digits(&v, 0, v.len(), u64::MAX), None);
    assert_eq!(parse_digits(&v, 0, v.len(), 0), None);
}

#[test]
fn parse_unsigned_agrees_with_the_standard_parser() {
    for text in [
        "", "+", "-", "0", "+0", "-0", "7", "+7", "-7", "++7", "+-7", "007", "+007", "65535",
        "65536", "18446744073709551615", "18446744073709551616", " 7", "7 ", "7a", "a7", "٣",
        "1_000", "0x10", "1e3", "+ 7",
    ] {
        let v = chars_of(text);
        let expected = text.parse::<u64>().ok();
        assert_eq!(parse_unsigned(&v, 0, v.len(), u64::MAX), expected, "{text:?}");
        let expected = text.parse::<u16>().ok().map(u64::from);
        assert_eq!(parse_unsigned(&v, 0, v.len(), 65535), expected, "{text:?}");
    }
}

#[test]
fn a_string_set_holds_each_string_once() {
    let mut set = StringSet::new();
    assert_eq!(set.len(), 0);
    assert!(!set.contains("restful"));
    assert!(set.insert(String::from("restful")));
    assert!(set.insert(String::from("grpc")));
    assert!(!set.insert(String::from("restful")));
    assert_eq!(set.len(), 2);
    assert!(set.contains("restful"));
    assert!(set.contains("grpc"));
    assert!(!set.contains("Restful"));
    assert!(!set.contains(""));
    assert_eq!(set.items(), &vec![String::from("restful"), String::from("grpc")]);
}

#[test]
fn string_sets_are_equal_whatever_the_order() {
    let mut a = StringSet::new();
    a.insert(String::from("x"));
    a.insert(String::from("y"));
    let mut b = StringSet::new();
    b.insert(String::from("y"));
    b.insert(String::from("x"));
    let mut c = StringSet::new();
    c.insert(String::from("x"));
    c.insert(String::from("z"));
    let mut d = StringSet::new();
    d.insert(String::from("x"));
    assert_eq!(a, b);
    assert_ne!(a, c);
    assert_ne!(a, d);
    assert_ne!(d, a);
    assert_eq!(StringSet::new(), StringSet::new());
    let copy = a.clone();
    assert_eq!(copy, a);
    assert_eq!(copy.len(), 2);
}
