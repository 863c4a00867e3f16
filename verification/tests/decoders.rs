use std::collections::{HashMap, HashSet};

use angler::ctx::properties::decode_properties;
use angler::ctx::rules::{decode_integer, decode_names};

/// Every text of at most `length` characters over `alphabet`.
fn every_text(alphabet: &[char], length: usize) -> Vec<String> {
    let mut all = vec![String::new()];
    let mut last = vec![String::new()];
    for _ in 0..length {
        let mut next = Vec::new();
        for text in &last {
            for c in alphabet {
                let mut longer = text.clone();
                longer.push(*c);
                next.push(longer);
            }
        }
        all.extend(next.iter().cloned());
        last = next;
    }
    all
}

/// The decoding of properties text, written with the standard library.
fn properties_by_the_book(content: &str, separator: char) -> HashMap<String, String> {
    let mut map: HashMap<String, String> = HashMap::new();
    for line in content.split(separator) {
        let line = line.trim();
        if line.starts_with('#') {
            continue;
        }
        let key_and_value: Vec<&str> = line.split('=').collect();
        if key_and_value.len() < 2 {
            continue;
        }
        map.insert(key_and_value[0].to_string(), key_and_value[1..].join("=").trim().to_string());
    }
    map
}

fn assert_same_properties(content: &str, separator: char) {
    let ours = decode_properties(content, separator);
    let theirs = properties_by_the_book(content, separator);
    assert_eq!(ours.len(), theirs.len(), "{content:?}");
    for (key, value) in &theirs {
        assert_eq!(ours.get(key), Some(value), "{content:?} at {key:?}");
    }
}

#[test]
fn properties_agree_with_the_standard_library_on_every_short_text() {
    let alphabet = ['a', 'b', '=', '#', ' ', '\n', ';'];
    for text in every_text(&alphabet, 6) {
        assert_same_properties(&text, '\n');
        assert_same_properties(&text, ';');
    }
}

#[test]
fn properties_agree_with_the_standard_library_on_a_file() {
    let content = "\u{feff}# first\r\n  name = Ada Lovelace \r\nurl=http://h/?a=1&b=2\r\n\r\n\
                   empty=\r\n=nokey\r\nname=Grace\r\n\u{3000}wide\u{a0}=\u{2003}v\u{2003}\r\nlast";
    assert_same_properties(content, '\n');
    assert_same_properties(content, ';');
    assert_same_properties(&content.replace("\r\n", ";"), ';');
}

#[test]
fn names_agree_with_the_standard_library_on_every_short_text() {
    let alphabet = ['a', 'b', ',', ' ', '\t'];
    for text in every_text(&alphabet, 6) {
        let ours = decode_names(&text);
        let theirs: HashSet<String> = text.split(',').map(|v| String::from(v.trim())).collect();
        assert_eq!(ours.len(), theirs.len(), "{text:?}");
        for name in &theirs {
            assert!(ours.contains(name), "{text:?} at {name:?}");
        }
    }
}

#[test]
fn integers_agree_with_the_standard_library_on_every_short_text() {
    let alphabet = ['0', '1', '5', '9', '+', '-', ' '];
    for text in every_text(&alphabet, 6) {
        assert_eq!(
            decode_integer(&text, 0, u16::MAX as u64),
            text.parse::<u16>().ok().map(u64::from),
            "{text:?}"
        );
        assert_eq!(
            decode_integer(&text, 0, u32::MAX as u64),
            text.parse::<u32>().ok().map(u64::from),
            "{text:?}"
        );
        // Of a signed number only what is not negative is taken, and no `-`.
        let signed = text.parse::<i64>().ok().filter(|n| *n >= 0 && !text.starts_with('-'));
        assert_eq!(
            decode_integer(&text, 0, i64::MAX as u64),
            signed.map(|n| n as u64),
            "{text:?}"
        );
        // A count that has to be positive leaves out zero.
        let positive = text.parse::<u16>().ok().filter(|n| *n >= 1);
        assert_eq!(decode_integer(&text, 1, u16::MAX as u64), positive.map(u64::from), "{text:?}");
    }
}
