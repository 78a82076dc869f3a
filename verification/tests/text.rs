use serverbox::numbers::{
    format_signed, format_unsigned, kib_bytes, parse_i64, parse_u32, parse_u64, parse_unsigned,
};
use serverbox::text::{
    after_prefix, alphanumeric, before_suffix, begins_with, chars_of, contains_str, digit,
    ends_with_str, find, glue2, glue3, glue5, glue7, holds_char, join_chars, join_from,
    join_strings, lines_str, lower_of, lowered, parts, parts_limited, piece, position, replaced, same, same_ignoring_case,
    space, split_char, split_last, split_text, string_of, strings_of, trim_str, trimmed_end_of,
    trimmed_start_of, words,
};
use serverbox::utf8::{
    byte_length, decode_chunk, decode_lossy, decode_strict, flush, width_of,
};

fn texts(items: Vec<Vec<char>>) -> Vec<String> {
    strings_of(&items)
}

#[test]
fn spaces_are_those_of_unicode() {
    for code in 0u32..0x110000 {
        if let Some(c) = char::from_u32(code) {
            assert_eq!(space(c), c.is_whitespace(), "{code:x}");
            assert_eq!(digit(c), c.is_ascii_digit());
            assert_eq!(alphanumeric(c), c.is_ascii_alphanumeric());
            assert_eq!(lower_of(c), c.to_ascii_lowercase());
            assert_eq!(width_of(c), c.len_utf8());
        }
    }
}

#[test]
fn lines_and_words_are_those_of_std() {
    for text in [
        "", "\n", "a", "a\n", "a\r\nb\r", "\r\n\r\n", "one\n\ntwo \n three", "a\rb\nc\r\r\n", "  x\ty  ",
        "\u{2003}wide\u{a0}space\u{85}next",
    ] {
        let mine = texts(lines_str(text));
        let theirs: Vec<String> = text.lines().map(|line| line.to_string()).collect();
        assert_eq!(mine, theirs, "{text:?}");
        let mine = texts(words(&chars_of(text)));
        let theirs: Vec<String> = text.split_whitespace().map(|word| word.to_string()).collect();
        assert_eq!(mine, theirs, "{text:?}");
        assert_eq!(trim_str(text), text.trim());
    }
}

#[test]
fn lines_that_are_joined_are_read_back() {
    let lines = vec!["first".to_string(), String::new(), "third line".to_string()];
    let joined = join_strings(&lines, "\n");
    assert_eq!(joined, "first\n\nthird line");
    assert_eq!(texts(lines_str(&joined)), lines);
}

#[test]
fn texts_are_taken_apart() {
    assert!(holds_char("a:b", ':') && holds_char("b\u{e9}", '\u{e9}'));
    assert!(!holds_char("a:b", 'c') && !holds_char("", 'c'));
    let line = chars_of("a:b::c");
    assert_eq!(texts(parts(&line, ':')), vec!["a", "b", "", "c"]);
    assert_eq!(texts(parts_limited(&line, ':', 2)), vec!["a", "b::c"]);
    assert_eq!(texts(parts_limited(&line, ':', 1)), vec!["a:b::c"]);
    let (left, right) = split_char(&line, ':').unwrap();
    assert_eq!((string_of(&left), string_of(&right)), ("a".to_string(), "b::c".to_string()));
    assert!(split_char(&line, '/').is_none());
    let (left, right) = split_text(&line, "::").unwrap();
    assert_eq!((string_of(&left), string_of(&right)), ("a:b".to_string(), "c".to_string()));
    let (left, right) = split_last(&chars_of("x=1=2"), "=").unwrap();
    assert_eq!((string_of(&left), string_of(&right)), ("x=1".to_string(), "2".to_string()));
    assert_eq!(position(&line, 0, ':'), 1);
    assert_eq!(position(&line, 2, ':'), 3);
    assert_eq!(position(&line, 0, '/'), 6);
    assert_eq!(find(&line, &chars_of("::"), 0), Some(3));
    assert_eq!(find(&line, &chars_of("::"), 4), None);
    assert_eq!(string_of(&piece(&line, 2, 5)), "b::");
    assert_eq!(after_prefix(&line, "a:").map(|rest| string_of(&rest)), Some("b::c".to_string()));
    assert_eq!(after_prefix(&line, "b"), None);
    assert_eq!(before_suffix(&line, ":c").map(|rest| string_of(&rest)), Some("a:b:".to_string()));
    assert_eq!(before_suffix(&line, "b"), None);
    assert!(begins_with(&line, "a:b"));
    assert!(!begins_with(&line, "b"));
    assert!(ends_with_str(&line, "::c"));
    assert!(!ends_with_str(&line, "::"));
    assert!(contains_str("needle in hay", "le in"));
    assert!(contains_str("anything", ""));
    assert!(!contains_str("needle", "needles"));
    assert_eq!(string_of(&trimmed_end_of(&chars_of("a//"), '/')), "a");
    assert_eq!(string_of(&trimmed_start_of(&chars_of("//a"), '/')), "a");
}

#[test]
fn texts_are_put_together() {
    assert_eq!(glue2("a", "b"), "ab");
    assert_eq!(glue3("a", "", "c"), "ac");
    assert_eq!(glue5("a", "b", "c", "d", "e"), "abcde");
    assert_eq!(glue7("a", "b", "c", "d", "e", "f", "g"), "abcdefg");
    let items = words(&chars_of("one two three"));
    assert_eq!(string_of(&join_chars(&items, ", ")), "one, two, three");
    assert_eq!(string_of(&join_from(&items, 1)), "two three");
    assert_eq!(string_of(&join_from(&items, 3)), "");
    assert_eq!(string_of(&replaced(&chars_of("aaa"), &chars_of("aa"), &chars_of("b"))), "ba");
    assert_eq!("aaa".replace("aa", "b"), "ba");
    assert!(same("x", "x"));
    assert!(!same("x", "X"));
    assert!(same_ignoring_case(&chars_of("IdentityFile"), "identityfile"));
    assert!(!same_ignoring_case(&chars_of("Identity"), "identityfile"));
}

#[test]
fn ascii_letters_are_lowered() {
    for text in ["ABC xyz", "ΑΣ", "ÄÖÜß", "İstanbul", "Σ"] {
        assert_eq!(string_of(&lowered(&chars_of(text))), text.to_ascii_lowercase());
    }
}

#[test]
fn numbers_are_read_as_std_does() {
    for text in [
        "", "0", "+7", "-1", "007", "18446744073709551615", "18446744073709551616", "4294967295",
        "4294967296", " 1", "1 ", "1_0", "9223372036854775807", "-9223372036854775808",
        "9223372036854775808", "-", "+", "++1", "-+1",
    ] {
        let chars = chars_of(text);
        assert_eq!(parse_u64(&chars), text.parse::<u64>().ok(), "{text:?}");
        assert_eq!(parse_u32(&chars), text.parse::<u32>().ok(), "{text:?}");
        assert_eq!(parse_i64(&chars), text.parse::<i64>().ok(), "{text:?}");
        assert_eq!(parse_unsigned(&chars, 65535), text.parse::<u16>().ok().map(u64::from), "{text:?}");
    }
}

#[test]
fn written_numbers_are_read_back() {
    for n in [0u64, 7, 10, 99, 100, u64::MAX] {
        assert_eq!(format_unsigned(n), n.to_string());
        assert_eq!(parse_u64(&chars_of(&format_unsigned(n))), Some(n));
    }
    for n in [0i64, -1, 10, -100, i64::MAX, i64::MIN] {
        assert_eq!(format_signed(n), n.to_string());
    }
    assert_eq!(kib_bytes(3), 3072);
    assert_eq!(kib_bytes(u64::MAX), u64::MAX.wrapping_mul(1024));
}

#[test]
fn bytes_are_decoded_as_std_does() {
    let samples: Vec<Vec<u8>> = vec![
        b"plain".to_vec(),
        "h\u{e9}llo \u{20ac} \u{1f600}".as_bytes().to_vec(),
        vec![0xff, 0x41],
        vec![0xc3],
        vec![0xe2, 0x82],
        vec![0xe2, 0x82, 0x41],
        vec![0xf0, 0x9f, 0x98],
        vec![0xf0, 0x9f, 0x41, 0xc0, 0x80],
        vec![0xed, 0xa0, 0x80],
        vec![0xf4, 0x90, 0x80, 0x80],
        vec![0xe0, 0x80, 0x80, 0x42],
        vec![0x80, 0xbf, 0xf8],
    ];
    for bytes in samples {
        assert_eq!(decode_lossy(&bytes), String::from_utf8_lossy(&bytes), "{bytes:?}");
        assert_eq!(decode_strict(&bytes), String::from_utf8(bytes.clone()).ok(), "{bytes:?}");
    }
}

#[test]
fn every_pair_and_triple_of_bytes_is_decoded_as_std_does() {
    for a in 0u32..256 {
        for b in 0u32..256 {
            let pair = vec![a as u8, b as u8];
            assert_eq!(decode_lossy(&pair), String::from_utf8_lossy(&pair));
            for c in [0x00u8, 0x41, 0x7f, 0x80, 0x9f, 0xa0, 0xbf, 0xc0, 0xff] {
                let triple = vec![a as u8, b as u8, c];
                assert_eq!(decode_lossy(&triple), String::from_utf8_lossy(&triple));
                assert_eq!(decode_strict(&triple).is_some(), std::str::from_utf8(&triple).is_ok());
            }
        }
    }
}

#[test]
fn chunks_do_not_matter_for_valid_text() {
    let text = "a\u{e9}\u{20ac}\u{1f600}z";
    let bytes = text.as_bytes();
    for cut in 0..=bytes.len() {
        let mut pending: Vec<u8> = Vec::new();
        let mut out = decode_chunk(&mut pending, &bytes[..cut]);
        out.push_str(&decode_chunk(&mut pending, &bytes[cut..]));
        out.push_str(&flush(&mut pending));
        assert_eq!(out, text);
        assert!(pending.is_empty());
    }
}

#[test]
fn a_cut_character_waits_and_is_told_at_the_end() {
    let mut pending: Vec<u8> = Vec::new();
    assert_eq!(decode_chunk(&mut pending, &[0x61, 0xe2, 0x82]), "a");
    assert_eq!(pending, vec![0xe2, 0x82]);
    assert_eq!(decode_chunk(&mut pending, &[0xac]), "\u{20ac}");
    assert_eq!(decode_chunk(&mut pending, &[0xf0, 0x9f]), "");
    assert_eq!(flush(&mut pending), "\u{fffd}");
    assert_eq!(byte_length("a\u{20ac}"), 4);
}
