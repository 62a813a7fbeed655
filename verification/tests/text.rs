use pitchfork::text::{
    char_count, char_to_byte_index, chars_of, clone_opt, clone_strings, comes_before,
    contains_char, contains_text, cut_text, from_chars, insert_char, is_white_space, join,
    lines_of, list_of, number_text, parse_number, remove_char, remove_text, same_text,
    signed_number_text, split_text, starts_with, trim,
};

const SAMPLES: [&str; 14] = [
    "",
    " ",
    "a",
    "a,b, c ,,d",
    "  padded\t\n",
    "línea",
    "日本語テキスト",
    "emoji 🦀 in the middle",
    "\u{a0}non-breaking\u{3000}",
    "one\ntwo\r\nthree\n",
    "\n\n",
    "KEY=VALUE=MORE",
    "ThreadId(12)",
    "aaa",
];

#[test]
fn numbers_are_written_in_decimal() {
    for n in [0, 1, 9, 10, 11, 99, 100, 65535, 4294967295, u64::MAX] {
        assert_eq!(number_text(n), n.to_string());
    }
    for n in [0, 7, -7, 42, -100, i32::MAX, i32::MIN] {
        assert_eq!(signed_number_text(n), n.to_string());
    }
}

#[test]
fn numbers_are_read_like_the_standard_library_does() {
    for s in [
        "", "+", "-", "0", "+0", "00", "12", "+12", "-1", " 1", "1 ", "1_0", "65535", "65536",
        "4294967295", "4294967296", "18446744073709551615", "18446744073709551616",
        "99999999999999999999999", "٣", "1a", "++1",
    ] {
        assert_eq!(parse_number(s, u64::MAX), s.parse::<u64>().ok(), "{s:?}");
        assert_eq!(parse_number(s, u32::MAX as u64), s.parse::<u32>().ok().map(u64::from));
        assert_eq!(parse_number(s, u16::MAX as u64), s.parse::<u16>().ok().map(u64::from));
    }
}

#[test]
fn a_number_is_read_back_from_its_notation() {
    for n in [0, 5, 1234567890, u64::MAX] {
        assert_eq!(parse_number(&number_text(n), u64::MAX), Some(n));
    }
}

#[test]
fn white_space_is_what_the_standard_library_calls_so() {
    for n in 0..=0x10ffff_u32 {
        if let Some(c) = char::from_u32(n) {
            assert_eq!(is_white_space(c), c.is_whitespace(), "{n:x}");
        }
    }
}

#[test]
fn trimming_matches_the_standard_library() {
    for s in SAMPLES {
        assert_eq!(trim(s), s.trim());
    }
}

#[test]
fn splitting_matches_the_standard_library() {
    for s in SAMPLES {
        for sep in [',', '=', '\n', 'a', '語'] {
            let expected: Vec<String> = s.split(sep).map(str::to_string).collect();
            assert_eq!(split_text(s, sep), expected);
            let cut = s.split_once(sep).map(|(a, b)| (a.to_string(), b.to_string()));
            assert_eq!(cut_text(s, sep), cut);
            assert_eq!(contains_char(s, sep), s.contains(sep));
        }
    }
}

#[test]
fn lines_match_the_standard_library() {
    for s in SAMPLES.into_iter().chain(["\r\n", "a\r", "a\r\r\n", "\r", "x\n\ny", "end\r\n\r\n"]) {
        let expected: Vec<String> = s.lines().map(str::to_string).collect();
        assert_eq!(lines_of(s), expected, "{s:?}");
    }
}

#[test]
fn lists_survive_being_written_and_read() {
    let entries: Vec<String> =
        ["NODE_ENV=dev", "PORT=3000", "a b", "日本"].iter().map(|s| s.to_string()).collect();
    assert_eq!(join(&entries, ", "), "NODE_ENV=dev, PORT=3000, a b, 日本");
    assert_eq!(list_of(&join(&entries, ", ")), entries);
    assert_eq!(list_of(" a ,, b,"), vec!["a", "b"]);
    assert!(list_of("").is_empty());
    assert!(list_of(" , ,").is_empty());
    assert_eq!(join(&Vec::new(), ", "), "");
    assert_eq!(join(&vec!["x".to_string()], ", "), "x");
}

#[test]
fn searching_matches_the_standard_library() {
    for s in SAMPLES {
        for part in ["", "a", "aa", "テキ", "ThreadId(", ")", "two\r", "🦀 in"] {
            assert_eq!(contains_text(s, part), s.contains(part), "{s:?} {part:?}");
            assert_eq!(starts_with(s, part), s.starts_with(part), "{s:?} {part:?}");
            if !part.is_empty() {
                assert_eq!(remove_text(s, part), s.replace(part, ""), "{s:?} {part:?}");
            }
        }
    }
}

#[test]
fn character_positions_match_the_standard_library() {
    for s in SAMPLES {
        let v = chars_of(s);
        assert_eq!(v, s.chars().collect::<Vec<char>>());
        assert_eq!(from_chars(&v, 0, v.len()), s);
        assert_eq!(char_count(s), s.chars().count());
        for i in 0..v.len() + 3 {
            let byte = s.char_indices().nth(i).map(|(b, _)| b).unwrap_or(s.len());
            assert_eq!(char_to_byte_index(s, i), byte);
            let mut inserted = s.to_string();
            inserted.insert(byte, 'ß');
            assert_eq!(insert_char(s, i, 'ß'), inserted);
            if i < v.len() {
                let mut removed = s.to_string();
                removed.remove(byte);
                assert_eq!(remove_char(s, i), removed);
            }
        }
    }
}

#[test]
fn the_order_of_texts_matches_the_standard_library() {
    for a in SAMPLES {
        for b in SAMPLES {
            assert_eq!(comes_before(&chars_of(a), &chars_of(b)), a < b, "{a:?} {b:?}");
            assert_eq!(same_text(a, b), a == b);
        }
    }
}

#[test]
fn copies_are_equal() {
    let v = vec!["a".to_string(), "b".to_string()];
    assert_eq!(clone_strings(&v), v);
    assert_eq!(clone_opt(&Some("x".to_string())).as_deref(), Some("x"));
    assert_eq!(clone_opt(&None), None);
}
