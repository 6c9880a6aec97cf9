use goose::text::{
    contains, contains_lowered, is_before, is_whitespace, join, parse_u64, push_decimal,
    push_signed, same, take_chars, take_line, trim,
};

const SAMPLES: &[&str] = &[
    "",
    " ",
    "\u{85}\u{2003}x\u{3000}",
    "a",
    "ab",
    "aba",
    "Ab é",
    "  two words \n",
    "line\nnext\n",
    "\nfirst is empty",
    "z",
    "zz\r\n",
    "\u{200b}not white\u{200b}",
    "日本語 text",
];

#[test]
fn white_space_is_what_the_standard_library_says() {
    for c in '\0'..=char::MAX {
        assert_eq!(is_whitespace(c), c.is_whitespace(), "{:x}", c as u32);
    }
}

#[test]
fn trimming_is_what_the_standard_library_does() {
    for s in SAMPLES {
        assert_eq!(trim(s), s.trim());
        assert_eq!(trim(trim(s)), trim(s));
    }
}

#[test]
fn searching_is_what_the_standard_library_does() {
    for s in SAMPLES {
        for needle in SAMPLES {
            assert_eq!(contains(s, needle), s.contains(needle), "{s:?} {needle:?}");
            assert_eq!(
                contains_lowered(s, needle),
                s.to_ascii_lowercase().contains(needle)
            );
            assert_eq!(same(s, needle), s == needle);
            assert_eq!(is_before(s, needle), s < needle, "{s:?} {needle:?}");
        }
    }
}

#[test]
fn characters_are_taken_from_the_front() {
    for s in SAMPLES {
        for n in 0..8 {
            assert_eq!(take_chars(s, n), s.chars().take(n).collect::<String>());
        }
        assert_eq!(take_line(s), s.split('\n').next().unwrap());
    }
}

#[test]
fn parts_are_joined() {
    let owned = |parts: &[&str]| parts.iter().map(|s| s.to_string()).collect::<Vec<_>>();
    for parts in [vec![], vec!["a"], vec!["a", "", "c"], vec!["", ""]] {
        assert_eq!(join(&owned(&parts), ", "), parts.join(", "));
        assert_eq!(join(&owned(&parts), ""), parts.concat());
    }
}

#[test]
fn numbers_are_written_in_decimal() {
    for n in [0, 1, 9, 10, 11, 99, 100, 1_234_567_890, u64::MAX - 1, u64::MAX] {
        let mut out = String::from("x");
        push_decimal(&mut out, n);
        assert_eq!(out, format!("x{n}"));
        assert_eq!(parse_u64(&out[1..]), Some(n));
    }
    for n in [i64::MIN, i64::MIN + 1, -10, -1, 0, 7, i64::MAX] {
        let mut out = String::new();
        push_signed(&mut out, n);
        assert_eq!(out, n.to_string());
    }
}
