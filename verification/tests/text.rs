use gtp_client::number::{is_float_text, parse_unsigned, push_numeral, Float};
use gtp_client::text::{
    chars_of, copy_range, count_of, find_from, group_words, join_from, join_range, matches_at,
    position_of, push_all,
    push_str, same_chars, same_text, split_at_each, split_on_text, split_words, string_of,
    to_upper, to_upper_char, trimmed_len, Spacing,
};

fn chars(s: &str) -> Vec<char> {
    s.chars().collect()
}

fn strings(parts: Vec<Vec<char>>) -> Vec<String> {
    parts.into_iter().map(|p| p.into_iter().collect()).collect()
}

fn samples() -> Vec<&'static str> {
    vec![
        "",
        " ",
        "a",
        "a b",
        "  a   b  ",
        "\ta\nb\r\nc\x0cd\x0be",
        "one\u{a0}two\u{2003}three\u{3000}four\u{85}five",
        "info move A1 info move B2 ownership 0.5 0.25",
        "infoinfo",
        "x+y+z",
        "+",
        "trailing \n\n",
        "\u{1680}\u{2028}\u{2029}\u{202f}\u{205f}\u{180e}\u{200b}",
        "= C15 D12 A13\nJ3 F3 G3 H4 H5\n\n",
    ]
}

#[test]
fn separators_are_those_of_the_standard_library() {
    for code in 0..=0x10ffffu32 {
        if let Some(c) = char::from_u32(code) {
            assert_eq!(Spacing::Unicode.is_separator(c), c.is_whitespace(), "{:x}", code);
            assert_eq!(Spacing::Ascii.is_separator(c), c.is_ascii_whitespace(), "{:x}", code);
            assert_eq!(to_upper_char(c), c.to_ascii_uppercase(), "{:x}", code);
        }
    }
}

#[test]
fn words_are_those_of_the_standard_library() {
    for s in samples() {
        let ours = strings(split_words(&chars(s), Spacing::Ascii));
        let theirs: Vec<String> = s.split_ascii_whitespace().map(String::from).collect();
        assert_eq!(ours, theirs, "{:?}", s);
        let ours = strings(split_words(&chars(s), Spacing::Unicode));
        let theirs: Vec<String> = s.split_whitespace().map(String::from).collect();
        assert_eq!(ours, theirs, "{:?}", s);
    }
}

#[test]
fn pieces_are_those_of_the_standard_library() {
    for s in samples() {
        for c in ['\n', '+', ' '] {
            let ours = strings(split_at_each(&chars(s), c));
            let theirs: Vec<String> = s.split(c).map(String::from).collect();
            assert_eq!(ours, theirs, "{:?}", s);
            assert_eq!(count_of(&chars(s), c), s.matches(c).count());
            assert_eq!(position_of(&chars(s), c), match s.find(c) {
                Some(at) => s[..at].chars().count(),
                None => s.chars().count(),
            });
        }
        for pattern in ["info", "ownership ", "\n\n", "a"] {
            let ours = strings(split_on_text(&chars(s), &chars(pattern)));
            let theirs: Vec<String> = s.split(pattern).map(String::from).collect();
            assert_eq!(ours, theirs, "{:?} {:?}", s, pattern);
            let ours = find_from(&chars(s), 0, &chars(pattern));
            let theirs = s.find(pattern).map(|at| s[..at].chars().count());
            assert_eq!(ours, theirs, "{:?} {:?}", s, pattern);
        }
    }
}

#[test]
fn trimming_and_case_are_those_of_the_standard_library() {
    for s in samples() {
        let all = chars(s);
        let kept: String = all[..trimmed_len(&all)].iter().collect();
        assert_eq!(kept, s.trim_end(), "{:?}", s);
        let upper: String = to_upper(&all).into_iter().collect();
        assert_eq!(upper, s.to_ascii_uppercase());
    }
}

#[test]
fn texts_are_copied_and_compared() {
    for s in samples() {
        assert_eq!(chars_of(s), chars(s));
        assert_eq!(string_of(&chars(s)), s);
        assert!(same_text(&chars(s), s));
        assert!(same_chars(&chars(s), &chars(s)));
        assert!(!same_text(&chars(s), "something else"));
        assert!(!same_chars(&chars(s), &chars("something else")));
        let mut out = chars("<");
        push_str(&mut out, s);
        push_all(&mut out, &chars(">"));
        assert_eq!(string_of(&out), format!("<{}>", s));
    }
    assert!(!same_text(&chars("abc"), "ab"));
    assert!(!same_text(&chars("ab"), "abc"));
    assert!(!same_text(&chars("abc"), "abd"));
    assert_eq!(copy_range(&chars("abcdef"), 2, 4), chars("cd"));
    assert!(matches_at(&chars("abcdef"), 2, &chars("cd")));
    assert!(!matches_at(&chars("abcdef"), 2, &chars("ce")));
    assert!(!matches_at(&chars("abcdef"), 5, &chars("fg")));
    assert_eq!(find_from(&chars("abcabc"), 1, &chars("abc")), Some(3));
    assert_eq!(find_from(&chars("abcabc"), 4, &chars("abc")), None);
    let parts = vec![chars("a"), chars("bc"), chars("d")];
    assert_eq!(string_of(&join_from(&parts, 0)), "a bc d");
    assert_eq!(string_of(&join_from(&parts, 1)), "bc d");
    assert_eq!(string_of(&join_from(&parts, 3)), "");
}

#[test]
fn unsigned_integers_are_those_of_the_standard_library() {
    let texts = [
        "", "0", "1", "9", "10", "007", "+5", "+", "-5", "-0", "++5", "5+", " 5", "5 ", "1_000",
        "0x10", "255", "256", "65535", "65536", "4294967295", "4294967296", "18446744073709551615",
        "18446744073709551616", "99999999999999999999999999", "00000000000000000000000000001",
        "\u{661}", "1.0", "1e3", "١٢٣",
    ];
    for t in texts {
        assert_eq!(parse_unsigned(&chars(t), 255), t.parse::<u8>().ok().map(u64::from), "{:?}", t);
        assert_eq!(
            parse_unsigned(&chars(t), 65535),
            t.parse::<u16>().ok().map(u64::from),
            "{:?}",
            t
        );
        assert_eq!(
            parse_unsigned(&chars(t), 4294967295),
            t.parse::<u32>().ok().map(u64::from),
            "{:?}",
            t
        );
        assert_eq!(parse_unsigned(&chars(t), u64::MAX), t.parse::<u64>().ok(), "{:?}", t);
    }
    for n in [0u64, 1, 9, 10, 99, 100, 12345, 4294967295, u64::MAX] {
        let mut out = Vec::new();
        push_numeral(&mut out, n);
        assert_eq!(string_of(&out), n.to_string());
        assert_eq!(parse_unsigned(&out, u64::MAX), Some(n));
    }
}

#[test]
fn floating_point_literals_are_those_of_the_standard_library() {
    let texts = [
        "", "0", "1", "-1", "+1", "1.", ".1", ".", "1.5", "-1.5", "+1.5", "1e5", "1E5", "1e+5",
        "1e-5", "1e", "1e+", "e5", ".e5", "1.e5", ".5e5", "1.5e5.5", "1e5e5", "--1", "+-1", "1-",
        "inf", "INF", "Inf", "+inf", "-inf", "infinity", "INFINITY", "-Infinity", "infinit",
        "infinityy", "nan", "NaN", "NAN", "+nan", "-nan", "nane", " 1", "1 ", "1,5", "0x1p3",
        "1f32", "1_0", "١", "1e99999999999999999999", "0.0000000000000000000000000000000001",
        "123456789012345678901234567890", "6.5", "7.5", "0.5", "-0", "+", "-", "+.", "-.5", "+5.",
        "i", "n", "in", "na", "1.2.3", "..1", "1..", "e", "E5", "1e5 ", "1 e5", "1e 5", "\n",
    ];
    for t in texts {
        assert_eq!(is_float_text(&chars(t)), t.parse::<f32>().is_ok(), "{:?}", t);
        assert_eq!(Float::from_str(t).is_some(), t.parse::<f64>().is_ok(), "{:?}", t);
    }
    let f = Float::from_str("6.5").unwrap();
    assert!(f.is_valid());
    assert_eq!(f.as_str(), "6.5");
    assert_eq!(f.to_string(), "6.5");
    assert!(f.same(&Float::from_str("6.5").unwrap()));
    assert!(!f.same(&Float::from_str("6.50").unwrap()));
    assert_eq!(Float::zero().as_str(), "0");
    let written = format!("{}", 6.5f32);
    assert_eq!(Float::from_str(&written).unwrap().as_str(), "6.5");
    for value in [0.0f32, -0.0, 1.0, 0.1, 1e-7, 3.4e38, f32::MIN_POSITIVE, f32::INFINITY, f32::NAN] {
        let text = format!("{}", value);
        let float = Float::from_str(&text).unwrap();
        let back: f32 = float.as_str().parse().unwrap();
        assert!(back == value || (back.is_nan() && value.is_nan()));
    }
}

#[test]
fn words_are_taken_in_groups() {
    let parts = vec![chars("a"), chars("bc"), chars("d"), chars("e"), chars("f")];
    assert_eq!(strings(group_words(&parts, 1)), vec!["a", "bc", "d", "e", "f"]);
    assert_eq!(strings(group_words(&parts, 2)), vec!["a bc", "d e", "f"]);
    assert_eq!(strings(group_words(&parts, 5)), vec!["a bc d e f"]);
    assert_eq!(strings(group_words(&parts, 9)), vec!["a bc d e f"]);
    assert_eq!(strings(group_words(&Vec::new(), 2)), Vec::<String>::new());
    assert_eq!(string_of(&join_range(&parts, 1, 3)), "bc d");
    assert_eq!(string_of(&join_range(&parts, 2, 2)), "");
}
