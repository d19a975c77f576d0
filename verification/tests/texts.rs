use codex_usage_tray::text::{
    chars_of, contains_text, decimal_text, equal_ignoring_case, is_before, lower_char, slugify,
    split_words, strip, text_of, titleize, zero_pad, CharClass,
};

#[test]
fn white_space_is_that_of_unicode() {
    for c in '\0'..=char::MAX {
        assert_eq!(CharClass::WhiteSpace.contains(c), c.is_whitespace(), "{:?}", c);
        assert_eq!(CharClass::Alphanumeric.contains(c), c.is_ascii_alphanumeric(), "{:?}", c);
        assert_eq!(lower_char(c), c.to_ascii_lowercase(), "{:?}", c);
    }
}

#[test]
fn stripping_agrees_with_trimming() {
    for s in ["", " ", "a", "  a b\t\n", "\u{3000}x\u{a0}", "\"\"q\"\"", "\" x \""] {
        assert_eq!(strip(s, CharClass::WhiteSpace), s.trim());
        assert_eq!(strip(s, CharClass::Quote), s.trim_matches('"'));
    }
}

#[test]
fn slugs() {
    let slugs = [
        ("", ""),
        ("Codex Spark", "codex-spark"),
        ("--A__b  C--", "a-b-c"),
        ("GPT-5.1 Codex (mini)", "gpt-5-1-codex-mini"),
        ("天气", ""),
        ("a天b", "a-b"),
        ("ÄB", "b"),
    ];
    for (name, slug) in slugs {
        assert_eq!(slugify(name), slug);
        assert_eq!(slugify(&slugify(name)), slug);
    }
}

#[test]
fn slugs_have_single_inner_dashes() {
    for name in ["-a-", "a--b", "!!", "9 z", "x\ty\nz."] {
        let slug = slugify(name);
        assert!(!slug.starts_with('-') && !slug.ends_with('-') && !slug.contains("--"));
        assert!(slug.chars().all(|c| c == '-' || c.is_ascii_digit() || c.is_ascii_lowercase()));
    }
}

#[test]
fn titles() {
    assert_eq!(titleize(""), "");
    assert_eq!(titleize("codex_spark"), "Codex Spark");
    assert_eq!(titleize("__GPT-5  mini_"), "Gpt 5 Mini");
    assert_eq!(titleize("straße-ß ÉCOLE"), "Straße SS École");
    assert_eq!(titleize("aİ"), "Ai\u{307}");
    assert_eq!(titleize("tab\tstays"), "Tab\tstays");
}

#[test]
fn occurrences() {
    for (s, part) in [("", ""), ("abc", ""), ("abc", "bc"), ("abc", "abcd"), ("aab", "ab"), ("天地", "地"), ("ab", "ba")] {
        assert_eq!(contains_text(s, part), s.contains(part), "{:?} {:?}", s, part);
    }
    assert!(equal_ignoring_case("JsonL", "jsonl"));
    assert!(!equal_ignoring_case("É", "é"));
    assert!(!equal_ignoring_case("a", "ab"));
}

#[test]
fn order_of_texts() {
    let texts = ["", "a", "aa", "ab", "b", "Z", "天", "\u{10000}"];
    for a in texts {
        for b in texts {
            assert_eq!(is_before(a, b), a < b, "{:?} {:?}", a, b);
        }
    }
}

#[test]
fn digits_and_zeros() {
    for n in [0, 9, 10, 42, 1_000_000, u64::MAX] {
        assert_eq!(decimal_text(n), n.to_string());
    }
    assert_eq!(zero_pad("7", 3), "007");
    assert_eq!(zero_pad("1234", 3), "1234");
    assert_eq!(zero_pad("", 0), "");
}

#[test]
fn characters_make_up_the_text() {
    let chars = chars_of("a天\u{10000}");
    assert_eq!(chars, vec!['a', '天', '\u{10000}']);
    assert_eq!(text_of(&chars), "a天\u{10000}");
    assert_eq!(split_words("a-b c", CharClass::NamePart), vec![vec!['a'], vec!['b'], vec!['c']]);
}

#[test]
fn ascii_titles() {
    for c in '\0'..='\u{7f}' {
        if CharClass::NamePart.contains(c) {
            assert_eq!(titleize(&format!("{}", c)), format!("{}", c.to_ascii_uppercase()));
            assert_eq!(titleize(&format!("x{}", c)), format!("X{}", c.to_ascii_lowercase()));
        }
    }
}

#[test]
fn case_does_not_change_a_slug_or_a_title() {
    for name in ["Codex Spark", "GPT-5.1_codex (Mini)", "a", "", "__x"] {
        for other in [name.to_ascii_uppercase(), name.to_ascii_lowercase()] {
            assert_eq!(slugify(&other), slugify(name));
            assert_eq!(titleize(&other), titleize(name));
        }
        assert_eq!(titleize(&titleize(name)), titleize(name));
    }
}

#[test]
fn separators_do_not_change_a_title() {
    for name in ["codex-spark mini", "codex_spark_mini", "--codex  spark-_mini_", "codex spark  mini"] {
        assert_eq!(titleize(name), "Codex Spark Mini");
    }
    assert_eq!(titleize("天-ß"), titleize("_天 _ß "));
}

#[test]
fn titles_are_empty_for_separators_alone() {
    for name in ["", "-", "_ -", "   "] {
        assert_eq!(titleize(name), "");
    }
    for c in '\0'..=char::MAX {
        if CharClass::NamePart.contains(c) {
            assert!(!titleize(&format!("-{}", c)).is_empty());
            assert!(titleize(&format!("x{}", c)).chars().count() >= 2);
        }
    }
}
