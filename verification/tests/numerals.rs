use codex_usage_tray::numeral::is_number_text;

fn check(s: &str) {
    assert_eq!(is_number_text(s), s.parse::<f64>().is_ok(), "{:?}", s);
}

fn check_all(alphabet: &[char], length: usize) {
    let mut texts: Vec<String> = vec![String::new()];
    for _ in 0..length {
        let mut longer: Vec<String> = Vec::new();
        for text in &texts {
            check(text);
            for c in alphabet {
                let mut next = text.clone();
                next.push(*c);
                longer.push(next);
            }
        }
        texts = longer;
    }
    for text in &texts {
        check(text);
    }
}

#[test]
fn numbers_in_text() {
    for text in ["1", "-1.5", "+.5", "5.", "2.5E10", "1e-7", "inf", "-Infinity", "NaN", "007"] {
        assert!(is_number_text(text), "{:?}", text);
    }
    for text in ["", "+", ".", "e5", "1e", "1e+", "1.2.3", "0x1", "1_000", " 1", "infin", "1e5.0", "--1", "１"] {
        assert!(!is_number_text(text), "{:?}", text);
    }
}

#[test]
fn short_texts_agree_with_the_standard_library() {
    check_all(&['0', '9', '.', 'e', 'E', '+', '-', 'i', 'n', 'f', 'a', 'N', ' ', '_', '٣'], 4);
}

#[test]
fn number_like_texts_agree_with_the_standard_library() {
    check_all(&['1', '.', 'e', '+', '-'], 7);
}

#[test]
fn words_agree_with_the_standard_library() {
    for word in ["inf", "infinity", "nan", "INF", "iNfInItY", "NAN", "infinit", "infinityy", "nann", "ınf"] {
        for sign in ["", "+", "-", "--", " "] {
            for tail in ["", "e1", ".", "0"] {
                check(&format!("{}{}{}", sign, word, tail));
            }
        }
    }
    check("1e99999999999999999999");
    check("0.000000000000000000000000000000000000000000000000001");
}
