use youtube_captions::text::{
    chars_of, contains_text, find_text, float_literal, parse_bool, parse_u32, parse_u8,
    same_text, stands_at,
};

fn chars(text: &str) -> Vec<char> {
    text.chars().collect()
}

#[test]
fn chars_and_equality() {
    assert_eq!(chars_of("héllo"), vec!['h', 'é', 'l', 'l', 'o']);
    assert_eq!(chars_of(""), Vec::<char>::new());
    assert!(same_text("abc", "abc"));
    assert!(!same_text("abc", "abd"));
    assert!(!same_text("abc", "ab"));
    assert!(same_text("", ""));
}

#[test]
fn search_finds_the_leftmost_occurrence() {
    let hay = chars("abcabcabc");
    assert_eq!(find_text(&hay, &chars("bc"), 0), Some(1));
    assert_eq!(find_text(&hay, &chars("bc"), 2), Some(4));
    assert_eq!(find_text(&hay, &chars("bc"), 8), None);
    assert_eq!(find_text(&hay, &chars("abc"), 6), Some(6));
    assert_eq!(find_text(&hay, &chars("x"), 0), None);
    assert_eq!(find_text(&hay, &chars(""), 3), Some(3));
    assert_eq!(find_text(&hay, &chars(""), 9), Some(9));
    assert_eq!(find_text(&chars(""), &chars("a"), 0), None);
    assert_eq!(find_text(&chars("été"), &chars("é"), 1), Some(2));
    assert!(contains_text(&hay, &chars("cab")));
    assert!(!contains_text(&hay, &chars("cba")));
    assert!(stands_at(&hay, &chars("abc"), 3));
    assert!(!stands_at(&hay, &chars("abc"), 7));
    assert!(!stands_at(&hay, &chars("abc"), 100));
}

#[test]
fn unsigned_numbers() {
    assert_eq!(parse_u32("0"), Some(0));
    assert_eq!(parse_u32("007"), Some(7));
    assert_eq!(parse_u32("+5"), Some(5));
    assert_eq!(parse_u32("4294967295"), Some(u32::MAX));
    assert_eq!(parse_u32("4294967296"), None);
    assert_eq!(parse_u32("99999999999999999999999"), None);
    assert_eq!(parse_u32(""), None);
    assert_eq!(parse_u32("+"), None);
    assert_eq!(parse_u32("-1"), None);
    assert_eq!(parse_u32("1 "), None);
    assert_eq!(parse_u32("++1"), None);
    assert_eq!(parse_u32("1.0"), None);
    assert_eq!(parse_u8("255"), Some(255));
    assert_eq!(parse_u8("256"), None);
    assert_eq!(parse_u8("+0"), Some(0));
    for text in ["0", "+12", "12", "", "+", "4294967295", "4294967296", "-0", "1_0", " 1"] {
        assert_eq!(parse_u32(text), text.parse::<u32>().ok(), "{:?}", text);
        assert_eq!(parse_u8(text), text.parse::<u8>().ok(), "{:?}", text);
    }
}

#[test]
fn flags() {
    for text in ["true", "1", "True", "TRUE", "t", "Yes", "YES", "yes", "y"] {
        assert_eq!(parse_bool(text), Some(true), "{}", text);
    }
    for text in ["false", "0", "False", "FALSE", "f", "No", "NO", "no", "n"] {
        assert_eq!(parse_bool(text), Some(false), "{}", text);
    }
    for text in ["", "2", "tRUE", "on", "off", " true", "Y", "N"] {
        assert_eq!(parse_bool(text), None, "{:?}", text);
    }
}

#[test]
fn float_literals() {
    for text in ["1", "1.5", ".5", "5.", "1e5", "1.e5", ".5E-3", "+0.0", "-7", "inf", "INFINITY", "nAn", "-nan"] {
        assert!(float_literal(text), "{:?}", text);
    }
    for text in ["", ".", "+.", "e", "1e", "1e-", "1f", "1..", "inf ", "infinity1", "1e1e1", "٣"] {
        assert!(!float_literal(text), "{:?}", text);
    }
}

/// Every text over `alphabet` of at most `max` characters.
fn words(alphabet: &[char], max: usize) -> Vec<String> {
    let mut all = vec![String::new()];
    let mut last = vec![String::new()];
    for _ in 0..max {
        let mut next = Vec::new();
        for word in &last {
            for c in alphabet {
                let mut longer = word.clone();
                longer.push(*c);
                next.push(longer);
            }
        }
        all.extend(next.iter().cloned());
        last = next;
    }
    all
}

#[test]
fn float_literals_are_what_a_float_parses() {
    for word in words(&['0', '7', '.', 'e', 'E', '+', '-', 'i', 'n', 'f', 'a', 'N', ' '], 4) {
        assert_eq!(float_literal(&word), word.parse::<f32>().is_ok(), "{:?}", word);
    }
    for word in words(&['1', '.', 'e', '-', '+'], 7) {
        assert_eq!(float_literal(&word), word.parse::<f64>().is_ok(), "{:?}", word);
    }
    for word in words(&['i', 'n', 'f', 't', 'y', 'I', 'Y'], 3) {
        let long = format!("infin{}", word);
        assert_eq!(float_literal(&long), long.parse::<f32>().is_ok(), "{:?}", long);
    }
}

#[test]
fn unsigned_numbers_are_what_an_integer_parses() {
    for word in words(&['0', '2', '5', '9', '+', '-', ' '], 5) {
        assert_eq!(parse_u32(&word), word.parse::<u32>().ok(), "{:?}", word);
        assert_eq!(parse_u8(&word), word.parse::<u8>().ok(), "{:?}", word);
    }
    for tail in words(&['0', '5', '9'], 3) {
        let long = format!("4294967{}", tail);
        assert_eq!(parse_u32(&long), long.parse::<u32>().ok(), "{:?}", long);
        let longer = format!("42949672{}", tail);
        assert_eq!(parse_u32(&longer), longer.parse::<u32>().ok(), "{:?}", longer);
    }
}
