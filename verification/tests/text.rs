use todo::text::{is_blank, is_white_space_char, join_words, parse_id, same_text};

fn words(list: &[&str]) -> Vec<String> {
    list.iter().map(|w| w.to_string()).collect()
}

#[test]
fn blank_texts() {
    assert!(is_blank(""));
    assert!(is_blank(" "));
    assert!(is_blank("\n"));
    assert!(is_blank(" \t\r\n\u{b}\u{c}"));
    assert!(is_blank("\u{85}\u{a0}\u{1680}\u{2000}\u{200a}\u{2028}\u{2029}\u{202f}\u{205f}\u{3000}"));
}

#[test]
fn texts_that_are_not_blank() {
    assert!(!is_blank("a"));
    assert!(!is_blank("   a"));
    assert!(!is_blank("a   "));
    assert!(!is_blank(" \n{}\n "));
    assert!(!is_blank("\u{200b}"));
    assert!(!is_blank("\u{180e}"));
    assert!(!is_blank("\u{feff}"));
    assert!(!is_blank("\0"));
}

#[test]
fn blank_agrees_with_trim() {
    for text in ["", " ", "x", " x ", "\u{3000}", "\u{2007}\u{2008}", "\u{200b}", "\t\tq", "\u{1c}"] {
        assert_eq!(is_blank(text), text.trim().is_empty(), "{:?}", text);
    }
}

#[test]
fn white_space_agrees_with_std_on_every_character() {
    let mut code: u32 = 0;
    while code <= 0x10ffff {
        if let Some(c) = char::from_u32(code) {
            assert_eq!(is_white_space_char(c), c.is_whitespace(), "U+{:04X}", code);
        }
        code += 1;
    }
}

#[test]
fn ids_in_decimal() {
    assert_eq!(parse_id("0"), Some(0));
    assert_eq!(parse_id("1"), Some(1));
    assert_eq!(parse_id("42"), Some(42));
    assert_eq!(parse_id("99"), Some(99));
    assert_eq!(parse_id("1234567890"), Some(1234567890));
}

#[test]
fn ids_with_a_plus_sign_or_leading_zeros() {
    assert_eq!(parse_id("+7"), Some(7));
    assert_eq!(parse_id("+0"), Some(0));
    assert_eq!(parse_id("007"), Some(7));
    assert_eq!(parse_id("+007"), Some(7));
    assert_eq!(parse_id("0000000000000000000000000000000000012"), Some(12));
}

#[test]
fn texts_that_are_no_id() {
    for text in [
        "", "+", "-", "-1", "-0", "++1", "+-1", "1+", "4x", "x4", " 4", "4 ", "4 2", "1_000", "1.0",
        "0x10", "abc", "١٢", "４",
    ] {
        assert_eq!(parse_id(text), None, "{:?}", text);
    }
}

#[test]
fn ids_at_the_limit_of_the_type() {
    let max = usize::MAX.to_string();
    assert_eq!(parse_id(&max), Some(usize::MAX));
    assert_eq!(parse_id(&format!("+{}", max)), Some(usize::MAX));
    assert_eq!(parse_id(&format!("000{}", max)), Some(usize::MAX));
    let just_over = (usize::MAX as u128 + 1).to_string();
    assert_eq!(parse_id(&just_over), None);
    assert_eq!(parse_id(&format!("{}0", max)), None);
    assert_eq!(parse_id(&format!("{}x", max)), None);
    assert_eq!(parse_id("99999999999999999999999999999999999999999999"), None);
    assert_eq!(parse_id(&(usize::MAX - 1).to_string()), Some(usize::MAX - 1));
}

#[test]
fn ids_agree_with_std() {
    for text in ["", "+", "5", "+5", "-5", "05", "5a", " 5", "18446744073709551615", "18446744073709551616"] {
        assert_eq!(parse_id(text), text.parse::<usize>().ok(), "{:?}", text);
    }
}

#[test]
fn words_are_joined_by_single_spaces() {
    assert_eq!(join_words(&words(&["buy", "milk"]), 0), "buy milk");
    assert_eq!(join_words(&words(&["add", "buy", "milk"]), 1), "buy milk");
    assert_eq!(join_words(&words(&["add", "walk", "the", "dog"]), 1), "walk the dog");
    assert_eq!(join_words(&words(&["one"]), 0), "one");
}

#[test]
fn joining_keeps_the_words_as_they_are() {
    assert_eq!(join_words(&words(&["a b", " c", ""]), 0), "a b  c ");
    assert_eq!(join_words(&words(&["", ""]), 0), " ");
    assert_eq!(join_words(&words(&[""]), 0), "");
    assert_eq!(join_words(&words(&["é", "日本"]), 0), "é 日本");
}

#[test]
fn joining_no_words_gives_the_empty_text() {
    assert_eq!(join_words(&words(&[]), 0), "");
    assert_eq!(join_words(&words(&["a", "b"]), 2), "");
}

#[test]
fn joining_agrees_with_std() {
    let list = words(&["x", "yy", "", "zzz"]);
    for from in 0..=list.len() {
        assert_eq!(join_words(&list, from), list[from..].join(" "));
    }
}

#[test]
fn texts_are_compared_by_their_characters() {
    assert!(same_text("", ""));
    assert!(same_text("list", "list"));
    assert!(same_text("日本", "日本"));
    assert!(!same_text("list", "list-all"));
    assert!(!same_text("list-all", "list"));
    assert!(!same_text("list", "lisp"));
    assert!(!same_text("", "a"));
    assert!(!same_text("a", ""));
    assert!(!same_text("Add", "add"));
}
