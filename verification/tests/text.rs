use checkout::text::{contains_text, copy_strings, decimal_text, join, spells_false, split_words};

#[test]
fn decimal_numerals() {
    assert_eq!(decimal_text(0), "0");
    assert_eq!(decimal_text(9), "9");
    assert_eq!(decimal_text(10), "10");
    assert_eq!(decimal_text(1203), "1203");
    assert_eq!(decimal_text(usize::MAX), usize::MAX.to_string());
}

#[test]
fn words_are_split_at_ascii_white_space() {
    for text in [
        "",
        "  ",
        "one",
        " one  two\tthree\nfour\x0cfive\rsix ",
        "vertical\x0btab",
        "no\u{a0}break caf\u{e9} \u{2003}wide",
    ] {
        let expected: Vec<&str> = text.split_ascii_whitespace().collect();
        assert_eq!(split_words(text), expected);
    }
    assert_eq!(split_words(" core  ui "), vec!["core", "ui"]);
}

#[test]
fn words_leave_out_only_blanks() {
    let text = " a\tbc  d\n";
    assert_eq!(split_words(text).concat(), "abcd");
    assert!(split_words(text).iter().all(|word| !word.is_empty()));
}

#[test]
fn false_in_any_letters() {
    assert!(spells_false("false"));
    assert!(spells_false("FALSE"));
    assert!(spells_false("fAlSe"));
    assert!(!spells_false("falsy"));
    assert!(!spells_false("falsee"));
    assert!(!spells_false("fals"));
    assert!(!spells_false(""));
    assert!(!spells_false("f\u{c1}lse"));
}

#[test]
fn lists_of_strings() {
    let list = vec!["a".to_string(), "b".to_string()];
    assert_eq!(copy_strings(&list), list);
    assert!(contains_text(&list, &"b".to_string()));
    assert!(!contains_text(&list, &"c".to_string()));
    assert!(!contains_text(&Vec::new(), &"a".to_string()));
    assert_eq!(join("<", "x", ">"), "<x>");
}
