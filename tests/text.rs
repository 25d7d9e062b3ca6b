use glyph::{chars_of, is_blank, split_words, string_of, trim};

fn chars(s: &str) -> Vec<char> {
    s.chars().collect()
}

#[test]
fn trim_removes_unicode_whitespace() {
    assert_eq!(trim(&chars("\u{3000} a b\t\n")), chars("a b"));
    assert_eq!(trim(&chars("   ")), Vec::<char>::new());
    assert_eq!(trim(&chars("x")), chars("x"));
}

#[test]
fn split_words_on_runs() {
    assert_eq!(split_words(&chars("  add  1\t2 ")), vec!["add", "1", "2"]);
    assert!(split_words(&chars("   ")).is_empty());
    assert_eq!(split_words(&chars("one")), vec!["one"]);
}

#[test]
fn blank_detection() {
    assert!(is_blank(&chars("")));
    assert!(is_blank(&chars(" \u{a0}\t")));
    assert!(!is_blank(&chars(" a ")));
}

#[test]
fn chars_and_string_round_trip() {
    assert_eq!(chars_of("λ>x"), vec!['λ', '>', 'x']);
    assert_eq!(string_of(&vec!['h', 'é']), "hé");
}

#[test]
fn history_file_round_trip() {
    let entries = vec!["a b".to_string(), "λ".to_string(), ":cmd".to_string()];
    let text = glyph::encode_history(&entries);
    assert_eq!(text, "a b\nλ\n:cmd\n");
    assert_eq!(glyph::decode_history(&text), entries);
}

#[test]
fn history_file_without_final_newline() {
    assert_eq!(glyph::decode_history("x\ny"), vec!["x", "y"]);
    assert!(glyph::decode_history("").is_empty());
    assert_eq!(glyph::decode_history("\n\nz\n"), vec!["", "", "z"]);
}
