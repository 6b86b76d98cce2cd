use pkgcheck::text::{
    chars_of, first_two_words, line_ranges, owned, push_decimal, push_padded, replaced,
    string_of, trim_range,
};

fn line_texts(s: &str) -> Vec<String> {
    let v = chars_of(s);
    line_ranges(&v).iter().map(|(a, b)| string_of(&v, *a, *b)).collect()
}

#[test]
fn lines_split_like_str_lines() {
    assert_eq!(line_texts("a\nb\r\nc"), vec!["a", "b", "c"]);
    assert_eq!(line_texts("a\n"), vec!["a"]);
    assert_eq!(line_texts("a\n\n"), vec!["a", ""]);
    assert_eq!(line_texts(""), Vec::<String>::new());
    assert_eq!(line_texts("x\r"), vec!["x\r"]);
    for s in ["a\nb\r\nc", "a\n", "a\n\n", "", "\n", "x\r", "\r\n\r\n"] {
        assert_eq!(line_texts(s), s.lines().map(|l| l.to_string()).collect::<Vec<_>>());
    }
}

#[test]
fn trim_matches_str_trim() {
    for s in ["  a b  ", "\t\u{3000}x\u{a0}", "", "   ", "abc"] {
        let v = chars_of(s);
        let (a, b) = trim_range(&v, 0, v.len());
        assert_eq!(string_of(&v, a, b), s.trim());
        assert_eq!(string_of(&v, a, v.len()), s.trim_start());
    }
}

#[test]
fn first_two_words_of_a_line() {
    let v = chars_of("  github.com/x/y   v1.0.0  extra");
    let (w0, w1) = first_two_words(&v, 0, v.len()).unwrap();
    assert_eq!(string_of(&v, w0.0, w0.1), "github.com/x/y");
    assert_eq!(string_of(&v, w1.0, w1.1), "v1.0.0");
    let one = chars_of(" only ");
    assert!(first_two_words(&one, 0, one.len()).is_none());
}

#[test]
fn replace_one_char() {
    assert_eq!(replaced("serde-json-x", '-', '_'), "serde_json_x");
}

#[test]
fn decimal_and_padding() {
    let mut s = owned("n=");
    push_decimal(&mut s, 0);
    push_decimal(&mut s, 1234567);
    assert_eq!(s, "n=01234567");
    let mut p = String::new();
    push_padded(&mut p, "Go:", 10);
    assert_eq!(p, "Go:       ");
    let mut q = String::new();
    push_padded(&mut q, "Long-name:", 4);
    assert_eq!(q, "Long-name:");
}
