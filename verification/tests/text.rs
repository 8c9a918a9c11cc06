use hostid::text::{
    chars_of, contains_chars, first_field_of, first_index_of, is_space_char, split_chars, text_of,
    trim,
};

fn chars(s: &str) -> Vec<char> {
    s.chars().collect()
}

fn trimmed(s: &str) -> String {
    trim(&chars(s)).iter().collect()
}

fn pieces(s: &str, sep: char) -> Vec<String> {
    split_chars(&chars(s), sep).into_iter().map(|p| p.iter().collect()).collect()
}

#[test]
fn chars_and_text_are_inverse() {
    assert_eq!(chars_of("a\u{e9}\u{3000}z"), vec!['a', '\u{e9}', '\u{3000}', 'z']);
    assert_eq!(chars_of(""), Vec::<char>::new());
    assert_eq!(text_of(&['h', 'o', 's', 't']), "host");
    assert_eq!(text_of(&chars_of("10.0.1.28\tmyhost")), "10.0.1.28\tmyhost");
}

#[test]
fn white_space_is_what_std_trims() {
    for n in 0u32..0x3100 {
        if let Some(c) = char::from_u32(n) {
            assert_eq!(is_space_char(c), c.is_whitespace(), "U+{:04X}", n);
        }
    }
    assert!(!is_space_char('\u{feff}'));
    assert!(!is_space_char('\u{10ffff}'));
}

#[test]
fn trim_takes_white_space_from_both_ends_only() {
    assert_eq!(trimmed("  myhost\n"), "myhost");
    assert_eq!(trimmed("\t my host \r\n"), "my host");
    assert_eq!(trimmed("\u{a0}x\u{3000}"), "x");
    assert_eq!(trimmed("myhost"), "myhost");
    assert_eq!(trimmed(" \n\t "), "");
    assert_eq!(trimmed(""), "");
}

#[test]
fn trim_agrees_with_std() {
    for s in ["", " ", "a", " a", "a ", " a b ", "\n\nhost.example\n", "\u{2003}x\u{2028}"] {
        assert_eq!(trimmed(s), s.trim());
    }
}

#[test]
fn contains_is_plain_containment() {
    assert!(contains_chars(&chars("hello"), &chars("ell")));
    assert!(contains_chars(&chars("hello"), &chars("hello")));
    assert!(contains_chars(&chars("hello"), &chars("lo")));
    assert!(contains_chars(&chars("hello"), &chars("")));
    assert!(contains_chars(&chars(""), &chars("")));
    assert!(!contains_chars(&chars(""), &chars("a")));
    assert!(!contains_chars(&chars("abc"), &chars("abcd")));
    assert!(!contains_chars(&chars("ab"), &chars("ba")));
    assert!(contains_chars(&chars("aab"), &chars("ab")));
}

#[test]
fn first_index_is_the_first_separator_or_the_length() {
    assert_eq!(first_index_of(&chars("a\tb\tc"), '\t'), 1);
    assert_eq!(first_index_of(&chars("\tb"), '\t'), 0);
    assert_eq!(first_index_of(&chars("abc"), '\t'), 3);
    assert_eq!(first_index_of(&chars(""), '\t'), 0);
}

#[test]
fn first_field_stops_at_the_first_separator() {
    let line = chars("10.0.1.28\tmyhost\talias");
    assert_eq!(first_field_of(&line, '\t'), &chars("10.0.1.28")[..]);
    let line = chars("10.0.1.28 myhost");
    assert_eq!(first_field_of(&line, '\t'), &line[..]);
    let line = chars("\tmyhost");
    assert_eq!(first_field_of(&line, '\t'), &[][..]);
}

#[test]
fn split_keeps_empty_pieces() {
    assert_eq!(pieces("a.b..c", '.'), ["a", "b", "", "c"]);
    assert_eq!(pieces("abc", '.'), ["abc"]);
    assert_eq!(pieces("", '.'), [""]);
    assert_eq!(pieces("a\n", '\n'), ["a", ""]);
    assert_eq!(pieces("\n", '\n'), ["", ""]);
    assert_eq!(pieces(".a", '.'), ["", "a"]);
}

#[test]
fn split_agrees_with_std() {
    for s in ["", "x", "1.2.3.4", "..", "a\nb\n\nc\n", "\t\t"] {
        for sep in ['.', '\n', '\t'] {
            let expected: Vec<String> = s.split(sep).map(String::from).collect();
            assert_eq!(pieces(s, sep), expected);
        }
    }
}
