use scopelint::pattern::found;
use scopelint::text::{
    blank, chars_of, contains, count_in, ends_with, in_order, matches_at, push_all, push_decimal,
    push_str, rest_after, same, slice_of, split, starts_with, string_of, trim, trim_left,
};

fn s(chars: Vec<char>) -> String {
    chars.into_iter().collect()
}

#[test]
fn chars_and_strings_convert_both_ways() {
    for text in ["", "a", "héllo wörld", "中文\n\t", "\u{10FFFF}\u{0}"] {
        let chars = chars_of(text);
        assert_eq!(chars, text.chars().collect::<Vec<char>>());
        assert_eq!(string_of(&chars), text);
    }
}

#[test]
fn pushing_text() {
    let mut out = chars_of("ab");
    push_all(&mut out, &chars_of("cd"));
    push_str(&mut out, "é");
    push_all(&mut out, &[]);
    push_str(&mut out, "");
    assert_eq!(s(out), "abcdé");
    assert_eq!(s(slice_of(&chars_of("hello"), 1, 3)), "el");
    assert_eq!(s(slice_of(&chars_of("hello"), 0, 5)), "hello");
    assert_eq!(s(slice_of(&chars_of("hello"), 5, 5)), "");
}

#[test]
fn prefixes_suffixes_and_occurrences() {
    let text = chars_of("./src/Counter.t.sol");
    assert!(starts_with(&text, &chars_of("./src")));
    assert!(starts_with(&text, &chars_of("")));
    assert!(starts_with(&text, &text));
    assert!(!starts_with(&text, &chars_of("./srcx")));
    assert!(!starts_with(&chars_of("./s"), &chars_of("./src")));
    assert!(ends_with(&text, &chars_of(".sol")));
    assert!(ends_with(&text, &chars_of(".t.sol")));
    assert!(ends_with(&text, &chars_of("")));
    assert!(!ends_with(&text, &chars_of(".s.sol")));
    assert!(!ends_with(&chars_of("sol"), &chars_of(".sol")));
    assert!(contains(&text, &chars_of("Counter")));
    assert!(contains(&text, &chars_of("")));
    assert!(contains(&text, &chars_of("./")));
    assert!(contains(&text, &chars_of("sol")));
    assert!(!contains(&text, &chars_of("counter")));
    assert!(!contains(&chars_of("Rever"), &chars_of("Revert")));
    assert!(contains(&[], &[]));
    assert!(!contains(&[], &chars_of("a")));
    assert!(matches_at(&text, &chars_of("src"), 2));
    assert!(!matches_at(&text, &chars_of("src"), 3));
    assert!(!matches_at(&text, &chars_of("sol"), 17));
    assert!(matches_at(&text, &chars_of(""), 19));
    assert!(!matches_at(&text, &chars_of(""), 20));
    assert!(!matches_at(&text, &chars_of("x"), usize::MAX));
    assert!(same(&chars_of("abc"), &chars_of("abc")));
    assert!(!same(&chars_of("abc"), &chars_of("abd")));
    assert!(!same(&chars_of("abc"), &chars_of("ab")));
    assert!(same(&[], &[]));
}

#[test]
fn blanks_are_trimmed() {
    for c in [' ', '\t', '\n', '\r', '\x0C'] {
        assert!(blank(c));
    }
    for c in ['a', '_', '\x0B', '\u{A0}', '\u{2003}', '0'] {
        assert!(!blank(c));
    }
    assert_eq!(s(trim(&chars_of("  \t hello world \r\n"))), "hello world");
    assert_eq!(s(trim(&chars_of("hello"))), "hello");
    assert_eq!(s(trim(&chars_of("   "))), "");
    assert_eq!(s(trim(&chars_of(""))), "");
    assert_eq!(s(trim(&chars_of("\u{A0}x\u{A0}"))), "\u{A0}x\u{A0}");
    assert_eq!(s(trim_left(&chars_of("  \t hello \n"))), "hello \n");
    assert_eq!(s(trim_left(&chars_of(" "))), "");
}

#[test]
fn splitting_keeps_empty_pieces() {
    let pieces = |text: &str| -> Vec<String> {
        split(&chars_of(text), '_').into_iter().map(s).collect()
    };
    for text in ["", "_", "a", "a_b", "_a", "a_", "a__b", "test_RevertIf_Condition", "___"] {
        let expected: Vec<String> = text.split('_').map(str::to_string).collect();
        assert_eq!(pieces(text), expected, "{text}");
    }
    assert_eq!(pieces(""), vec![""]);
    assert_eq!(pieces("a__b"), vec!["a", "", "b"]);
}

#[test]
fn counting_characters() {
    let text = chars_of("a\nb\n\nc");
    assert_eq!(count_in(&text, '\n', 0), 0);
    assert_eq!(count_in(&text, '\n', 1), 0);
    assert_eq!(count_in(&text, '\n', 2), 1);
    assert_eq!(count_in(&text, '\n', 5), 3);
    assert_eq!(count_in(&text, '\n', 6), 3);
    assert_eq!(count_in(&text, 'c', 6), 1);
    assert_eq!(count_in(&text, 'z', 6), 0);
}

#[test]
fn numbers_in_decimal() {
    for n in [0usize, 1, 7, 9, 10, 19, 100, 1009, 65535, 4294967295, usize::MAX] {
        let mut out = chars_of("n=");
        push_decimal(&mut out, n);
        assert_eq!(s(out), format!("n={n}"));
    }
}

#[test]
fn the_order_of_strings_is_that_of_str() {
    let names = ["", "a", "A", "ab", "abc", "abd", "b", "B_", "é", "e", "zz", "中", "\u{10000}", "_"];
    for a in names {
        for b in names {
            assert_eq!(in_order(&chars_of(a), &chars_of(b)), a <= b, "{a:?} {b:?}");
        }
    }
}

#[test]
fn a_search_finds_only_on_a_match() {
    assert!(found(Some(true)));
    assert!(!found(Some(false)));
    assert!(!found(None));
}

#[test]
fn the_rest_after_the_first_occurrence() {
    let rest = |text: &str, c: char| -> Option<String> {
        rest_after(&chars_of(text), c).map(s)
    };
    assert_eq!(rest("a.b.c", '.'), Some("b.c".to_string()));
    assert_eq!(rest(".", '.'), Some(String::new()));
    assert_eq!(rest("abc", '.'), None);
    assert_eq!(rest("", '.'), None);
    for text in ["key=value=more", "=", "none", "é=ü"] {
        assert_eq!(rest(text, '='), text.split_once('=').map(|x| x.1.to_string()));
    }
}
