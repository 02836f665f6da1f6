use runnables::enums::to_lower;
use runnables::text::{
    chars_of, clone_strings, contains, ends_with, find, is_space_char, join_with, occurs_here,
    piece, remove_char, rest_after, same_chars, split_on, starts_with, words,
};

fn cs(s: &str) -> Vec<char> {
    s.chars().collect()
}

#[test]
fn chars_of_gives_the_characters() {
    assert_eq!(chars_of("a\u{e9}\u{4e16}b"), vec!['a', '\u{e9}', '\u{4e16}', 'b']);
    assert!(chars_of("").is_empty());
}

#[test]
fn white_space_is_what_unicode_says() {
    for c in ['\0', 'a', '_', '\u{200B}', '\u{FEFF}', '\u{180E}', '\u{1F}', '\u{84}', '\u{86}'] {
        assert!(!is_space_char(c));
    }
    let mut n: u32 = 0;
    while n <= 0x3100 {
        if let Some(c) = char::from_u32(n) {
            assert_eq!(is_space_char(c), c.is_whitespace());
        }
        n += 1;
    }
}

#[test]
fn piece_counts_characters() {
    assert_eq!(piece("h\u{e9}llo w\u{f6}rld", 1, 5), "\u{e9}llo");
    assert_eq!(piece("abc", 0, 3), "abc");
    assert_eq!(piece("abc", 2, 2), "");
}

#[test]
fn words_are_runs_without_white_space() {
    assert_eq!(words("  a bc\t\td\n"), vec!["a", "bc", "d"]);
    assert_eq!(words("abc"), vec!["abc"]);
    assert!(words(" \t ").is_empty());
    assert!(words("").is_empty());
    assert_eq!(words("\u{e9}\u{a0}\u{4e16}"), vec!["\u{e9}", "\u{4e16}"]);
}

#[test]
fn split_on_keeps_empty_pieces() {
    assert_eq!(split_on("a,b,,c", ','), vec!["a", "b", "", "c"]);
    assert_eq!(split_on(",a,", ','), vec!["", "a", ""]);
    assert_eq!(split_on("abc", ','), vec!["abc"]);
    assert_eq!(split_on("", ','), vec![""]);
    assert_eq!(split_on("a.b.go", '.'), vec!["a", "b", "go"]);
}

#[test]
fn join_with_puts_the_separator_between() {
    let parts: Vec<String> = vec!["a".to_string(), "".to_string(), "c".to_string()];
    assert_eq!(join_with(&parts, ", "), "a, , c");
    assert_eq!(join_with(&parts[..1].to_vec(), ","), "a");
    assert_eq!(join_with(&Vec::new(), ","), "");
    assert_eq!(clone_strings(&parts), parts);
}

#[test]
fn remove_char_takes_every_occurrence() {
    assert_eq!(remove_char("\"case 1\"", '"'), "case 1");
    assert_eq!(remove_char("a\"b\"c", '"'), "abc");
    assert_eq!(remove_char("\"\"\"", '"'), "");
    assert_eq!(remove_char("plain", '"'), "plain");
    assert_eq!(remove_char("", '"'), "");
}

#[test]
fn searching_in_characters() {
    assert!(same_chars(&cs("abc"), &cs("abc")));
    assert!(!same_chars(&cs("abc"), &cs("abd")));
    assert!(!same_chars(&cs("abc"), &cs("ab")));
    assert!(occurs_here(&cs("xxTestxx"), &cs("Test"), 2));
    assert!(!occurs_here(&cs("xxTestxx"), &cs("Test"), 3));
    assert!(!occurs_here(&cs("Tes"), &cs("Test"), 0));
    assert!(occurs_here(&cs("abc"), &cs(""), 3));
    assert!(!occurs_here(&cs("abc"), &cs(""), 4));
    assert!(starts_with(&cs("//+build x"), &cs("//+build")));
    assert!(!starts_with(&cs(" //+build x"), &cs("//+build")));
    assert!(ends_with(&cs("a_test.go"), &cs("_test.go")));
    assert!(!ends_with(&cs("a_test.go "), &cs("_test.go")));
    assert!(!ends_with(&cs("go"), &cs("_test.go")));
    assert_eq!(find(&cs("abcabc"), &cs("bc")), Some(1));
    assert_eq!(find(&cs("abcabc"), &cs("cb")), None);
    assert_eq!(find(&cs("abc"), &cs("")), Some(0));
    assert_eq!(find(&cs(""), &cs("")), Some(0));
    assert_eq!(find(&cs("ab"), &cs("abc")), None);
    assert!(contains(&cs("MyTestCase"), &cs("Test")));
    assert!(!contains(&cs("Mytestcase"), &cs("Test")));
}

#[test]
fn rest_after_the_first_occurrence() {
    assert_eq!(rest_after("a=b=c", "="), Some("b=c".to_string()));
    assert_eq!(rest_after("a=b=c", "c"), Some("".to_string()));
    assert_eq!(rest_after("a=b=c", "x"), None);
    assert_eq!(rest_after("\u{e9}\u{e9}=\u{4e16}", "="), Some("\u{4e16}".to_string()));
}

#[test]
fn to_lower_changes_the_letters_a_to_z() {
    assert_eq!(to_lower("GoLang-2 \u{c9}"), cs("golang-2 \u{c9}"));
    assert_eq!(to_lower("AZaz@[`{"), cs("azaz@[`{"));
}
