use runnables::build_tags::{
    legacy_build_tags, modern_build_tags, read_expression, tokenize, TagReader, Token,
};
use runnables::finder::{build_tags_from, get_build_tags};
use runnables::syntax::Capture;
use tree_sitter::{Point, Range};

const SAMPLE_FOR_BUILD_TAG_TESTS: &str = r#"
    {replace}
    package golang
    import (
      "testing"

      "github.com/stretchr/testify/assert"
    )

    func sample_add(a, b int) int {
      return a + b
    }
    "#;

fn legacy(tag: &str) -> Vec<String> {
    let res = legacy_build_tags(tag);
    assert!(res.is_some());
    res.unwrap()
}

fn modern(tag: &str) -> Vec<String> {
    let res = modern_build_tags(tag);
    assert!(res.is_some());
    res.unwrap()
}

fn from_file(tag: &str) -> Vec<String> {
    let content = SAMPLE_FOR_BUILD_TAG_TESTS.replace("{replace}", tag);
    let res = get_build_tags(content.as_str());
    assert!(res.is_some());
    res.unwrap()
}

#[test]
fn legacy_multiple_build_tags() {
    let tags = "//+build unix unit py03";
    let res = legacy_build_tags(tags);
    assert!(res.is_some());
    let res = res.unwrap();
    assert_eq!(3, res.len());
}

#[test]
fn legacy_multiple_build_tags_single_negation() {
    let tags = "//+build unix,unit !py03";
    let res = legacy_build_tags(tags);
    assert!(res.is_some());
    let res = res.unwrap();
    assert_eq!(1, res.len());
}

#[test]
fn common_test_legacy_single_build_tag_with_negation() {
    let tags = "//+build !unix";
    let res = legacy_build_tags(tags);
    assert!(res.is_some());
    let res = res.unwrap();
    assert_eq!(0, res.len());

    let content = SAMPLE_FOR_BUILD_TAG_TESTS.replace("{replace}", tags);
    let res = get_build_tags(content.as_str());
    assert!(res.is_some());
    let res = res.unwrap();
    assert_eq!(0, res.len());
}

#[test]
fn get_build_tags_legacy_single_build_tag_with_negation() {
    let tag = "//+build !unix";
    let content = SAMPLE_FOR_BUILD_TAG_TESTS.replace("{replace}", tag);
    let res = get_build_tags(content.as_str());
    assert!(res.is_some());
    let res = res.unwrap();
    assert_eq!(0, res.len());
}

#[test]
fn legacy_build_tags_single_result_one_tag() {
    let res = legacy("//+build unix");
    assert_eq!(res.len(), 1);
    assert_eq!(res.first().unwrap(), "unix");
}

#[test]
fn legacy_build_tags_single_result_two_tags() {
    let res = legacy("//+build unix,postgres");
    assert_eq!(res.len(), 1);
    assert_eq!(res.first().unwrap(), "unix postgres");
}

#[test]
fn legacy_build_tags_two_words_are_two_groups() {
    let res = legacy("//+build unix postgres");
    assert_eq!(res.len(), 2);
    assert_eq!(res.join(","), "unix,postgres");
}

#[test]
fn legacy_build_tags_negated_word_is_left_out() {
    let res = legacy("//+build unix postgres !py03");
    assert_eq!(res.len(), 2);
    assert_eq!(res.join(","), "unix,postgres");
}

#[test]
fn legacy_build_tags_negated_tag_inside_a_group_is_left_out() {
    assert_eq!(legacy("//+build unix,!postgres"), vec!["unix"]);
    assert_eq!(legacy("//+build !unix,postgres,mysql"), vec!["postgres mysql"]);
    assert_eq!(legacy("//+build !unix,!postgres"), Vec::<String>::new());
}

#[test]
fn legacy_build_tags_give_no_empty_group() {
    assert_eq!(legacy("//+build   unix \t  postgres  "), vec!["unix", "postgres"]);
    assert_eq!(legacy("//+build unix,,postgres ,"), vec!["unix postgres"]);
    assert_eq!(legacy("//+build"), Vec::<String>::new());
    assert_eq!(legacy(""), Vec::<String>::new());
}

#[test]
fn legacy_build_tags_or_ampersand_from_file() {
    assert_eq!(from_file("//+build unix"), vec!["unix"]);
    assert_eq!(from_file("//+build unix,postgres"), vec!["unix postgres"]);
    assert_eq!(from_file("//+build unix postgres"), vec!["unix", "postgres"]);
    assert_eq!(from_file("//+build unix postgres !py03"), vec!["unix", "postgres"]);
}

#[test]
fn modern_build_tags_ampersand_one_tag() {
    let res = modern("//go:build unix");
    assert_eq!(res.len(), 1);
    assert_eq!(res.first().unwrap(), "unix");
}

#[test]
fn modern_build_tags_ampersand_two_tags() {
    let res = modern("//go:build unix && postgres");
    assert_eq!(res.len(), 1);
    assert_eq!(res.first().unwrap(), "unix postgres");
}

#[test]
fn modern_build_tags_ampersand_in_parentheses() {
    let res = modern("//go:build (unix && postgres)");
    assert_eq!(res.len(), 1);
    assert_eq!(res.first().unwrap(), "unix postgres");
}

#[test]
fn modern_build_tags_ampersand_in_spaced_parentheses() {
    let res = modern("//go:build ( unix && postgres )");
    assert_eq!(res.len(), 1);
    assert_eq!(res.first().unwrap(), "unix postgres");
}

#[test]
fn modern_build_tags_or_two_tags() {
    let res = modern("//go:build unix || postgres");
    assert_eq!(res.len(), 2);
    assert_eq!(res.join(","), "unix,postgres");
}

#[test]
fn modern_build_tags_or_in_parentheses() {
    let res = modern("//go:build ( unix || postgres )");
    assert_eq!(res.len(), 2);
    assert_eq!(res.join(","), "unix,postgres");
}

#[test]
fn modern_build_tags_or_with_negation() {
    let res = modern("//go:build unix || !postgres");
    assert_eq!(res.len(), 1);
    assert_eq!(res.join(","), "unix");
}

#[test]
fn modern_build_tags_or_with_negation_in_parentheses() {
    let res = modern("//go:build ( unix || !postgres )");
    assert_eq!(res.len(), 1);
    assert_eq!(res.join(","), "unix");
}

#[test]
fn modern_build_tags_or_then_and() {
    let res = modern("//go:build ( unix || !postgres ) && mysql");
    assert_eq!(res.len(), 1);
    assert_eq!(res.join(","), "unix mysql");
}

#[test]
fn modern_build_tags_or_then_and_without_spaces() {
    let res = modern("//go:build (unix || !postgres) && mysql");
    assert_eq!(res, vec!["unix mysql"]);
}

#[test]
fn modern_build_tags_or_then_or() {
    let res = modern("//go:build ( unix || !postgres ) || mysql");
    assert_eq!(res.len(), 2);
    assert_eq!(res.join(","), "unix,mysql");
}

#[test]
fn modern_build_tags_or_ampersand_from_file() {
    assert_eq!(from_file("//go:build unix"), vec!["unix"]);
    assert_eq!(from_file("//go:build unix && postgres"), vec!["unix postgres"]);
    assert_eq!(from_file("//go:build (unix && postgres)"), vec!["unix postgres"]);
    assert_eq!(from_file("//go:build ( unix && postgres )"), vec!["unix postgres"]);
    assert_eq!(from_file("//go:build unix || postgres"), vec!["unix", "postgres"]);
    assert_eq!(from_file("//go:build ( unix || postgres )"), vec!["unix", "postgres"]);
    assert_eq!(from_file("//go:build unix || !postgres"), vec!["unix"]);
    assert_eq!(from_file("//go:build ( unix || !postgres )"), vec!["unix"]);
    assert_eq!(from_file("//go:build ( unix || !postgres ) && mysql"), vec!["unix mysql"]);
    assert_eq!(from_file("//go:build ( unix || !postgres ) || mysql"), vec!["unix", "mysql"]);
}

#[test]
fn modern_build_tags_without_the_marker_is_none() {
    assert!(modern_build_tags("// a comment").is_none());
    assert!(modern_build_tags("//go:build").is_none());
    assert!(modern_build_tags("//go:buildunix").is_none());
    assert!(modern_build_tags("").is_none());
    assert_eq!(modern("//go:build "), Vec::<String>::new());
}

#[test]
fn modern_build_tags_reads_behind_the_first_marker() {
    assert_eq!(modern("x //go:build unix"), vec!["unix"]);
    assert_eq!(modern("//go:build a || //go:build b"), vec!["a", "//go:build b"]);
}

#[test]
fn modern_build_tags_negation_first() {
    assert_eq!(modern("//go:build !windows && linux"), vec!["linux"]);
    assert_eq!(modern("//go:build !windows"), Vec::<String>::new());
    assert_eq!(modern("//go:build && linux"), vec!["linux"]);
}

#[test]
fn modern_build_tags_negated_group_is_left_out() {
    assert_eq!(modern("//go:build !(unix || postgres)"), Vec::<String>::new());
    assert_eq!(modern("//go:build !(unix && postgres)"), Vec::<String>::new());
    assert_eq!(modern("//go:build !( unix )"), Vec::<String>::new());
    assert_eq!(modern("//go:build !()"), Vec::<String>::new());
    assert_eq!(modern("//go:build !((a || b) && (c || !d))"), Vec::<String>::new());
}

#[test]
fn modern_build_tags_negated_group_from_file() {
    assert_eq!(from_file("//go:build !(unix || postgres)"), Vec::<String>::new());
    assert_eq!(from_file("//go:build mysql && !(unix || postgres)"), vec!["mysql"]);
}

#[test]
fn modern_build_tags_negated_group_keeps_what_stands_around_it() {
    assert_eq!(modern("//go:build mysql && !(unix || postgres)"), vec!["mysql"]);
    assert_eq!(modern("//go:build !(unix || postgres) && mysql"), vec!["mysql"]);
    assert_eq!(modern("//go:build a && !(b || c) && d"), vec!["a d"]);
    assert_eq!(modern("//go:build a || !(b || c) || d"), vec!["a", "d"]);
    assert_eq!(modern("//go:build (a || !(b || c)) && d"), vec!["a d"]);
    assert_eq!(modern("//go:build (a && !(b || (c && e)) && d)"), vec!["a d"]);
    assert_eq!(modern("//go:build !(a) || !(b) || c"), vec!["c"]);
}

#[test]
fn modern_build_tags_negation_is_lowered_in_a_negated_group() {
    assert_eq!(modern("//go:build !(a) b"), vec!["b"]);
    assert_eq!(modern("//go:build !(!a) b"), vec!["b"]);
    assert_eq!(modern("//go:build !(a || b"), Vec::<String>::new());
    assert_eq!(modern("//go:build !(a || b)) || c"), vec!["c"]);
}

#[test]
fn modern_build_tags_negation_without_a_name_negates_nothing() {
    assert_eq!(modern("//go:build (a !)"), vec!["a"]);
    assert_eq!(modern("//go:build a || (b !) || c"), vec!["a", "b", "c"]);
    assert_eq!(modern("//go:build a !"), vec!["a"]);
}

#[test]
fn modern_build_tags_and_takes_up_the_last_group() {
    assert_eq!(modern("//go:build (a || b) && c"), vec!["a", "b c"]);
    assert_eq!(modern("//go:build (a) && (b) && (c)"), vec!["a b c"]);
    assert_eq!(modern("//go:build a || && b"), vec!["a", "b"]);
}

#[test]
fn modern_build_tags_names_side_by_side_are_one_group() {
    assert_eq!(modern("//go:build a b"), vec!["a b"]);
    assert_eq!(modern("//go:build a && && b"), vec!["a b"]);
    assert_eq!(modern("//go:build a &&"), vec!["a"]);
}

#[test]
fn modern_build_tags_nested_parentheses_settle_at_the_last() {
    assert_eq!(modern("//go:build ((a || b) && c)"), vec!["a", "b c"]);
    assert_eq!(modern("//go:build ((a || b) || c"), vec!["a", "b", "c"]);
    assert_eq!(modern("//go:build a) || b"), vec!["a", "b"]);
}

fn atom(name: &str) -> Token {
    Token::Atom(name.to_string())
}

fn same_tokens(a: &[Token], b: &[Token]) -> bool {
    a.len() == b.len()
        && a.iter().zip(b.iter()).all(|(x, y)| match (x, y) {
            (Token::Not, Token::Not) => true,
            (Token::Open, Token::Open) => true,
            (Token::Close, Token::Close) => true,
            (Token::And, Token::And) => true,
            (Token::Or, Token::Or) => true,
            (Token::Atom(n), Token::Atom(m)) => n == m,
            _ => false,
        })
}

#[test]
fn tokenize_splits_at_operators_and_white_space() {
    let tokens = tokenize("(unix||!postgres)&&mysql");
    let expected = [
        Token::Open,
        atom("unix"),
        Token::Or,
        Token::Not,
        atom("postgres"),
        Token::Close,
        Token::And,
        atom("mysql"),
    ];
    assert!(same_tokens(&tokens, &expected));
}

#[test]
fn tokenize_keeps_single_ampersand_and_bar_in_names() {
    assert!(same_tokens(&tokenize("a&b"), &[atom("a&b")]));
    assert!(same_tokens(&tokenize("a|b"), &[atom("a|b")]));
    assert!(same_tokens(&tokenize("a&&&b"), &[atom("a"), Token::And, atom("&b")]));
    assert!(same_tokens(&tokenize("|||"), &[Token::Or, atom("|")]));
    assert!(same_tokens(&tokenize("  \t\n "), &[]));
    assert!(same_tokens(&tokenize(""), &[]));
    assert!(same_tokens(&tokenize("a\u{3000}b"), &[atom("a"), atom("b")]));
    assert!(same_tokens(&tokenize("a,b"), &[atom("a,b")]));
}

#[test]
fn tag_reader_steps() {
    let st = TagReader::new();
    assert!(st.done.is_empty() && st.closed.is_empty() && st.open.is_empty());
    assert_eq!(st.depth, 0);
    assert_eq!(st.skipped, 0);
    assert!(!st.negate);

    let st = st.advance(&Token::Open);
    assert_eq!(st.depth, 1);
    let st = st.advance(&atom("a"));
    assert_eq!(st.open, "a");
    let st = st.advance(&Token::Or);
    assert_eq!(st.closed, vec!["a"]);
    assert_eq!(st.open, "");
    let st = st.advance(&Token::Not);
    assert!(st.negate);
    let st = st.advance(&atom("b"));
    assert!(!st.negate);
    assert_eq!(st.open, "");
    let st = st.advance(&atom("c"));
    let st = st.advance(&atom("d"));
    assert_eq!(st.open, "c d");
    let st = st.advance(&Token::Close);
    assert_eq!(st.depth, 0);
    assert_eq!(st.done, vec!["a", "c d"]);
    assert!(st.closed.is_empty());
    assert_eq!(st.open, "");
    let st = st.advance(&Token::And);
    assert_eq!(st.done, vec!["a"]);
    assert_eq!(st.open, "c d");
    let st = st.advance(&Token::Close);
    assert_eq!(st.depth, 0);
    assert_eq!(st.done, vec!["a", "c d"]);
    assert_eq!(st.settle(), vec!["a", "c d"]);
}

#[test]
fn tag_reader_passes_over_a_negated_group() {
    let st = TagReader::new().advance(&atom("a")).advance(&Token::Not);
    assert!(st.negate);
    let st = st.advance(&Token::Open);
    assert!(!st.negate);
    assert_eq!((st.depth, st.skipped), (0, 1));
    let st = st.advance(&atom("b")).advance(&Token::Or).advance(&Token::Not);
    assert!(!st.negate);
    assert_eq!(st.open, "a");
    assert!(st.closed.is_empty());
    let st = st.advance(&Token::Open);
    assert_eq!((st.depth, st.skipped), (0, 2));
    let st = st.advance(&atom("c")).advance(&Token::And).advance(&Token::Close);
    assert_eq!((st.depth, st.skipped), (0, 1));
    let st = st.advance(&Token::Close);
    assert_eq!((st.depth, st.skipped), (0, 0));
    assert_eq!(st.open, "a");
    assert!(st.done.is_empty() && st.closed.is_empty());
    assert!(!st.negate);
    let st = st.advance(&Token::And).advance(&atom("d"));
    assert_eq!(st.settle(), vec!["a d"]);
}

#[test]
fn read_expression_examples() {
    assert_eq!(read_expression("linux && amd64 || darwin"), vec!["linux amd64", "darwin"]);
    assert_eq!(read_expression(""), Vec::<String>::new());
}

fn comment(index: u32, text: &str) -> Capture {
    let at = Point { row: 0, column: 0 };
    Capture::new(
        index,
        text,
        Range { start_byte: 0, end_byte: text.len(), start_point: at, end_point: at },
    )
}

#[test]
fn build_tags_from_takes_the_first_comment() {
    let matches = vec![
        vec![comment(1, "golang")],
        vec![comment(0, "//go:build unix && amd64"), comment(1, "golang")],
        vec![comment(0, "//+build windows"), comment(1, "golang")],
    ];
    assert_eq!(build_tags_from(&matches, 0), Some(vec!["unix amd64".to_string()]));
    assert_eq!(build_tags_from(&matches, 2), None);
    assert_eq!(build_tags_from(&Vec::new(), 0), None);
}

#[test]
fn build_tags_from_tells_the_two_forms_by_the_beginning() {
    let legacy = vec![vec![comment(0, "//+build unix,amd64 darwin")]];
    assert_eq!(
        build_tags_from(&legacy, 0),
        Some(vec!["unix amd64".to_string(), "darwin".to_string()])
    );
    let neither = vec![vec![comment(0, "// Copyright"), comment(0, "//+build unix")]];
    assert_eq!(build_tags_from(&neither, 0), None);
    let inner = vec![vec![comment(0, "// //+build unix")]];
    assert_eq!(build_tags_from(&inner, 0), None);
}

#[test]
fn get_build_tags_without_a_comment_is_none() {
    let content = "package golang\n\nfunc f() {}\n";
    assert!(get_build_tags(content).is_none());
    let content = "// Copyright\npackage golang\n";
    assert!(get_build_tags(content).is_none());
}
