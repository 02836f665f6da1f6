use runnables::enums::{Capability, Search};
use runnables::finder::{find_tests, resolve, run_pattern};
use runnables::metadata::RunnableMeta;
use runnables::operations::{
    detect_gotest_file, get_build_tags, gotest_get_file_tests, gotest_get_subtests,
    gotest_get_test,
};
use runnables::queries::{STRING_LITERAL_PATTERN, TEST_FUNCTION_PATTERN};
use runnables::types::{Buffer, CursorPosition, Runnable, Target};

const SAMPLE: &str = "//+build unix,postgres darwin\npackage golang\n\nimport \"testing\"\n\nfunc TestFirst(t *testing.T) {\n\tt.Run(\"one\", func(t *testing.T) {\n\t})\n\tt.Run(\"two\", func(t *testing.T) {\n\t})\n}\n\nfunc TestSecond(t *testing.T) {\n}\n";

fn target(content: &str, search: Search, row: usize, col: usize) -> Target<'_> {
    let buffer = Buffer::new(content, "pkg/a_test.go".to_string(), CursorPosition::new(row, col));
    let mut target = Target::new(Capability::TestRunner, buffer);
    target.override_search_strategy(search);
    target
}

fn names(found: &[Runnable]) -> Vec<&str> {
    found.iter().map(|r| r.name.as_str()).collect()
}

#[test]
fn resolve_gives_the_node_at_the_cursor() {
    let span = resolve(SAMPLE, CursorPosition::new(6, 3)).unwrap();
    assert_eq!(span.start, CursorPosition::new(5, 0));
    assert_eq!(span.end, CursorPosition::new(10, 1));
    let span = resolve(SAMPLE, CursorPosition::new(12, 4)).unwrap();
    assert_eq!(span.start, CursorPosition::new(12, 0));
    assert_eq!(span.end, CursorPosition::new(13, 1));
    let span = resolve(SAMPLE, CursorPosition::new(1, 3)).unwrap();
    assert_eq!(span.start, CursorPosition::new(1, 0));
    assert_eq!(span.end, CursorPosition::new(1, 14));
}

#[test]
fn resolve_behind_the_last_node_gives_the_root() {
    let span = resolve(SAMPLE, CursorPosition::new(400, 0)).unwrap();
    assert_eq!(span.start, CursorPosition::new(0, 0));
    assert_eq!(span.end, CursorPosition::new(14, 0));
    let span = resolve(SAMPLE, CursorPosition::new(usize::MAX, usize::MAX)).unwrap();
    assert_eq!(span.start, CursorPosition::new(0, 0));
    let span = resolve("", CursorPosition::new(0, 0)).unwrap();
    assert_eq!(span.start, CursorPosition::new(0, 0));
    assert_eq!(span.end, CursorPosition::new(0, 0));
}

#[test]
fn run_pattern_gives_the_captures_of_each_match() {
    let everywhere = (CursorPosition::new(0, 0), CursorPosition::new(usize::MAX, usize::MAX));
    let root = CursorPosition::new(400, 0);
    let found = run_pattern(SAMPLE, TEST_FUNCTION_PATTERN, root, everywhere.0, everywhere.1);
    let found = found.unwrap();
    assert_eq!(found.len(), 2);
    let texts: Vec<&str> = found[0].iter().map(|c| c.text.as_str()).collect();
    assert!(texts.contains(&"TestFirst"));
    assert!(texts.contains(&"testing"));
    assert!(texts.contains(&"T"));
    let name = found[1].iter().find(|c| c.text == "TestSecond").unwrap();
    assert_eq!(name.range.start, CursorPosition::new(12, 5));
    assert_eq!(name.range.end, CursorPosition::new(12, 15));
}

#[test]
fn run_pattern_stays_under_the_node_at_the_cursor() {
    let everywhere = (CursorPosition::new(0, 0), CursorPosition::new(usize::MAX, usize::MAX));
    let second = CursorPosition::new(12, 4);
    let found =
        run_pattern(SAMPLE, TEST_FUNCTION_PATTERN, second, everywhere.0, everywhere.1).unwrap();
    assert_eq!(found.len(), 1);
    let found =
        run_pattern(SAMPLE, STRING_LITERAL_PATTERN, second, everywhere.0, everywhere.1).unwrap();
    assert!(found.is_empty());
}

#[test]
fn run_pattern_stays_within_the_span() {
    let root = CursorPosition::new(400, 0);
    let found = run_pattern(
        SAMPLE,
        STRING_LITERAL_PATTERN,
        root,
        CursorPosition::new(8, 0),
        CursorPosition::new(9, 3),
    )
    .unwrap();
    assert_eq!(found.len(), 1);
    assert!(found[0].iter().any(|c| c.text == "\"two\""));
    let found = run_pattern(
        SAMPLE,
        STRING_LITERAL_PATTERN,
        root,
        CursorPosition::new(12, 0),
        CursorPosition::new(13, 1),
    )
    .unwrap();
    assert!(found.is_empty());
}

#[test]
fn run_pattern_refuses_what_is_no_pattern() {
    let everywhere = (CursorPosition::new(0, 0), CursorPosition::new(usize::MAX, usize::MAX));
    let at = CursorPosition::new(6, 3);
    assert!(run_pattern(SAMPLE, "(no_such_node)", at, everywhere.0, everywhere.1).is_none());
    assert!(run_pattern(SAMPLE, "((", at, everywhere.0, everywhere.1).is_none());
}

#[test]
fn find_tests_with_and_without_a_row() {
    let root = CursorPosition::new(400, 0);
    assert_eq!(names(&find_tests(SAMPLE, "f", root, None)), vec!["TestFirst", "TestSecond"]);
    assert_eq!(names(&find_tests(SAMPLE, "f", root, Some(12))), vec!["TestSecond"]);
    assert!(find_tests(SAMPLE, "f", root, Some(6)).is_empty());
    let first = CursorPosition::new(6, 3);
    assert_eq!(names(&find_tests(SAMPLE, "f", first, None)), vec!["TestFirst"]);
}

#[test]
fn get_test_gives_the_test_at_the_cursor() {
    let found = gotest_get_test::execute(&target(SAMPLE, Search::Method, 8, 3)).unwrap();
    assert_eq!(found.name, "TestFirst");
    assert_eq!(found.filepath, "pkg/a_test.go");
    assert_eq!(found.range.start, CursorPosition::new(5, 0));
    assert_eq!(found.range.end, CursorPosition::new(10, 1));
    let found = gotest_get_test::execute(&target(SAMPLE, Search::Method, 13, 0)).unwrap();
    assert_eq!(found.name, "TestSecond");
    assert!(gotest_get_test::execute(&target(SAMPLE, Search::Method, 3, 3)).is_none());
    assert!(gotest_get_test::execute(&target(SAMPLE, Search::Method, 400, 0)).is_none());
}

#[test]
fn get_file_tests_gives_every_test_under_the_cursor_node() {
    let found = gotest_get_file_tests::execute(&target(SAMPLE, Search::File, 400, 0)).unwrap();
    assert_eq!(names(&found), vec!["TestFirst", "TestSecond"]);
    let found = gotest_get_file_tests::execute(&target(SAMPLE, Search::File, 13, 0)).unwrap();
    assert_eq!(names(&found), vec!["TestSecond"]);
    assert!(gotest_get_file_tests::execute(&target(SAMPLE, Search::File, 3, 3)).is_none());
}

fn first_test() -> Runnable {
    Runnable {
        name: "TestFirst".to_string(),
        filepath: "pkg/a_test.go".to_string(),
        range: CursorPosition::new(5, 0)..CursorPosition::new(10, 1),
        meta: RunnableMeta::default_golang(),
    }
}

#[test]
fn get_subtests_filters_by_the_cursor_for_nearest_only() {
    let found =
        gotest_get_subtests::execute(first_test(), &target(SAMPLE, Search::File, 8, 3)).unwrap();
    assert_eq!(names(&found), vec!["TestFirst/one", "TestFirst/two"]);
    let found =
        gotest_get_subtests::execute(first_test(), &target(SAMPLE, Search::Method, 8, 3)).unwrap();
    assert_eq!(names(&found), vec!["TestFirst/one", "TestFirst/two"]);
    let found =
        gotest_get_subtests::execute(first_test(), &target(SAMPLE, Search::Nearest, 8, 3)).unwrap();
    assert_eq!(names(&found), vec!["TestFirst/two"]);
    assert_eq!(found[0].filepath, "pkg/a_test.go");
    assert_eq!(found[0].range.start, CursorPosition::new(8, 1));
    assert_eq!(found[0].range.end, CursorPosition::new(9, 3));
    let none = gotest_get_subtests::execute(first_test(), &target(SAMPLE, Search::Nearest, 5, 3));
    assert!(none.is_none());
}

#[test]
fn get_subtests_stays_within_the_test() {
    let second = Runnable {
        name: "TestSecond".to_string(),
        filepath: "pkg/a_test.go".to_string(),
        range: CursorPosition::new(12, 0)..CursorPosition::new(13, 1),
        meta: RunnableMeta::default_golang(),
    };
    assert!(gotest_get_subtests::execute(second, &target(SAMPLE, Search::File, 400, 0)).is_none());
    let found =
        gotest_get_subtests::execute(first_test(), &target(SAMPLE, Search::File, 400, 0)).unwrap();
    assert_eq!(names(&found), vec!["TestFirst/one", "TestFirst/two"]);
}

#[test]
fn build_tags_and_imports_of_the_sample() {
    assert_eq!(get_build_tags::execute(SAMPLE), Some(vec!["unix postgres".to_string(), "darwin".to_string()]));
    assert!(detect_gotest_file::execute(SAMPLE));
    assert!(!detect_gotest_file::execute("package golang\n"));
    assert_eq!(get_build_tags::execute("package golang\n"), None);
}
