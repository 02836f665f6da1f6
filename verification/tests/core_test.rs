use runnables::engine::Engine;
use runnables::enums::{Capability, Language, Search};
use runnables::errors::FrameworkError;
use runnables::gotest::{
    any_match, collect_tags, detect_gotest_file, gotest_arguments, GotestProvider,
};
use runnables::metadata::RunnableMeta;
use runnables::registry::FrameworkRegistry;
use runnables::traits::{Framework, FrameworkProvider};
use runnables::types::{Buffer, CursorPosition, Runnable, Target};
use std::str::FromStr;

fn strings(v: &[&str]) -> Vec<String> {
    v.iter().map(|s| s.to_string()).collect()
}

#[test]
fn language_aliases() {
    assert_eq!(Language::Golang.aliases(), vec!["go", "golang"]);
    assert_eq!(Language::Rust.aliases(), vec!["rust", "rs"]);
    assert_eq!(Language::Python.aliases(), vec!["python", "py"]);
    assert!(Language::Unsupported.aliases().is_empty());
}

#[test]
fn language_from_its_aliases() {
    for language in [Language::Golang, Language::Rust, Language::Python] {
        for alias in language.aliases() {
            assert_eq!(Language::from_name(alias), Ok(language));
            assert_eq!(Language::from_str(alias), Ok(language));
        }
    }
}

#[test]
fn language_from_a_name_in_any_case() {
    assert_eq!(Language::from_name("GO"), Ok(Language::Golang));
    assert_eq!(Language::from_name("GoLang"), Ok(Language::Golang));
    assert_eq!(Language::from_name("RS"), Ok(Language::Rust));
    assert_eq!(Language::from_name("Python"), Ok(Language::Python));
    assert_eq!("Py".parse::<Language>(), Ok(Language::Python));
}

#[test]
fn language_from_an_unknown_name() {
    assert_eq!(Language::from_name("Java"), Err("Unknown language: Java".to_string()));
    assert_eq!(Language::from_name(""), Err("Unknown language: ".to_string()));
    assert_eq!(Language::from_name("go "), Err("Unknown language: go ".to_string()));
    assert_eq!(Language::from_str("unsupported"), Err("Unknown language: unsupported".to_string()));
}

#[test]
fn error_messages() {
    assert_eq!(
        FrameworkError::ParsingError("x".to_string()).message(),
        "parsing error. details = `x`"
    );
    assert_eq!(
        FrameworkError::NotFoundError("y".to_string()).message(),
        "failed to find test methods. details = `y`"
    );
    assert_eq!(
        FrameworkError::UnknownError("z".to_string()).message(),
        "unknown error occurred. details `z`"
    );
    assert_eq!(
        FrameworkError::PreconditionError("".to_string()).message(),
        "precondition error. details = ``"
    );
}

#[test]
fn cursor_in_range_counts_rows_only() {
    let range = CursorPosition::new(3, 10)..CursorPosition::new(5, 2);
    assert!(CursorPosition::new(3, 0).in_range(&range));
    assert!(CursorPosition::new(3, 10).in_range(&range));
    assert!(CursorPosition::new(4, 99).in_range(&range));
    assert!(CursorPosition::new(5, 2).in_range(&range));
    assert!(CursorPosition::new(5, 99).in_range(&range));
    assert!(!CursorPosition::new(2, 10).in_range(&range));
    assert!(!CursorPosition::new(6, 0).in_range(&range));
}

#[test]
fn cursor_to_point_and_back() {
    let cursor = CursorPosition::new(7, 11);
    let point = cursor.to_point();
    assert_eq!(point.row, 7);
    assert_eq!(point.column, 11);
    assert_eq!(CursorPosition::from_point(point), cursor);
    let zero = CursorPosition::default();
    assert_eq!(zero, CursorPosition::new(0, 0));
}

#[test]
fn target_starts_with_the_nearest_search() {
    let buffer = Buffer::new("package a", "a_test.go".to_string(), CursorPosition::new(1, 2));
    assert_eq!(buffer.content, "package a");
    assert_eq!(buffer.filepath, "a_test.go");
    assert_eq!(buffer.position, CursorPosition::new(1, 2));
    let mut target = Target::new(Capability::TestRunner, buffer);
    assert_eq!(target.search_strategy, Search::Nearest);
    assert_eq!(target.category, Capability::TestRunner);
    target.override_search_strategy(Search::File);
    assert_eq!(target.search_strategy, Search::File);
    assert_eq!(target.category, Capability::TestRunner);
    assert_eq!(target.buffer.filepath, "a_test.go");
    assert_eq!(target.buffer.position, CursorPosition::new(1, 2));
}

#[test]
fn runnable_meta_collects_build_tags_in_order() {
    let mut meta = RunnableMeta::default_golang();
    let read = meta.get_meta().unwrap();
    assert_eq!(read.package, "");
    assert!(read.build_tags.is_empty());
    meta.extend_build_tags(strings(&["unix postgres", "mysql"]));
    meta.set_build_tags("darwin".to_string());
    meta.extend_build_tags(Vec::new());
    let read = meta.get_meta().unwrap();
    assert_eq!(read.build_tags, vec!["unix postgres", "mysql", "darwin"]);
    let copy = meta.clone();
    assert_eq!(copy.get_meta().unwrap().build_tags, vec!["unix postgres", "mysql", "darwin"]);
}

fn runnable_with_tags(tags: &[&str]) -> Runnable {
    let mut meta = RunnableMeta::default_golang();
    meta.extend_build_tags(strings(tags));
    Runnable {
        name: "TestSample/case_a".to_string(),
        filepath: "pkg/run_test.go".to_string(),
        range: CursorPosition::new(1, 0)..CursorPosition::new(2, 0),
        meta,
    }
}

#[test]
fn generate_command_without_tags() {
    let command = GotestProvider::new().generate_command(runnable_with_tags(&[]));
    assert_eq!(command.command, "go");
    assert_eq!(command.args, vec!["test", "-v", "pkg/run_test.go"]);
}

#[test]
fn generate_command_joins_all_tags_with_commas() {
    let command =
        GotestProvider::new().generate_command(runnable_with_tags(&["unix postgres", "mysql"]));
    assert_eq!(command.command, "go");
    assert_eq!(command.args, vec!["test", "-v", "pkg/run_test.go", "-tags=unix,postgres,mysql"]);
}

#[test]
fn gotest_arguments_examples() {
    assert_eq!(
        gotest_arguments("a_test.go".to_string(), &strings(&["unix"])),
        vec!["test", "-v", "a_test.go", "-tags=unix"]
    );
    assert_eq!(
        gotest_arguments("a_test.go".to_string(), &strings(&["", " "])),
        vec!["test", "-v", "a_test.go"]
    );
    assert_eq!(collect_tags(&strings(&["a b", "", "c"])), vec!["a", "b", "c"]);
}

#[test]
fn runnables_carry_the_build_tags_of_the_file() {
    let content = "//go:build (unix || !postgres) && mysql\npackage golang\n\nimport \"testing\"\n\nfunc TestA(t *testing.T) {\n\tt.Run(\"one\", func(t *testing.T) {\n\t})\n\tt.Run(\"two\", func(t *testing.T) {\n\t})\n}\n";
    let buffer = Buffer::new(content, "a_test.go".to_string(), CursorPosition::new(6, 3));
    let mut target = Target::new(Capability::TestRunner, buffer);
    target.override_search_strategy(Search::File);
    let provider = GotestProvider::new();
    let found = provider.runnables(&target).unwrap();
    assert_eq!(found.len(), 2);
    for runnable in &found {
        assert_eq!(runnable.meta.get_meta().unwrap().build_tags, vec!["unix mysql"]);
    }
    let command = provider.generate_command(found[0].clone());
    assert_eq!(command.args, vec!["test", "-v", "a_test.go", "-tags=unix,mysql"]);

    target.override_search_strategy(Search::Method);
    let found = provider.runnables(&target).unwrap();
    assert_eq!(found.len(), 1);
    assert_eq!(found[0].name, "TestA");
    assert_eq!(found[0].meta.get_meta().unwrap().build_tags, vec!["unix mysql"]);
}

#[test]
fn runnables_of_a_file_without_build_comment_carry_no_tags() {
    let content = "package golang\n\nimport \"testing\"\n\nfunc TestA(t *testing.T) {\n}\n";
    let buffer = Buffer::new(content, "a_test.go".to_string(), CursorPosition::new(4, 3));
    let target = Target::new(Capability::TestRunner, buffer);
    let found = GotestProvider::new().runnables(&target).unwrap();
    assert_eq!(found.len(), 1);
    assert!(found[0].meta.get_meta().unwrap().build_tags.is_empty());
}

#[test]
fn subtests_with_one_name_are_given_once() {
    let content = "package golang\n\nimport \"testing\"\n\nfunc TestA(t *testing.T) {\n\tt.Run(\"same\", func(t *testing.T) {\n\t})\n\tt.Run(\"same\", func(t *testing.T) {\n\t})\n\tt.Run(\"other\", func(t *testing.T) {\n\t})\n}\n";
    let buffer = Buffer::new(content, "a_test.go".to_string(), CursorPosition::new(5, 3));
    let mut target = Target::new(Capability::TestRunner, buffer);
    target.override_search_strategy(Search::File);
    let found = GotestProvider::new().runnables(&target).unwrap();
    let names: Vec<&str> = found.iter().map(|r| r.name.as_str()).collect();
    assert_eq!(names, vec!["TestA/same", "TestA/other"]);
    assert_eq!(found[0].range.start, CursorPosition::new(5, 1));
}

#[test]
fn capabilities_test_nearest() {
    let actual = GotestProvider::new().search_for_capability("Test Nearest");
    assert!(actual.is_some());
    assert_eq!(actual.unwrap().search, Search::Nearest);
}

#[test]
fn capabilities_test_function() {
    let actual = GotestProvider::new().search_for_capability("Test Function");
    assert!(actual.is_some());
    assert_eq!(actual.unwrap().search, Search::Method);
}

#[test]
fn capabilities_test_file() {
    let actual = GotestProvider::new().search_for_capability("Test File").unwrap();
    assert_eq!(actual.search, Search::File);
    assert_eq!(actual.capability, Capability::TestRunner);
    assert_eq!(actual.description, "Test File");
}

#[test]
fn capabilities_test_directory() {
    assert!(GotestProvider::new().search_for_capability("Test Directory").is_none());
    assert!(GotestProvider::new().search_for_capability("test file").is_none());
    assert!(GotestProvider::new().search_for_capability("").is_none());
}

#[test]
fn ssearch_for_capability() {
    let actual = GotestProvider::new().capabilities();
    assert_eq!(actual.len(), 3);
    let described: Vec<(&str, Search)> =
        actual.iter().map(|c| (c.description.as_str(), c.search)).collect();
    assert_eq!(
        described,
        vec![
            ("Test Nearest", Search::Nearest),
            ("Test Function", Search::Method),
            ("Test File", Search::File)
        ]
    );
    assert!(actual.iter().all(|c| c.capability == Capability::TestRunner));
}

#[test]
fn provider_says_what_it_is() {
    let provider = GotestProvider::new();
    assert_eq!(provider.name(), "GoTest");
    assert_eq!(provider.language(), Language::Golang);
    assert_eq!(provider.capability(), Capability::TestRunner);
    assert_eq!(provider.create().capabilities().len(), 3);
}

fn import_sample(imports: &str) -> String {
    format!(
        "\n        package golang\n        {}\n\n        func sample_add(a, b int) int {{\n          return a + b\n        }}\n        ",
        imports
    )
}

#[test]
fn testing_package_found() {
    assert!(detect_gotest_file(&import_sample("import \"testing\"")));
}

#[test]
fn testing_package_not_found() {
    assert!(!detect_gotest_file(&import_sample("import \"context\"")));
}

#[test]
fn testing_package_found_in_import_list() {
    let imports = "import (\n          \"testing\"\n\n          \"context\"\n        )";
    assert!(detect_gotest_file(&import_sample(imports)));
}

#[test]
fn testing_package_not_found_in_import_list() {
    let imports = "import (\n          \"fmt\"\n\n          \"context\"\n        )";
    assert!(!detect_gotest_file(&import_sample(imports)));
}

#[test]
fn testing_package_found_under_another_name() {
    assert!(detect_gotest_file(&import_sample("import l \"testing\"")));
    assert!(!detect_gotest_file(&import_sample("import testing \"context\"")));
}

#[test]
fn any_match_examples() {
    assert!(!any_match(&None));
    assert!(!any_match(&Some(Vec::new())));
    assert!(any_match(&Some(vec![Vec::new()])));
}

fn detects(content: &str, category: Capability, filepath: &str) -> bool {
    let buffer = Buffer::new(content, filepath.to_string(), CursorPosition::new(0, 0));
    let target = Target::new(category, buffer);
    GotestProvider::new().detect(&target)
}

#[test]
fn detect_asks_for_import_category_and_suffix() {
    let with = import_sample("import \"testing\"");
    let without = import_sample("import \"context\"");
    assert!(detects(&with, Capability::TestRunner, "pkg/sample_test.go"));
    assert!(detects(&with, Capability::TestRunner, "_test.go"));
    assert!(!detects(&with, Capability::Debugger, "pkg/sample_test.go"));
    assert!(!detects(&with, Capability::TestRunner, "pkg/sample.go"));
    assert!(!detects(&with, Capability::TestRunner, "pkg/sample_test.go.bak"));
    assert!(!detects(&with, Capability::TestRunner, "test.go"));
    assert!(!detects(&without, Capability::TestRunner, "pkg/sample_test.go"));
}

#[test]
fn registry_keeps_one_provider_for_a_name() {
    let mut registry = FrameworkRegistry::new();
    assert!(registry.get_provider_names().is_empty());
    assert!(registry.get_framework("GoTest").is_none());
    assert!(registry
        .get_frameworks_by_category_and_language(Capability::TestRunner, Language::Golang)
        .is_empty());

    registry.register(GotestProvider::new());
    registry.register(GotestProvider::new());
    assert_eq!(registry.get_provider_names(), vec!["GoTest"]);
    assert!(registry.get_framework("GoTest").is_some());
    assert!(registry.get_framework("gotest").is_none());
    assert!(registry.get_framework("").is_none());
    assert_eq!(
        registry
            .get_frameworks_by_category_and_language(Capability::TestRunner, Language::Golang)
            .len(),
        1
    );
    assert!(registry
        .get_frameworks_by_category_and_language(Capability::Debugger, Language::Golang)
        .is_empty());
    assert!(registry
        .get_frameworks_by_category_and_language(Capability::TestRunner, Language::Rust)
        .is_empty());
}

#[test]
fn engine_offers_the_searches_of_go_files() {
    let engine = Engine::initialize();
    let offers = engine.get_capabilities("pkg/sample_test.go");
    let described: Vec<&str> = offers.iter().map(|c| c.description.as_str()).collect();
    assert_eq!(described, vec!["Test Nearest", "Test Function", "Test File"]);
    assert_eq!(engine.get_capabilities("main.GO").len(), 3);
    assert_eq!(engine.get_capabilities("a.b.golang").len(), 3);
    assert_eq!(engine.get_capabilities("go").len(), 3);
}

#[test]
fn engine_offers_nothing_for_other_files() {
    let engine = Engine::initialize();
    assert!(engine.get_capabilities("lib.rs").is_empty());
    assert!(engine.get_capabilities("script.py").is_empty());
    assert!(engine.get_capabilities("README.md").is_empty());
    assert!(engine.get_capabilities("Makefile").is_empty());
    assert!(engine.get_capabilities("sample_test.go.").is_empty());
    assert!(engine.get_capabilities("").is_empty());
}

const ENGINE_SAMPLE: &str = "package golang\n\nimport \"testing\"\n\nfunc TestA(t *testing.T) {\n\tt.Run(\"one\", func(t *testing.T) {\n\t})\n\tt.Run(\"two\", func(t *testing.T) {\n\t})\n}\n";

fn engine_names(description: &str) -> Vec<String> {
    let found = Engine::initialize().find_runnables(
        ENGINE_SAMPLE,
        "a_test.go",
        description,
        "GoTest",
        CursorPosition::new(7, 2),
    );
    found.unwrap().into_iter().map(|r| r.name).collect()
}

#[test]
fn engine_searches_as_the_description_asks() {
    assert_eq!(engine_names("Test Nearest"), vec!["TestA/two"]);
    assert_eq!(engine_names("Test Function"), vec!["TestA"]);
    assert_eq!(engine_names("Test File"), vec!["TestA/one", "TestA/two"]);
}

#[test]
fn engine_refuses_what_it_does_not_know() {
    let engine = Engine::initialize();
    let at = CursorPosition::new(7, 2);
    let unknown = engine.find_runnables(ENGINE_SAMPLE, "a_test.go", "Test File", "PyTest", at);
    assert!(matches!(unknown, Err(FrameworkError::PreconditionError(_))));
    let unknown = engine.find_runnables(ENGINE_SAMPLE, "a_test.go", "Test Package", "GoTest", at);
    assert!(matches!(unknown, Err(FrameworkError::PreconditionError(_))));
    let none = engine.find_runnables("package golang\n", "a_test.go", "Test File", "GoTest", at);
    assert!(matches!(none, Err(FrameworkError::NotFoundError(_))));
}

#[test]
fn engine_says_what_it_does_not_know() {
    let engine = Engine::initialize();
    let at = CursorPosition::new(7, 2);
    assert_eq!(
        engine.find_runnables(ENGINE_SAMPLE, "a_test.go", "Test File", "PyTest", at).unwrap_err(),
        FrameworkError::PreconditionError("unknown framework".to_string())
    );
    assert_eq!(
        engine.find_runnables(ENGINE_SAMPLE, "a_test.go", "Test Package", "GoTest", at).unwrap_err(),
        FrameworkError::PreconditionError("unknown capability".to_string())
    );
    assert_eq!(
        engine.find_runnables(ENGINE_SAMPLE, "a_test.go", "Test Package", "PyTest", at).unwrap_err(),
        FrameworkError::PreconditionError("unknown framework".to_string())
    );
}

#[test]
fn case_with_two_strings_is_one_subtest() {
    let content = "package golang\n\nimport \"testing\"\n\nfunc TestA(t *testing.T) {\n\tfor _, tt := range []struct {\n\t\tname string\n\t\twant string\n\t}{\n\t\t{\"first\", \"x\"},\n\t\t{\"second\", \"y\"},\n\t} {\n\t\tt.Run(tt.name, func(t *testing.T) {\n\t\t})\n\t}\n}\n";
    let buffer = Buffer::new(content, "a_test.go".to_string(), CursorPosition::new(5, 3));
    let mut target = Target::new(Capability::TestRunner, buffer);
    target.override_search_strategy(Search::File);
    let found = GotestProvider::new().runnables(&target).unwrap();
    let names: Vec<&str> = found.iter().map(|r| r.name.as_str()).collect();
    assert_eq!(names, vec!["TestA/first", "TestA/second"]);
    for (i, a) in found.iter().enumerate() {
        for b in found.iter().skip(i + 1) {
            assert!(a.range.start != b.range.start || a.range.end != b.range.end);
        }
    }

    let buffer = Buffer::new(content, "a_test.go".to_string(), CursorPosition::new(10, 3));
    let target = Target::new(Capability::TestRunner, buffer);
    let found = GotestProvider::new().runnables(&target).unwrap();
    let names: Vec<&str> = found.iter().map(|r| r.name.as_str()).collect();
    assert_eq!(names, vec!["TestA/second"]);
}

#[test]
fn every_runnable_carries_the_tags_of_the_file_and_no_more() {
    let content = "//+build unix,postgres darwin\npackage golang\n\nimport \"testing\"\n\nfunc TestA(t *testing.T) {\n\tt.Run(\"one\", func(t *testing.T) {\n\t})\n}\n\nfunc TestB(t *testing.T) {\n}\n";
    for search in [Search::File, Search::Method, Search::Nearest] {
        for (row, col) in [(6, 3), (10, 3), (400, 0)] {
            let buffer = Buffer::new(content, "a_test.go".to_string(), CursorPosition::new(row, col));
            let mut target = Target::new(Capability::TestRunner, buffer);
            target.override_search_strategy(search);
            if let Ok(found) = GotestProvider::new().runnables(&target) {
                assert!(!found.is_empty());
                for runnable in found {
                    let meta = runnable.meta.get_meta().unwrap();
                    assert_eq!(meta.package, "");
                    assert_eq!(meta.build_tags, vec!["unix postgres", "darwin"]);
                }
            }
        }
    }
}
