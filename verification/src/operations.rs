//! The single steps of a search, each on a target.

pub mod detect_gotest_file;
pub mod get_build_tags;
pub mod gotest_get_file_tests;
pub mod gotest_get_subtests;
pub mod gotest_get_test;
