//! Discovery of runnable Go tests in a source buffer: which test or
//! subtest sits at a cursor, and which build tags are needed to run it.
//!
//! A search parses the buffer with tree-sitter, starts from the node at
//! the cursor, and reads tests and subtests off the matches of a few
//! patterns (`queries`, `syntax`, `matchers`, `finder`). The build
//! comment of the file is read into groups of tags (`build_tags`).
//! `gotest` puts both behind the `Framework` trait, `registry` and
//! `engine` find a framework by name, and `terminal` writes commands.

pub mod build_tags;
pub mod engine;
pub mod enums;
pub mod errors;
pub mod finder;
pub mod gotest;
pub mod matchers;
pub mod metadata;
pub mod operations;
pub mod queries;
pub mod registry;
pub mod syntax;
pub mod terminal;
pub mod text;
pub mod traits;
pub mod types;
