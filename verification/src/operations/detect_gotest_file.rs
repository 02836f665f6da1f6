//! Whether a source is a Go test file by what it imports.

use crate::gotest::{detect_gotest_file, imports_testing};
use vstd::prelude::*;

verus! {

/// Whether `content` imports the package `testing`, alone or in a list
/// of imports.
pub fn execute(content: &str) -> (found: bool)
    ensures
        found == imports_testing(content@),
{
    detect_gotest_file(content)
}

} // verus!
