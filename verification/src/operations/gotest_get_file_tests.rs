//! All tests under the node that a search starts from.

use crate::finder::{find_tests, tests_at};
use crate::types::{runnable_views, Runnable, Target};
use vstd::prelude::*;

verus! {

/// Every test under the node that the search of `target` starts from,
/// whatever the row of the cursor; `None` where there is none.
pub fn execute(target: &Target) -> (found: Option<Vec<Runnable>>)
    ensures
        found is Some == (tests_at(
            target.buffer.content@,
            target.buffer.filepath@,
            target.buffer.position,
            None,
        ).len() > 0),
        found matches Some(tests) ==> runnable_views(tests@) == tests_at(
            target.buffer.content@,
            target.buffer.filepath@,
            target.buffer.position,
            None,
        ),
{
    let tests = find_tests(
        target.buffer.content,
        target.buffer.filepath.as_str(),
        target.buffer.position,
        None,
    );
    if tests.len() == 0 {
        None
    } else {
        Some(tests)
    }
}

} // verus!
