//! The test at the cursor.

use crate::finder::{find_tests, resolve, start_row, tests_at};
use crate::syntax::search_root_span;
use crate::types::{runnable_views, Runnable, RunnableView, Target};
use vstd::prelude::*;

verus! {

/// The test at the cursor: the first test under the node that the search
/// starts from whose name is on the first row of that node.
pub open spec fn test_at_cursor(
    content: Seq<char>,
    filepath: Seq<char>,
    cursor: crate::types::CursorPosition,
) -> Option<RunnableView> {
    let here = tests_at(content, filepath, cursor, Some(start_row(content, cursor)));
    if search_root_span(content, cursor) is Some && here.len() > 0 {
        Some(here[0])
    } else {
        None
    }
}

/// The test at the cursor of `target`; `None` where the source has no
/// syntax tree or no test stands there.
pub fn execute(target: &Target) -> (found: Option<Runnable>)
    ensures
        found is Some == test_at_cursor(
            target.buffer.content@,
            target.buffer.filepath@,
            target.buffer.position,
        ) is Some,
        found matches Some(test) ==> test_at_cursor(
            target.buffer.content@,
            target.buffer.filepath@,
            target.buffer.position,
        ) == Some(test@),
{
    let root = match resolve(target.buffer.content, target.buffer.position) {
        Some(root) => root,
        None => {
            return None;
        },
    };
    let here = find_tests(
        target.buffer.content,
        target.buffer.filepath.as_str(),
        target.buffer.position,
        Some(root.start.row),
    );
    if here.len() > 0 {
        assert(runnable_views(here@)[0] == here@[0]@);
        Some(here[0].clone())
    } else {
        None
    }
}

} // verus!
