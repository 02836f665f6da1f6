//! The subtests of a test.

use crate::enums::Search;
use crate::finder::{all_subtests, find_subtests};
use crate::types::{runnable_views, CursorPosition, Runnable, Target};
use vstd::prelude::*;

verus! {

/// The cursor that subtests have to be at: that of the target where the
/// nearest runnable is searched, none else.
pub open spec fn cursor_filter(search: Search, position: CursorPosition) -> Option<
    CursorPosition,
> {
    if search == Search::Nearest {
        Some(position)
    } else {
        None
    }
}

/// The subtests of `parent` in the buffer of `target`, found by all
/// seven patterns; for the search mode `Nearest` only those with the
/// cursor's row among their rows. `None` where there is none.
pub fn execute(parent: Runnable, target: &Target) -> (found: Option<Vec<Runnable>>)
    ensures
        found is Some == (all_subtests(
            target.buffer.content@,
            target.buffer.position,
            parent@,
            cursor_filter(target.search_strategy, target.buffer.position),
        ).len() > 0),
        found matches Some(subtests) ==> runnable_views(subtests@) == all_subtests(
            target.buffer.content@,
            target.buffer.position,
            parent@,
            cursor_filter(target.search_strategy, target.buffer.position),
        ),
{
    let filter = match target.search_strategy {
        Search::Nearest => Some(target.buffer.position),
        _ => None,
    };
    find_subtests(target.buffer.content, target.buffer.position, &parent, filter)
}

} // verus!
