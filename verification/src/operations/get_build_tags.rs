//! The build tags that a source asks for.

use crate::finder::{file_build_tags, get_build_tags};
use crate::text::texts;
use vstd::prelude::*;

verus! {

/// The groups of build tags of `content`: those of the first comment
/// before its package clause; `None` where there is none or it is no
/// build comment.
pub fn execute(content: &str) -> (tags: Option<Vec<String>>)
    ensures
        tags is Some == file_build_tags(content@) is Some,
        tags matches Some(groups) ==> file_build_tags(content@) == Some(texts(groups@)),
{
    get_build_tags(content)
}

} // verus!
