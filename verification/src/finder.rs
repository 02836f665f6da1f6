//! The search for the runnables of a Go source: which tests stand under
//! the node at the cursor, which subtests a test has, and which build
//! tags the file asks for.
//!
//! What the syntax tree holds is known only by name (see `syntax`); over
//! those names each function here says exactly what it returns.

use crate::build_tags::{
    legacy_build_tags, legacy_groups, legacy_marker, modern_build_tags, modern_groups,
};
use crate::enums::Search;
use crate::errors::FrameworkError;
use crate::matchers::{
    all_among, all_blank, blank_meta, distinct, distinct_by_name, distinct_by_span, find_capture,
    first_with, is_test_name, lemma_distinct, lemma_filter_gives_fewer,
    lemma_name_counts_on_its_boundary_rows, lemma_one_per_span, lemma_subtests_extend_parent,
    lemma_subtests_hold_cursor, lemma_subtests_in_blank, lemma_tests_in,
    lemma_tests_of_a_match_are_found, names_differ, one_per_span, spans_differ, subtests_from,
    subtests_in, test_of, tests_from, tests_in, tests_in_match,
};
use crate::metadata::MetaView;
use crate::queries::{
    BUILD_TAGS, BUILD_TAGS_PATTERN, CASE, CASE_FIELD_VALUE, CASE_NAME_VALUE,
    IN_LOOP_NAMED_FIELDS_PATTERN, IN_LOOP_TYPED_NAMED_FIELDS_PATTERN,
    IN_LOOP_TYPED_UNNAMED_FIELDS_PATTERN, IN_LOOP_UNNAMED_FIELDS_PATTERN,
    OUT_OF_LOOP_NAMED_FIELDS_PATTERN, OUT_OF_LOOP_UNNAMED_FIELDS_PATTERN, STRING_LITERAL_PATTERN,
    TEST_FUNCTION, TEST_FUNCTION_PATTERN, TEST_NAME,
};
use crate::syntax::{
    capture_index, capture_slot, capture_views, found_views, match_views, matches_under, place,
    query_matches, search_root, search_root_span, Capture, CaptureView,
};
use crate::text::{chars_of, clone_strings, has_prefix, starts_with, texts};
use crate::types::{
    lemma_runnable_views_add, lemma_runnable_views_push, runnable_views, CursorPosition, Runnable,
    RunnableView,
};
use std::ops::Range;
use vstd::prelude::*;

verus! {

/// The first place of a source.
pub open spec fn origin() -> CursorPosition {
    CursorPosition { row: 0, col: 0 }
}

/// A place behind every place of a source. No node reaches it, so a
/// search from it starts at the root of the syntax tree.
pub open spec fn far_end() -> CursorPosition {
    CursorPosition { row: usize::MAX, col: usize::MAX }
}

/// The first place of a source.
pub fn origin_position() -> (at: CursorPosition)
    ensures
        at == origin(),
{
    CursorPosition { row: 0, col: 0 }
}

/// A place behind every place of a source.
pub fn far_end_position() -> (at: CursorPosition)
    ensures
        at == far_end(),
{
    CursorPosition { row: usize::MAX, col: usize::MAX }
}

/// The matches of `pattern` under the node that the search with the
/// cursor at `at` starts from, among those that touch the span from
/// `from` to `to`; `None` where there is no tree or the pattern is no
/// query.
pub fn run_pattern(
    content: &str,
    pattern: &str,
    at: CursorPosition,
    from: CursorPosition,
    to: CursorPosition,
) -> (found: Option<Vec<Vec<Capture>>>)
    ensures
        found_views(found) == query_matches(content@, pattern@, at, from, to),
{
    let start = at.to_point();
    let within = Range { start: from.to_point(), end: to.to_point() };
    proof {
        assert(place(start) == at);
        assert(place(within.start) == from);
        assert(place(within.end) == to);
    }
    matches_under(content, pattern, start, within)
}

/// The span of the node that the search with the cursor at `at` starts
/// from; `None` where the source has no syntax tree.
pub fn resolve(content: &str, at: CursorPosition) -> (span: Option<Range<CursorPosition>>)
    ensures
        span is Some == search_root_span(content@, at) is Some,
        span matches Some(s) ==> search_root_span(content@, at) == Some((s.start, s.end)),
{
    match search_root(content, at.to_point()) {
        Some(span) => Some(
            Range {
                start: CursorPosition::from_point(span.start_point),
                end: CursorPosition::from_point(span.end_point),
            },
        ),
        None => None,
    }
}

/// The tests under the node that the search starts from: those that the
/// matches of the test-function pattern stand for, on `row` where one is
/// given. None where the pattern cannot be run.
pub open spec fn tests_at(
    content: Seq<char>,
    filepath: Seq<char>,
    cursor: CursorPosition,
    row: Option<usize>,
) -> Seq<RunnableView> {
    match (
        capture_slot(TEST_FUNCTION_PATTERN@, TEST_NAME@),
        capture_slot(TEST_FUNCTION_PATTERN@, TEST_FUNCTION@),
        query_matches(content, TEST_FUNCTION_PATTERN@, cursor, origin(), far_end()),
    ) {
        (Some(name_slot), Some(func_slot), Some(matches)) => tests_in(
            matches,
            name_slot,
            func_slot,
            filepath,
            row,
        ),
        _ => Seq::empty(),
    }
}

/// The tests under the node that the search starts from.
pub fn find_tests(content: &str, filepath: &str, cursor: CursorPosition, row: Option<usize>) -> (found:
    Vec<Runnable>)
    ensures
        runnable_views(found@) == tests_at(content@, filepath@, cursor, row),
{
    let name_slot = capture_index(TEST_FUNCTION_PATTERN, TEST_NAME);
    let func_slot = capture_index(TEST_FUNCTION_PATTERN, TEST_FUNCTION);
    let matches = run_pattern(
        content,
        TEST_FUNCTION_PATTERN,
        cursor,
        origin_position(),
        far_end_position(),
    );
    if name_slot.is_some() && func_slot.is_some() && matches.is_some() {
        tests_from(&matches.unwrap(), name_slot.unwrap(), func_slot.unwrap(), filepath, row)
    } else {
        let found: Vec<Runnable> = Vec::new();
        assert(runnable_views(found@) =~= Seq::empty());
        found
    }
}

/// The subtests of `parent` that one pattern finds: those that its
/// matches within the span of `parent` stand for, named after the
/// capture `value_name`. None where the pattern cannot be run.
pub open spec fn idiom_subtests(
    content: Seq<char>,
    pattern: Seq<char>,
    value_name: Seq<char>,
    cursor: CursorPosition,
    parent: RunnableView,
    filter: Option<CursorPosition>,
) -> Seq<RunnableView> {
    match (
        capture_slot(pattern, CASE@),
        capture_slot(pattern, value_name),
        query_matches(content, pattern, cursor, parent.start, parent.end),
    ) {
        (Some(case_slot), Some(value_slot), Some(matches)) => subtests_in(
            matches,
            case_slot,
            value_slot,
            parent,
            filter,
        ),
        _ => Seq::empty(),
    }
}

/// The subtests of `parent` that one pattern finds.
pub fn find_idiom_subtests(
    content: &str,
    pattern: &str,
    value_name: &str,
    cursor: CursorPosition,
    parent: &Runnable,
    filter: Option<CursorPosition>,
) -> (found: Vec<Runnable>)
    ensures
        runnable_views(found@) == idiom_subtests(
            content@,
            pattern@,
            value_name@,
            cursor,
            parent@,
            filter,
        ),
{
    let case_slot = capture_index(pattern, CASE);
    let value_slot = capture_index(pattern, value_name);
    let matches = run_pattern(content, pattern, cursor, parent.range.start, parent.range.end);
    if case_slot.is_some() && value_slot.is_some() && matches.is_some() {
        subtests_from(&matches.unwrap(), case_slot.unwrap(), value_slot.unwrap(), parent, filter)
    } else {
        let found: Vec<Runnable> = Vec::new();
        assert(runnable_views(found@) =~= Seq::empty());
        found
    }
}

/// What the seven patterns find for `parent`, one pattern after the
/// other.
pub open spec fn gathered_subtests(
    content: Seq<char>,
    cursor: CursorPosition,
    parent: RunnableView,
    filter: Option<CursorPosition>,
) -> Seq<RunnableView> {
    idiom_subtests(content, STRING_LITERAL_PATTERN@, CASE_NAME_VALUE@, cursor, parent, filter)
        + idiom_subtests(
        content,
        IN_LOOP_NAMED_FIELDS_PATTERN@,
        CASE_FIELD_VALUE@,
        cursor,
        parent,
        filter,
    ) + idiom_subtests(
        content,
        IN_LOOP_UNNAMED_FIELDS_PATTERN@,
        CASE_FIELD_VALUE@,
        cursor,
        parent,
        filter,
    ) + idiom_subtests(
        content,
        IN_LOOP_TYPED_UNNAMED_FIELDS_PATTERN@,
        CASE_FIELD_VALUE@,
        cursor,
        parent,
        filter,
    ) + idiom_subtests(
        content,
        IN_LOOP_TYPED_NAMED_FIELDS_PATTERN@,
        CASE_FIELD_VALUE@,
        cursor,
        parent,
        filter,
    ) + idiom_subtests(
        content,
        OUT_OF_LOOP_NAMED_FIELDS_PATTERN@,
        CASE_FIELD_VALUE@,
        cursor,
        parent,
        filter,
    ) + idiom_subtests(
        content,
        OUT_OF_LOOP_UNNAMED_FIELDS_PATTERN@,
        CASE_FIELD_VALUE@,
        cursor,
        parent,
        filter,
    )
}

/// The subtests of `parent`: what the seven patterns find, one subtest
/// for each case. Where a case is found more than once, by two patterns
/// or for two of its strings, the first find stays.
pub open spec fn all_subtests(
    content: Seq<char>,
    cursor: CursorPosition,
    parent: RunnableView,
    filter: Option<CursorPosition>,
) -> Seq<RunnableView> {
    one_per_span(gathered_subtests(content, cursor, parent, filter))
}

/// Adds to `found` the subtests of `parent` that one pattern finds.
fn add_idiom(
    found: &mut Vec<Runnable>,
    content: &str,
    pattern: &str,
    value_name: &str,
    cursor: CursorPosition,
    parent: &Runnable,
    filter: Option<CursorPosition>,
)
    ensures
        runnable_views(final(found)@) == runnable_views(old(found)@) + idiom_subtests(
            content@,
            pattern@,
            value_name@,
            cursor,
            parent@,
            filter,
        ),
{
    let mut more = find_idiom_subtests(content, pattern, value_name, cursor, parent, filter);
    proof {
        lemma_runnable_views_add(found@, more@);
    }
    found.append(&mut more);
}

/// The subtests of `parent`, found by running all seven patterns within
/// its span, one for each case; with `filter`, only those with the
/// filter's row among their rows. `None` where no pattern finds one.
pub fn find_subtests(
    content: &str,
    cursor: CursorPosition,
    parent: &Runnable,
    filter: Option<CursorPosition>,
) -> (found: Option<Vec<Runnable>>)
    ensures
        found is Some == (all_subtests(content@, cursor, parent@, filter).len() > 0),
        found matches Some(subtests) ==> runnable_views(subtests@) == all_subtests(
            content@,
            cursor,
            parent@,
            filter,
        ),
{
    let mut found: Vec<Runnable> = Vec::new();
    assert(runnable_views(found@) =~= Seq::empty());
    add_idiom(
        &mut found,
        content,
        STRING_LITERAL_PATTERN,
        CASE_NAME_VALUE,
        cursor,
        parent,
        filter,
    );
    assert(runnable_views(found@) =~= idiom_subtests(
        content@,
        STRING_LITERAL_PATTERN@,
        CASE_NAME_VALUE@,
        cursor,
        parent@,
        filter,
    ));
    add_idiom(
        &mut found,
        content,
        IN_LOOP_NAMED_FIELDS_PATTERN,
        CASE_FIELD_VALUE,
        cursor,
        parent,
        filter,
    );
    add_idiom(
        &mut found,
        content,
        IN_LOOP_UNNAMED_FIELDS_PATTERN,
        CASE_FIELD_VALUE,
        cursor,
        parent,
        filter,
    );
    add_idiom(
        &mut found,
        content,
        IN_LOOP_TYPED_UNNAMED_FIELDS_PATTERN,
        CASE_FIELD_VALUE,
        cursor,
        parent,
        filter,
    );
    add_idiom(
        &mut found,
        content,
        IN_LOOP_TYPED_NAMED_FIELDS_PATTERN,
        CASE_FIELD_VALUE,
        cursor,
        parent,
        filter,
    );
    add_idiom(
        &mut found,
        content,
        OUT_OF_LOOP_NAMED_FIELDS_PATTERN,
        CASE_FIELD_VALUE,
        cursor,
        parent,
        filter,
    );
    add_idiom(
        &mut found,
        content,
        OUT_OF_LOOP_UNNAMED_FIELDS_PATTERN,
        CASE_FIELD_VALUE,
        cursor,
        parent,
        filter,
    );
    let kept = distinct_by_span(&found);
    if kept.len() == 0 {
        None
    } else {
        Some(kept)
    }
}

/// The first capture with the index `slot` among `matches`, match by
/// match.
pub open spec fn first_capture(matches: Seq<Seq<CaptureView>>, slot: u32) -> Option<CaptureView>
    decreases matches.len(),
{
    if matches.len() == 0 {
        None
    } else {
        match first_with(matches[0], slot) {
            Some(capture) => Some(capture),
            None => first_capture(matches.drop_first(), slot),
        }
    }
}

/// The groups of tags of a build comment: read in the old form where the
/// comment begins with `//+build`, else in the new form.
pub open spec fn comment_tags(comment: Seq<char>) -> Option<Seq<Seq<char>>> {
    if has_prefix(comment, legacy_marker()) {
        Some(legacy_groups(comment))
    } else {
        modern_groups(comment)
    }
}

/// The groups of tags that `matches` of the build-comment pattern stand
/// for: those of the first captured comment.
pub open spec fn tags_in(matches: Seq<Seq<CaptureView>>, slot: u32) -> Option<Seq<Seq<char>>> {
    match first_capture(matches, slot) {
        Some(comment) => comment_tags(comment.text),
        None => None,
    }
}

/// The groups of tags that `matches` of the build-comment pattern stand
/// for: those of the first capture `slot`, read in the old form where
/// it begins with `//+build`, else in the new form. `None` where nothing
/// was captured, or the comment is of neither form.
pub fn build_tags_from(matches: &Vec<Vec<Capture>>, slot: u32) -> (tags: Option<Vec<String>>)
    ensures
        tags is Some == tags_in(match_views(matches@), slot) is Some,
        tags matches Some(groups) ==> tags_in(match_views(matches@), slot) == Some(
            texts(groups@),
        ),
{
    let ghost all = match_views(matches@);
    let mut i: usize = 0;
    assert(all.skip(0) =~= all);
    while i < matches.len()
        invariant
            i <= matches.len(),
            all == match_views(matches@),
            first_capture(all, slot) == first_capture(all.skip(i as int), slot),
        decreases matches.len() - i,
    {
        proof {
            assert(all.skip(i as int)[0] == capture_views(matches@[i as int]@));
            assert(all.skip(i as int).drop_first() =~= all.skip(i + 1));
        }
        match find_capture(&matches[i], slot) {
            Some(at) => {
                let comment = matches[i][at].text.as_str();
                let cs = chars_of(comment);
                let marker = chars_of("//+build");
                if starts_with(&cs, &marker) {
                    return legacy_build_tags(comment);
                } else {
                    return modern_build_tags(comment);
                }
            },
            None => {},
        }
        i += 1;
    }
    None
}

/// The groups of tags that the source asks for: those of the first
/// comment of the file that stands before its package clause.
pub open spec fn file_build_tags(content: Seq<char>) -> Option<Seq<Seq<char>>> {
    match (
        capture_slot(BUILD_TAGS_PATTERN@, BUILD_TAGS@),
        query_matches(content, BUILD_TAGS_PATTERN@, far_end(), origin(), far_end()),
    ) {
        (Some(slot), Some(matches)) => tags_in(matches, slot),
        _ => None,
    }
}

/// The groups of tags that the source asks for; `None` where it has no
/// build comment before its package clause.
pub fn get_build_tags(content: &str) -> (tags: Option<Vec<String>>)
    ensures
        tags is Some == file_build_tags(content@) is Some,
        tags matches Some(groups) ==> file_build_tags(content@) == Some(texts(groups@)),
{
    let slot = capture_index(BUILD_TAGS_PATTERN, BUILD_TAGS);
    let matches = run_pattern(
        content,
        BUILD_TAGS_PATTERN,
        far_end_position(),
        origin_position(),
        far_end_position(),
    );
    if slot.is_some() && matches.is_some() {
        build_tags_from(&matches.unwrap(), slot.unwrap())
    } else {
        None
    }
}

/// `runnable` with the groups `tags` behind its own.
pub open spec fn with_tags(runnable: RunnableView, tags: Seq<Seq<char>>) -> RunnableView {
    RunnableView {
        meta: MetaView {
            package: runnable.meta.package,
            build_tags: runnable.meta.build_tags + tags,
        },
        ..runnable
    }
}

/// Each of `found` with the groups `tags` behind its own; `found` itself
/// where there are no tags.
pub open spec fn tagged(found: Seq<RunnableView>, tags: Option<Seq<Seq<char>>>) -> Seq<
    RunnableView,
> {
    match tags {
        Some(groups) => Seq::new(found.len(), |i: int| with_tags(found[i], groups)),
        None => found,
    }
}

/// Adds the groups `tags` to each of `found`.
pub fn attach_tags(found: Vec<Runnable>, tags: &Option<Vec<String>>) -> (out: Vec<Runnable>)
    ensures
        runnable_views(out@) == tagged(
            runnable_views(found@),
            match *tags {
                Some(groups) => Some(texts(groups@)),
                None => None,
            },
        ),
{
    match tags {
        None => found,
        Some(groups) => {
            let ghost all = runnable_views(found@);
            let ghost wanted = tagged(all, Some(texts(groups@)));
            let mut out: Vec<Runnable> = Vec::new();
            let mut i: usize = 0;
            assert(runnable_views(out@) =~= wanted.take(0));
            while i < found.len()
                invariant
                    i <= found.len(),
                    all == runnable_views(found@),
                    wanted == tagged(all, Some(texts(groups@))),
                    runnable_views(out@) == wanted.take(i as int),
                decreases found.len() - i,
            {
                let mut one = found[i].clone();
                one.meta.extend_build_tags(clone_strings(groups));
                proof {
                    assert(one@ == with_tags(all[i as int], texts(groups@)));
                    lemma_runnable_views_push(out@, one);
                    assert(wanted.take(i + 1) =~= wanted.take(i as int).push(one@));
                }
                out.push(one);
                i += 1;
            }
            assert(wanted.take(found.len() as int) =~= wanted);
            out
        },
    }
}

/// What stands for one test in a search of the whole file: its
/// subtests, or the test itself where it has none.
pub open spec fn unfolded(content: Seq<char>, cursor: CursorPosition, parent: RunnableView)
    -> Seq<RunnableView> {
    let subtests = all_subtests(content, cursor, parent, None);
    if subtests.len() > 0 {
        subtests
    } else {
        seq![parent]
    }
}

/// What stands for `parents`, test by test.
pub open spec fn expanded(content: Seq<char>, cursor: CursorPosition, parents: Seq<RunnableView>)
    -> Seq<RunnableView>
    decreases parents.len(),
{
    if parents.len() == 0 {
        Seq::empty()
    } else {
        expanded(content, cursor, parents.drop_last()) + unfolded(content, cursor, parents.last())
    }
}

/// What a search comes to.
pub enum SearchOutcome {
    /// These runnables, in order.
    Found(Seq<RunnableView>),
    /// The source has no syntax tree.
    NoTree,
    /// No test stands at the cursor.
    NoTestAtCursor,
    /// No test stands under the node that the search starts from.
    NoTestInFile,
}

/// The runnables before names are held apart and tags attached.
pub open spec fn candidates(
    mode: Search,
    content: Seq<char>,
    filepath: Seq<char>,
    cursor: CursorPosition,
    root_row: usize,
) -> Seq<RunnableView> {
    match mode {
        Search::File => expanded(content, cursor, tests_at(content, filepath, cursor, None)),
        Search::Method => {
            let here = tests_at(content, filepath, cursor, Some(root_row));
            if here.len() > 0 {
                seq![here[0]]
            } else {
                Seq::empty()
            }
        },
        Search::Nearest => {
            let here = tests_at(content, filepath, cursor, Some(root_row));
            if here.len() > 0 {
                let subtests = all_subtests(content, cursor, here[0], Some(cursor));
                if subtests.len() > 0 {
                    subtests
                } else {
                    seq![here[0]]
                }
            } else {
                Seq::empty()
            }
        },
    }
}

/// What the search in `content` with the cursor at `cursor` comes to.
///
/// The search starts from the node that the cursor resolves to. `File`
/// takes every test under it, and for each its subtests where it has
/// some. `Method` takes the first test under it whose name is on the
/// first row of that node. `Nearest` takes that test too, and gives its
/// subtests that have the cursor's row among their rows where there are
/// any. Of runnables with one name the first stays, and each gets the
/// build tags of the file.
pub open spec fn search(
    mode: Search,
    content: Seq<char>,
    filepath: Seq<char>,
    cursor: CursorPosition,
) -> SearchOutcome {
    match search_root_span(content, cursor) {
        None => SearchOutcome::NoTree,
        Some((start, _)) => {
            let found = candidates(mode, content, filepath, cursor, start.row);
            if found.len() > 0 {
                SearchOutcome::Found(tagged(distinct(found), file_build_tags(content)))
            } else if mode == Search::File {
                SearchOutcome::NoTestInFile
            } else {
                SearchOutcome::NoTestAtCursor
            }
        },
    }
}

/// What stands for `parents` in a search of the whole file.
pub fn expand(content: &str, cursor: CursorPosition, parents: &Vec<Runnable>) -> (found: Vec<
    Runnable,
>)
    ensures
        runnable_views(found@) == expanded(content@, cursor, runnable_views(parents@)),
{
    let ghost all = runnable_views(parents@);
    let mut found: Vec<Runnable> = Vec::new();
    let mut i: usize = 0;
    assert(all.take(0) =~= Seq::empty());
    assert(runnable_views(found@) =~= Seq::empty());
    while i < parents.len()
        invariant
            i <= parents.len(),
            all == runnable_views(parents@),
            runnable_views(found@) == expanded(content@, cursor, all.take(i as int)),
        decreases parents.len() - i,
    {
        proof {
            assert(all.take(i + 1).drop_last() =~= all.take(i as int));
            assert(all.take(i + 1).last() == parents@[i as int]@);
        }
        match find_subtests(content, cursor, &parents[i], None) {
            Some(subtests) => {
                let mut subtests = subtests;
                proof {
                    lemma_runnable_views_add(found@, subtests@);
                }
                found.append(&mut subtests);
            },
            None => {
                let parent = parents[i].clone();
                proof {
                    lemma_runnable_views_push(found@, parent);
                    assert(runnable_views(found@).push(parent@) =~= runnable_views(found@)
                        + seq![parent@]);
                }
                found.push(parent);
            },
        }
        i += 1;
    }
    assert(all.take(parents.len() as int) =~= all);
    found
}

/// The runnables of a search before names are held apart and tags
/// attached.
pub fn find_candidates(
    mode: Search,
    content: &str,
    filepath: &str,
    cursor: CursorPosition,
    root_row: usize,
) -> (found: Vec<Runnable>)
    ensures
        runnable_views(found@) == candidates(mode, content@, filepath@, cursor, root_row),
{
    match mode {
        Search::File => {
            let parents = find_tests(content, filepath, cursor, None);
            expand(content, cursor, &parents)
        },
        Search::Method => {
            let here = find_tests(content, filepath, cursor, Some(root_row));
            let mut found: Vec<Runnable> = Vec::new();
            if here.len() > 0 {
                let parent = here[0].clone();
                found.push(parent);
                assert(runnable_views(found@) =~= seq![runnable_views(here@)[0]]);
            } else {
                assert(runnable_views(found@) =~= Seq::empty());
            }
            found
        },
        Search::Nearest => {
            let here = find_tests(content, filepath, cursor, Some(root_row));
            let mut found: Vec<Runnable> = Vec::new();
            if here.len() > 0 {
                assert(runnable_views(here@)[0] == here@[0]@);
                match find_subtests(content, cursor, &here[0], Some(cursor)) {
                    Some(subtests) => {
                        return subtests;
                    },
                    None => {
                        let parent = here[0].clone();
                        found.push(parent);
                        assert(runnable_views(found@) =~= seq![runnable_views(here@)[0]]);
                    },
                }
            } else {
                assert(runnable_views(found@) =~= Seq::empty());
            }
            found
        },
    }
}

/// What `out` says, as a `SearchOutcome`; `None` for an error that no
/// search gives.
pub open spec fn outcome_of(out: Result<Vec<Runnable>, FrameworkError>) -> Option<SearchOutcome> {
    match out {
        Ok(found) => Some(SearchOutcome::Found(runnable_views(found@))),
        Err(FrameworkError::ParsingError(details)) => if details@
            == "failed to parse content to tree"@ {
            Some(SearchOutcome::NoTree)
        } else {
            None
        },
        Err(FrameworkError::NotFoundError(details)) => if details@
            == "Go Test Function not found at position"@ {
            Some(SearchOutcome::NoTestAtCursor)
        } else if details@ == "Go Test Function not found no tests in this file"@ {
            Some(SearchOutcome::NoTestInFile)
        } else {
            None
        },
        _ => None,
    }
}

/// The runnables of `content` for the cursor at `cursor`, as `mode` asks.
///
/// Fails with `ParsingError` where the source has no syntax tree, and
/// with `NotFoundError` where the search finds no test: at the cursor
/// for `Method` and `Nearest`, under the node that the search starts
/// from for `File`. Otherwise gives at least one runnable.
pub fn find_runnables(mode: Search, content: &str, filepath: &str, cursor: CursorPosition) -> (out:
    Result<Vec<Runnable>, FrameworkError>)
    ensures
        outcome_of(out) == Some(search(mode, content@, filepath@, cursor)),
{
    let root = match resolve(content, cursor) {
        Some(span) => span,
        None => {
            return Err(FrameworkError::ParsingError("failed to parse content to tree".to_owned()));
        },
    };
    let found = find_candidates(mode, content, filepath, cursor, root.start.row);
    if found.len() == 0 {
        proof {
            reveal_strlit("Go Test Function not found at position");
            reveal_strlit("Go Test Function not found no tests in this file");
            assert("Go Test Function not found at position"@.len() == 38);
            assert("Go Test Function not found no tests in this file"@.len() == 48);
            assert(runnable_views(found@).len() == 0);
        }
        return match mode {
            Search::File => Err(
                FrameworkError::NotFoundError(
                    "Go Test Function not found no tests in this file".to_owned(),
                ),
            ),
            _ => Err(
                FrameworkError::NotFoundError("Go Test Function not found at position".to_owned()),
            ),
        };
    }
    let kept = distinct_by_name(&found);
    let tags = get_build_tags(content);
    Ok(attach_tags(kept, &tags))
}

/// The first row of the node that the search with the cursor at `cursor`
/// starts from; zero where the source has no syntax tree.
pub open spec fn start_row(content: Seq<char>, cursor: CursorPosition) -> usize {
    match search_root_span(content, cursor) {
        Some((start, _)) => start.row,
        None => 0,
    }
}

/// With a cursor, one pattern finds at most as many subtests as without.
pub proof fn lemma_idiom_filter_gives_fewer(
    content: Seq<char>,
    pattern: Seq<char>,
    value_name: Seq<char>,
    cursor: CursorPosition,
    parent: RunnableView,
    filter: Option<CursorPosition>,
)
    ensures
        idiom_subtests(content, pattern, value_name, cursor, parent, filter).len()
            <= idiom_subtests(content, pattern, value_name, cursor, parent, None).len(),
{
    match (
        capture_slot(pattern, CASE@),
        capture_slot(pattern, value_name),
        query_matches(content, pattern, cursor, parent.start, parent.end),
    ) {
        (Some(case_slot), Some(value_slot), Some(matches)) => {
            lemma_filter_gives_fewer(matches, case_slot, value_slot, parent, filter);
        },
        _ => {},
    }
}

/// Where the patterns find nothing without a cursor, they find nothing
/// with one.
pub proof fn lemma_nothing_gathered_at_cursor(
    content: Seq<char>,
    cursor: CursorPosition,
    parent: RunnableView,
    filter: Option<CursorPosition>,
)
    requires
        gathered_subtests(content, cursor, parent, None).len() == 0,
    ensures
        gathered_subtests(content, cursor, parent, filter).len() == 0,
{
    lemma_idiom_filter_gives_fewer(
        content,
        STRING_LITERAL_PATTERN@,
        CASE_NAME_VALUE@,
        cursor,
        parent,
        filter,
    );
    lemma_idiom_filter_gives_fewer(
        content,
        IN_LOOP_NAMED_FIELDS_PATTERN@,
        CASE_FIELD_VALUE@,
        cursor,
        parent,
        filter,
    );
    lemma_idiom_filter_gives_fewer(
        content,
        IN_LOOP_UNNAMED_FIELDS_PATTERN@,
        CASE_FIELD_VALUE@,
        cursor,
        parent,
        filter,
    );
    lemma_idiom_filter_gives_fewer(
        content,
        IN_LOOP_TYPED_UNNAMED_FIELDS_PATTERN@,
        CASE_FIELD_VALUE@,
        cursor,
        parent,
        filter,
    );
    lemma_idiom_filter_gives_fewer(
        content,
        IN_LOOP_TYPED_NAMED_FIELDS_PATTERN@,
        CASE_FIELD_VALUE@,
        cursor,
        parent,
        filter,
    );
    lemma_idiom_filter_gives_fewer(
        content,
        OUT_OF_LOOP_NAMED_FIELDS_PATTERN@,
        CASE_FIELD_VALUE@,
        cursor,
        parent,
        filter,
    );
    lemma_idiom_filter_gives_fewer(
        content,
        OUT_OF_LOOP_UNNAMED_FIELDS_PATTERN@,
        CASE_FIELD_VALUE@,
        cursor,
        parent,
        filter,
    );
}

/// Where the node that the search starts from holds one test and no
/// more, the cursor stands in it and it has no subtests, the three
/// search modes give the same: that one test, with the build tags of the
/// file.
pub proof fn lemma_lone_test_in_every_mode(
    content: Seq<char>,
    filepath: Seq<char>,
    cursor: CursorPosition,
    test: RunnableView,
)
    requires
        search_root_span(content, cursor) is Some,
        tests_at(content, filepath, cursor, None) == seq![test],
        tests_at(content, filepath, cursor, Some(start_row(content, cursor))) == seq![test],
        all_subtests(content, cursor, test, None).len() == 0,
    ensures
        search(Search::File, content, filepath, cursor) == SearchOutcome::Found(
            tagged(seq![test], file_build_tags(content)),
        ),
        search(Search::Method, content, filepath, cursor) == search(
            Search::File,
            content,
            filepath,
            cursor,
        ),
        search(Search::Nearest, content, filepath, cursor) == search(
            Search::File,
            content,
            filepath,
            cursor,
        ),
{
    let row = start_row(content, cursor);
    lemma_no_subtests_at_cursor(content, cursor, test, Some(cursor));
    let one = seq![test];
    assert(one.drop_last() =~= Seq::<RunnableView>::empty());
    assert(expanded(content, cursor, one) =~= one) by {
        assert(expanded(content, cursor, one.drop_last()) =~= Seq::<RunnableView>::empty());
    }
    assert(distinct(one) =~= one) by {
        assert(distinct(one.drop_last()) =~= Seq::<RunnableView>::empty());
    }
    assert(candidates(Search::File, content, filepath, cursor, row) == one);
    assert(candidates(Search::Method, content, filepath, cursor, row) =~= one);
    assert(candidates(Search::Nearest, content, filepath, cursor, row) =~= one);
}

/// A search that is run twice on the same buffer gives the same twice:
/// two results that both are what `find_runnables` promises are both
/// failures of one kind, or hold the same runnables in the same order,
/// with equal names, places and metadata.
pub proof fn lemma_search_repeats(
    first: Result<Vec<Runnable>, FrameworkError>,
    second: Result<Vec<Runnable>, FrameworkError>,
    mode: Search,
    content: Seq<char>,
    filepath: Seq<char>,
    cursor: CursorPosition,
)
    requires
        outcome_of(first) == Some(search(mode, content, filepath, cursor)),
        outcome_of(second) == Some(search(mode, content, filepath, cursor)),
    ensures
        outcome_of(first) == outcome_of(second),
        first is Ok == second is Ok,
        first is Ok ==> runnable_views(first->Ok_0@) == runnable_views(second->Ok_0@),
{
}

/// Tags change no name.
pub proof fn lemma_tagged_keeps_names(found: Seq<RunnableView>, tags: Option<Seq<Seq<char>>>)
    ensures
        tagged(found, tags).len() == found.len(),
        forall|i: int|
            0 <= i < found.len() ==> (#[trigger] tagged(found, tags)[i]).name == found[i].name,
{
}

/// A search that finds something finds at least one runnable, and no two
/// of its runnables have the same name.
pub proof fn lemma_found_names_differ(
    mode: Search,
    content: Seq<char>,
    filepath: Seq<char>,
    cursor: CursorPosition,
)
    ensures
        search(mode, content, filepath, cursor) matches SearchOutcome::Found(found) ==> found.len()
            > 0 && names_differ(found),
{
    match search_root_span(content, cursor) {
        Some((start, _)) => {
            let raw = candidates(mode, content, filepath, cursor, start.row);
            lemma_distinct(raw);
            lemma_tagged_keeps_names(distinct(raw), file_build_tags(content));
        },
        None => {},
    }
}

/// Everything that the patterns find for a test is named after it.
pub proof fn lemma_gathered_named_after_parent(
    content: Seq<char>,
    cursor: CursorPosition,
    parent: RunnableView,
    filter: Option<CursorPosition>,
)
    ensures
        forall|i: int|
            0 <= i < gathered_subtests(content, cursor, parent, filter).len() ==> {
                let subtest = #[trigger] gathered_subtests(content, cursor, parent, filter)[i];
                &&& has_prefix(subtest.name, parent.name)
                &&& subtest.name.len() > parent.name.len()
                &&& subtest.filepath == parent.filepath
            },
{
    lemma_idiom_named_after_parent(
        content,
        STRING_LITERAL_PATTERN@,
        CASE_NAME_VALUE@,
        cursor,
        parent,
        filter,
    );
    lemma_idiom_named_after_parent(
        content,
        IN_LOOP_NAMED_FIELDS_PATTERN@,
        CASE_FIELD_VALUE@,
        cursor,
        parent,
        filter,
    );
    lemma_idiom_named_after_parent(
        content,
        IN_LOOP_UNNAMED_FIELDS_PATTERN@,
        CASE_FIELD_VALUE@,
        cursor,
        parent,
        filter,
    );
    lemma_idiom_named_after_parent(
        content,
        IN_LOOP_TYPED_UNNAMED_FIELDS_PATTERN@,
        CASE_FIELD_VALUE@,
        cursor,
        parent,
        filter,
    );
    lemma_idiom_named_after_parent(
        content,
        IN_LOOP_TYPED_NAMED_FIELDS_PATTERN@,
        CASE_FIELD_VALUE@,
        cursor,
        parent,
        filter,
    );
    lemma_idiom_named_after_parent(
        content,
        OUT_OF_LOOP_NAMED_FIELDS_PATTERN@,
        CASE_FIELD_VALUE@,
        cursor,
        parent,
        filter,
    );
    lemma_idiom_named_after_parent(
        content,
        OUT_OF_LOOP_UNNAMED_FIELDS_PATTERN@,
        CASE_FIELD_VALUE@,
        cursor,
        parent,
        filter,
    );
}

/// Whether `subtest` is named after `parent` and in its file.
pub open spec fn named_after(subtest: RunnableView, parent: RunnableView) -> bool {
    &&& has_prefix(subtest.name, parent.name)
    &&& subtest.name.len() > parent.name.len()
    &&& subtest.filepath == parent.filepath
}

/// Every subtest that one pattern finds is named after its test.
pub proof fn lemma_idiom_named_after_parent(
    content: Seq<char>,
    pattern: Seq<char>,
    value_name: Seq<char>,
    cursor: CursorPosition,
    parent: RunnableView,
    filter: Option<CursorPosition>,
)
    ensures
        forall|i: int|
            0 <= i < idiom_subtests(content, pattern, value_name, cursor, parent, filter).len()
                ==> named_after(
                #[trigger] idiom_subtests(content, pattern, value_name, cursor, parent, filter)[i],
                parent,
            ),
{
    match (
        capture_slot(pattern, CASE@),
        capture_slot(pattern, value_name),
        query_matches(content, pattern, cursor, parent.start, parent.end),
    ) {
        (Some(case_slot), Some(value_slot), Some(matches)) => {
            lemma_subtests_extend_parent(matches, case_slot, value_slot, parent, filter);
        },
        _ => {},
    }
}

/// Every subtest that one pattern finds for a cursor has the cursor's
/// row among its rows.
pub proof fn lemma_idiom_holds_cursor(
    content: Seq<char>,
    pattern: Seq<char>,
    value_name: Seq<char>,
    cursor: CursorPosition,
    parent: RunnableView,
    filter: CursorPosition,
)
    ensures
        forall|i: int|
            0 <= i < idiom_subtests(
                content,
                pattern,
                value_name,
                cursor,
                parent,
                Some(filter),
            ).len() ==> {
                let subtest = #[trigger] idiom_subtests(
                    content,
                    pattern,
                    value_name,
                    cursor,
                    parent,
                    Some(filter),
                )[i];
                filter.within_rows(subtest.start, subtest.end)
            },
{
    match (
        capture_slot(pattern, CASE@),
        capture_slot(pattern, value_name),
        query_matches(content, pattern, cursor, parent.start, parent.end),
    ) {
        (Some(case_slot), Some(value_slot), Some(matches)) => {
            lemma_subtests_hold_cursor(matches, case_slot, value_slot, parent, filter);
        },
        _ => {},
    }
}

/// Everything that the patterns find for a cursor has the cursor's row
/// among its rows.
pub proof fn lemma_gathered_hold_the_cursor(
    content: Seq<char>,
    cursor: CursorPosition,
    parent: RunnableView,
    filter: CursorPosition,
)
    ensures
        forall|i: int|
            0 <= i < gathered_subtests(content, cursor, parent, Some(filter)).len() ==> {
                let subtest = #[trigger] gathered_subtests(content, cursor, parent, Some(filter))[i];
                filter.within_rows(subtest.start, subtest.end)
            },
{
    lemma_idiom_holds_cursor(
        content,
        STRING_LITERAL_PATTERN@,
        CASE_NAME_VALUE@,
        cursor,
        parent,
        filter,
    );
    lemma_idiom_holds_cursor(
        content,
        IN_LOOP_NAMED_FIELDS_PATTERN@,
        CASE_FIELD_VALUE@,
        cursor,
        parent,
        filter,
    );
    lemma_idiom_holds_cursor(
        content,
        IN_LOOP_UNNAMED_FIELDS_PATTERN@,
        CASE_FIELD_VALUE@,
        cursor,
        parent,
        filter,
    );
    lemma_idiom_holds_cursor(
        content,
        IN_LOOP_TYPED_UNNAMED_FIELDS_PATTERN@,
        CASE_FIELD_VALUE@,
        cursor,
        parent,
        filter,
    );
    lemma_idiom_holds_cursor(
        content,
        IN_LOOP_TYPED_NAMED_FIELDS_PATTERN@,
        CASE_FIELD_VALUE@,
        cursor,
        parent,
        filter,
    );
    lemma_idiom_holds_cursor(
        content,
        OUT_OF_LOOP_NAMED_FIELDS_PATTERN@,
        CASE_FIELD_VALUE@,
        cursor,
        parent,
        filter,
    );
    lemma_idiom_holds_cursor(
        content,
        OUT_OF_LOOP_UNNAMED_FIELDS_PATTERN@,
        CASE_FIELD_VALUE@,
        cursor,
        parent,
        filter,
    );
}

/// A test without subtests has none at any cursor.
pub proof fn lemma_no_subtests_at_cursor(
    content: Seq<char>,
    cursor: CursorPosition,
    parent: RunnableView,
    filter: Option<CursorPosition>,
)
    requires
        all_subtests(content, cursor, parent, None).len() == 0,
    ensures
        all_subtests(content, cursor, parent, filter).len() == 0,
{
    lemma_one_per_span(gathered_subtests(content, cursor, parent, None));
    lemma_nothing_gathered_at_cursor(content, cursor, parent, filter);
    lemma_one_per_span(gathered_subtests(content, cursor, parent, filter));
}

/// Every subtest of a test is named after it: the name of the subtest
/// begins with the name of the test and is longer, and both are in one
/// file.
pub proof fn lemma_subtests_named_after_parent(
    content: Seq<char>,
    cursor: CursorPosition,
    parent: RunnableView,
    filter: Option<CursorPosition>,
)
    ensures
        forall|i: int|
            0 <= i < all_subtests(content, cursor, parent, filter).len() ==> named_after(
                #[trigger] all_subtests(content, cursor, parent, filter)[i],
                parent,
            ),
{
    let gathered = gathered_subtests(content, cursor, parent, filter);
    let all = all_subtests(content, cursor, parent, filter);
    lemma_gathered_named_after_parent(content, cursor, parent, filter);
    lemma_one_per_span(gathered);
    assert forall|i: int| 0 <= i < all.len() implies named_after(#[trigger] all[i], parent) by {
        let k = choose|k: int| 0 <= k < gathered.len() && gathered[k] == all[i];
        assert(named_after(gathered[k], parent));
    }
}

/// Every subtest found for a cursor has the cursor's row among its rows.
pub proof fn lemma_subtests_hold_the_cursor(
    content: Seq<char>,
    cursor: CursorPosition,
    parent: RunnableView,
    filter: CursorPosition,
)
    ensures
        forall|i: int|
            0 <= i < all_subtests(content, cursor, parent, Some(filter)).len() ==> {
                let subtest = #[trigger] all_subtests(content, cursor, parent, Some(filter))[i];
                filter.within_rows(subtest.start, subtest.end)
            },
{
    let gathered = gathered_subtests(content, cursor, parent, Some(filter));
    let all = all_subtests(content, cursor, parent, Some(filter));
    lemma_gathered_hold_the_cursor(content, cursor, parent, filter);
    lemma_one_per_span(gathered);
    assert forall|i: int| 0 <= i < all.len() implies filter.within_rows(
        (#[trigger] all[i]).start,
        all[i].end,
    ) by {
        let k = choose|k: int| 0 <= k < gathered.len() && gathered[k] == all[i];
        assert(filter.within_rows(gathered[k].start, gathered[k].end));
    }
}

/// No case is reported twice: no two subtests of a test have the same
/// span.
pub proof fn lemma_subtests_differ_in_span(
    content: Seq<char>,
    cursor: CursorPosition,
    parent: RunnableView,
    filter: Option<CursorPosition>,
)
    ensures
        spans_differ(all_subtests(content, cursor, parent, filter)),
{
    lemma_one_per_span(gathered_subtests(content, cursor, parent, filter));
}

/// A row only takes tests away: the tests on a row are at most as many
/// as the tests on any row, and each of them is one of those.
pub proof fn lemma_row_only_removes_tests(
    content: Seq<char>,
    filepath: Seq<char>,
    cursor: CursorPosition,
    row: usize,
)
    ensures
        tests_at(content, filepath, cursor, Some(row)).len() <= tests_at(
            content,
            filepath,
            cursor,
            None,
        ).len(),
        all_among(
            tests_at(content, filepath, cursor, Some(row)),
            tests_at(content, filepath, cursor, None),
        ),
{
    match (
        capture_slot(TEST_FUNCTION_PATTERN@, TEST_NAME@),
        capture_slot(TEST_FUNCTION_PATTERN@, TEST_FUNCTION@),
        query_matches(content, TEST_FUNCTION_PATTERN@, cursor, origin(), far_end()),
    ) {
        (Some(name_slot), Some(func_slot), Some(matches)) => {
            lemma_tests_in(matches, name_slot, func_slot, filepath, Some(row));
        },
        _ => {},
    }
}

/// The tests under a node are blank.
pub proof fn lemma_tests_at_blank(
    content: Seq<char>,
    filepath: Seq<char>,
    cursor: CursorPosition,
    row: Option<usize>,
)
    ensures
        all_blank(tests_at(content, filepath, cursor, row)),
{
    match (
        capture_slot(TEST_FUNCTION_PATTERN@, TEST_NAME@),
        capture_slot(TEST_FUNCTION_PATTERN@, TEST_FUNCTION@),
        query_matches(content, TEST_FUNCTION_PATTERN@, cursor, origin(), far_end()),
    ) {
        (Some(name_slot), Some(func_slot), Some(matches)) => {
            lemma_tests_in(matches, name_slot, func_slot, filepath, row);
        },
        _ => {},
    }
}

/// What one pattern finds is blank.
pub proof fn lemma_idiom_blank(
    content: Seq<char>,
    pattern: Seq<char>,
    value_name: Seq<char>,
    cursor: CursorPosition,
    parent: RunnableView,
    filter: Option<CursorPosition>,
)
    ensures
        all_blank(idiom_subtests(content, pattern, value_name, cursor, parent, filter)),
{
    match (
        capture_slot(pattern, CASE@),
        capture_slot(pattern, value_name),
        query_matches(content, pattern, cursor, parent.start, parent.end),
    ) {
        (Some(case_slot), Some(value_slot), Some(matches)) => {
            lemma_subtests_in_blank(matches, case_slot, value_slot, parent, filter);
        },
        _ => {},
    }
}

/// The subtests of a test are blank.
pub proof fn lemma_subtests_blank(
    content: Seq<char>,
    cursor: CursorPosition,
    parent: RunnableView,
    filter: Option<CursorPosition>,
)
    ensures
        all_blank(all_subtests(content, cursor, parent, filter)),
{
    lemma_idiom_blank(content, STRING_LITERAL_PATTERN@, CASE_NAME_VALUE@, cursor, parent, filter);
    lemma_idiom_blank(
        content,
        IN_LOOP_NAMED_FIELDS_PATTERN@,
        CASE_FIELD_VALUE@,
        cursor,
        parent,
        filter,
    );
    lemma_idiom_blank(
        content,
        IN_LOOP_UNNAMED_FIELDS_PATTERN@,
        CASE_FIELD_VALUE@,
        cursor,
        parent,
        filter,
    );
    lemma_idiom_blank(
        content,
        IN_LOOP_TYPED_UNNAMED_FIELDS_PATTERN@,
        CASE_FIELD_VALUE@,
        cursor,
        parent,
        filter,
    );
    lemma_idiom_blank(
        content,
        IN_LOOP_TYPED_NAMED_FIELDS_PATTERN@,
        CASE_FIELD_VALUE@,
        cursor,
        parent,
        filter,
    );
    lemma_idiom_blank(
        content,
        OUT_OF_LOOP_NAMED_FIELDS_PATTERN@,
        CASE_FIELD_VALUE@,
        cursor,
        parent,
        filter,
    );
    lemma_idiom_blank(
        content,
        OUT_OF_LOOP_UNNAMED_FIELDS_PATTERN@,
        CASE_FIELD_VALUE@,
        cursor,
        parent,
        filter,
    );
    let gathered = gathered_subtests(content, cursor, parent, filter);
    let all = all_subtests(content, cursor, parent, filter);
    assert(all_blank(gathered));
    lemma_one_per_span(gathered);
    assert forall|i: int| 0 <= i < all.len() implies (#[trigger] all[i]).meta == blank_meta() by {
        let k = choose|k: int| 0 <= k < gathered.len() && gathered[k] == all[i];
        assert(gathered[k].meta == blank_meta());
    }
}

/// What stands for blank tests is blank.
pub proof fn lemma_expanded_blank(
    content: Seq<char>,
    cursor: CursorPosition,
    parents: Seq<RunnableView>,
)
    requires
        all_blank(parents),
    ensures
        all_blank(expanded(content, cursor, parents)),
    decreases parents.len(),
{
    let all = expanded(content, cursor, parents);
    if parents.len() > 0 {
        let rest = parents.drop_last();
        assert(all_blank(rest)) by {
            assert forall|i: int| 0 <= i < rest.len() implies (#[trigger] rest[i]).meta
                == blank_meta() by {
                assert(rest[i] == parents[i]);
            }
        }
        lemma_expanded_blank(content, cursor, rest);
        lemma_subtests_blank(content, cursor, parents.last(), None);
        let before = expanded(content, cursor, rest);
        let last = unfolded(content, cursor, parents.last());
        assert(all_blank(last));
        assert forall|i: int| 0 <= i < all.len() implies (#[trigger] all[i]).meta
            == blank_meta() by {
            if i < before.len() {
                assert(all[i] == before[i]);
            } else {
                assert(all[i] == last[i - before.len()]);
            }
        }
    }
}

/// The groups of tags that every runnable of the source carries: those
/// of its build comment, none where it has no build comment.
pub open spec fn carried_tags(content: Seq<char>) -> Seq<Seq<char>> {
    match file_build_tags(content) {
        Some(groups) => groups,
        None => Seq::empty(),
    }
}

/// Every runnable that a search finds carries the groups of tags of the
/// file's build comment, no more and no fewer, and an empty package.
pub proof fn lemma_found_carry_file_tags(
    mode: Search,
    content: Seq<char>,
    filepath: Seq<char>,
    cursor: CursorPosition,
)
    ensures
        search(mode, content, filepath, cursor) matches SearchOutcome::Found(found) ==> forall|
            i: int,
        |
            0 <= i < found.len() ==> (#[trigger] found[i]).meta == (MetaView {
                package: Seq::empty(),
                build_tags: carried_tags(content),
            }),
{
    match search_root_span(content, cursor) {
        Some((start, _)) => {
            let raw = candidates(mode, content, filepath, cursor, start.row);
            let here = tests_at(content, filepath, cursor, Some(start.row));
            lemma_tests_at_blank(content, filepath, cursor, None);
            lemma_tests_at_blank(content, filepath, cursor, Some(start.row));
            lemma_expanded_blank(content, cursor, tests_at(content, filepath, cursor, None));
            if here.len() > 0 {
                lemma_subtests_blank(content, cursor, here[0], Some(cursor));
            }
            assert(all_blank(raw));
            lemma_distinct(raw);
            let kept = distinct(raw);
            assert forall|i: int| 0 <= i < kept.len() implies (#[trigger] kept[i]).meta
                == blank_meta() by {
                let k = choose|k: int| 0 <= k < raw.len() && raw[k] == kept[i];
                assert(raw[k].meta == blank_meta());
            }
            let found = tagged(kept, file_build_tags(content));
            assert forall|i: int| 0 <= i < found.len() implies (#[trigger] found[i]).meta == (
            MetaView { package: Seq::empty(), build_tags: carried_tags(content) }) by {
                assert(kept[i].meta == blank_meta());
                match file_build_tags(content) {
                    Some(groups) => {
                        assert(Seq::<Seq<char>>::empty() + groups =~= groups);
                    },
                    None => {},
                }
            }
        },
        None => {},
    }
}

/// A name counts on its first and on its last row, for the search too:
/// where one of the names that the test-function pattern captures holds
/// `Test`, stands in a match with a function declaration, and begins or
/// ends on the first row of the node that the search starts from, the
/// search for the test at the cursor finds one runnable.
pub proof fn lemma_method_finds_test_on_boundary_row(
    content: Seq<char>,
    filepath: Seq<char>,
    cursor: CursorPosition,
    matches: Seq<Seq<CaptureView>>,
    name_slot: u32,
    func_slot: u32,
    in_match: int,
    at: int,
)
    requires
        search_root_span(content, cursor) is Some,
        capture_slot(TEST_FUNCTION_PATTERN@, TEST_NAME@) == Some(name_slot),
        capture_slot(TEST_FUNCTION_PATTERN@, TEST_FUNCTION@) == Some(func_slot),
        query_matches(content, TEST_FUNCTION_PATTERN@, cursor, origin(), far_end()) == Some(
            matches,
        ),
        0 <= in_match < matches.len(),
        first_with(matches[in_match], func_slot) is Some,
        0 <= at < matches[in_match].len(),
        matches[in_match][at].index == name_slot,
        is_test_name(matches[in_match][at].text),
        matches[in_match][at].start.row <= matches[in_match][at].end.row,
        start_row(content, cursor) == matches[in_match][at].start.row || start_row(content, cursor)
            == matches[in_match][at].end.row,
    ensures
        search(Search::Method, content, filepath, cursor) matches SearchOutcome::Found(found)
            && found.len() == 1,
{
    let row = start_row(content, cursor);
    let captures = matches[in_match];
    let func = first_with(captures, func_slot)->0;
    lemma_name_counts_on_its_boundary_rows(captures, func, name_slot, filepath, at, row);
    lemma_tests_of_a_match_are_found(matches, name_slot, func_slot, filepath, Some(row), in_match);
    let one = tests_in_match(captures, name_slot, func_slot, filepath, Some(row));
    let wanted = test_of(captures[at], func, filepath);
    let k = choose|k: int| 0 <= k < one.len() && one[k] == wanted;
    let here = tests_at(content, filepath, cursor, Some(row));
    assert(here.contains(one[k]));
    assert(here.len() > 0);
    let raw = candidates(Search::Method, content, filepath, cursor, row);
    assert(raw =~= seq![here[0]]);
    assert(raw.drop_last() =~= Seq::<RunnableView>::empty());
    assert(distinct(raw) =~= raw) by {
        assert(distinct(raw.drop_last()) =~= Seq::<RunnableView>::empty());
    }
}

} // verus!
