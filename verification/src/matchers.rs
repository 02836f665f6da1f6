//! From the captures of a pattern to runnables: the tests of a file, the
//! test around a cursor, and the subtests of a test.
//!
//! Every function here takes the matches as plain values and says
//! exactly what it returns for them.

use crate::metadata::{MetaView, RunnableMeta};
use crate::syntax::{capture_views, match_views, Capture, CaptureView};
use crate::text::{chars_of, contains, has_infix, remove_char, without};
use crate::types::{
    lemma_runnable_views_push, runnable_views, CursorPosition, Runnable, RunnableView,
};
use std::ops::Range;
use vstd::prelude::*;

verus! {

/// The first of `captures` with the index `slot`.
pub open spec fn first_with(captures: Seq<CaptureView>, slot: u32) -> Option<CaptureView>
    decreases captures.len(),
{
    if captures.len() == 0 {
        None
    } else if captures[0].index == slot {
        Some(captures[0])
    } else {
        first_with(captures.drop_first(), slot)
    }
}

/// The metadata of a runnable of which nothing is known yet.
pub open spec fn blank_meta() -> MetaView {
    MetaView { package: Seq::empty(), build_tags: Seq::empty() }
}

/// Whether `name` can be the name of a test function: it holds `Test`.
pub open spec fn is_test_name(name: Seq<char>) -> bool {
    has_infix(name, "Test"@)
}

/// Whether a node is on `row`, its first and last row counted in; on
/// every row where no row is asked for.
pub open spec fn on_row(node: CaptureView, row: Option<usize>) -> bool {
    match row {
        Some(r) => node.start.row <= r <= node.end.row,
        None => true,
    }
}

/// The test that the captured name `name` and the captured function
/// declaration `func` stand for: named by the text of the name, as wide
/// as the declaration.
pub open spec fn test_of(name: CaptureView, func: CaptureView, filepath: Seq<char>)
    -> RunnableView {
    RunnableView {
        name: name.text,
        filepath,
        start: func.start,
        end: func.end,
        meta: blank_meta(),
    }
}

/// The tests that the names among `captures` stand for, in order: one
/// for each capture `name_slot` whose text is a test's name and whose
/// node is on `row`.
pub open spec fn tests_among(
    captures: Seq<CaptureView>,
    func: CaptureView,
    name_slot: u32,
    filepath: Seq<char>,
    row: Option<usize>,
) -> Seq<RunnableView>
    decreases captures.len(),
{
    if captures.len() == 0 {
        Seq::empty()
    } else {
        let before = tests_among(captures.drop_last(), func, name_slot, filepath, row);
        let c = captures.last();
        if c.index == name_slot && is_test_name(c.text) && on_row(c, row) {
            before.push(test_of(c, func, filepath))
        } else {
            before
        }
    }
}

/// The tests of one match: none where the match captured no function
/// declaration.
pub open spec fn tests_in_match(
    captures: Seq<CaptureView>,
    name_slot: u32,
    func_slot: u32,
    filepath: Seq<char>,
    row: Option<usize>,
) -> Seq<RunnableView> {
    match first_with(captures, func_slot) {
        Some(func) => tests_among(captures, func, name_slot, filepath, row),
        None => Seq::empty(),
    }
}

/// The tests of all `matches`, in order.
pub open spec fn tests_in(
    matches: Seq<Seq<CaptureView>>,
    name_slot: u32,
    func_slot: u32,
    filepath: Seq<char>,
    row: Option<usize>,
) -> Seq<RunnableView>
    decreases matches.len(),
{
    if matches.len() == 0 {
        Seq::empty()
    } else {
        tests_in(matches.drop_last(), name_slot, func_slot, filepath, row) + tests_in_match(
            matches.last(),
            name_slot,
            func_slot,
            filepath,
            row,
        )
    }
}

/// The name of a subtest: that of its test, `/`, and the case's string
/// literal without its quotes.
pub open spec fn subtest_name(parent: Seq<char>, literal: Seq<char>) -> Seq<char> {
    parent + seq!['/'] + without(literal, '"')
}

/// The subtest of one match: named after the capture `value_slot`, as
/// wide as the capture `case_slot`. None where one of the two is
/// missing, or where a cursor is given and is not on a row of the case.
pub open spec fn subtest_of(
    captures: Seq<CaptureView>,
    case_slot: u32,
    value_slot: u32,
    parent: RunnableView,
    cursor: Option<CursorPosition>,
) -> Option<RunnableView> {
    match (first_with(captures, case_slot), first_with(captures, value_slot)) {
        (Some(case), Some(value)) => {
            if cursor is Some && !cursor->0.within_rows(case.start, case.end) {
                None
            } else {
                Some(
                    RunnableView {
                        name: subtest_name(parent.name, value.text),
                        filepath: parent.filepath,
                        start: case.start,
                        end: case.end,
                        meta: blank_meta(),
                    },
                )
            }
        },
        _ => None,
    }
}

/// The subtests of all `matches`, in order.
pub open spec fn subtests_in(
    matches: Seq<Seq<CaptureView>>,
    case_slot: u32,
    value_slot: u32,
    parent: RunnableView,
    cursor: Option<CursorPosition>,
) -> Seq<RunnableView>
    decreases matches.len(),
{
    if matches.len() == 0 {
        Seq::empty()
    } else {
        let before = subtests_in(matches.drop_last(), case_slot, value_slot, parent, cursor);
        match subtest_of(matches.last(), case_slot, value_slot, parent, cursor) {
            Some(subtest) => before.push(subtest),
            None => before,
        }
    }
}

/// The place in `captures` of the first one with the index `slot`.
pub fn find_capture(captures: &Vec<Capture>, slot: u32) -> (at: Option<usize>)
    ensures
        at is Some == first_with(capture_views(captures@), slot) is Some,
        at matches Some(i) ==> i < captures.len() && first_with(capture_views(captures@), slot)
            == Some(captures@[i as int]@),
{
    let ghost all = capture_views(captures@);
    let mut i: usize = 0;
    assert(all.skip(0) =~= all);
    while i < captures.len()
        invariant
            i <= captures.len(),
            all == capture_views(captures@),
            first_with(all, slot) == first_with(all.skip(i as int), slot),
        decreases captures.len() - i,
    {
        if captures[i].index == slot {
            return Some(i);
        }
        assert(all.skip(i as int).drop_first() =~= all.skip(i + 1));
        i += 1;
    }
    None
}

/// The tests of one match.
fn collect_tests_of_match(
    captures: &Vec<Capture>,
    name_slot: u32,
    func_slot: u32,
    filepath: &str,
    row: Option<usize>,
    found: &mut Vec<Runnable>,
)
    ensures
        runnable_views(final(found)@) == runnable_views(old(found)@) + tests_in_match(
            capture_views(captures@),
            name_slot,
            func_slot,
            filepath@,
            row,
        ),
{
    let ghost all = capture_views(captures@);
    let ghost start = runnable_views(found@);
    let func_at = match find_capture(captures, func_slot) {
        Some(i) => i,
        None => {
            assert(start + Seq::<RunnableView>::empty() =~= start);
            return ;
        },
    };
    let ghost func = captures@[func_at as int]@;
    let marker = chars_of("Test");
    let mut i: usize = 0;
    assert(all.take(0) =~= Seq::empty());
    assert(start + Seq::<RunnableView>::empty() =~= start);
    while i < captures.len()
        invariant
            i <= captures.len(),
            func_at < captures.len(),
            func == captures@[func_at as int]@,
            all == capture_views(captures@),
            marker@ == "Test"@,
            runnable_views(found@) == start + tests_among(
                all.take(i as int),
                func,
                name_slot,
                filepath@,
                row,
            ),
        decreases captures.len() - i,
    {
        let c = &captures[i];
        proof {
            assert(all.take(i + 1).drop_last() =~= all.take(i as int));
            assert(all.take(i + 1).last() == c@);
        }
        let on = match row {
            Some(r) => c.range.start.row <= r && r <= c.range.end.row,
            None => true,
        };
        if c.index == name_slot && on && contains(&chars_of(c.text.as_str()), &marker) {
            let func_range = &captures[func_at].range;
            let test = Runnable {
                name: c.text.clone(),
                filepath: filepath.to_owned(),
                range: Range { start: func_range.start, end: func_range.end },
                meta: RunnableMeta::default_golang(),
            };
            proof {
                assert(test@ == test_of(c@, func, filepath@));
                lemma_runnable_views_push(found@, test);
                let before = tests_among(all.take(i as int), func, name_slot, filepath@, row);
                assert((start + before).push(test@) =~= start + before.push(test@));
            }
            found.push(test);
        }
        i += 1;
    }
    assert(all.take(captures.len() as int) =~= all);
}

/// The tests that `matches` of the test-function pattern stand for, in
/// order: for each match that captured a function declaration
/// (`func_slot`), one test for each captured name (`name_slot`) that
/// holds `Test` and, where `row` is given, is on that row.
pub fn tests_from(
    matches: &Vec<Vec<Capture>>,
    name_slot: u32,
    func_slot: u32,
    filepath: &str,
    row: Option<usize>,
) -> (found: Vec<Runnable>)
    ensures
        runnable_views(found@) == tests_in(
            match_views(matches@),
            name_slot,
            func_slot,
            filepath@,
            row,
        ),
{
    let ghost all = match_views(matches@);
    let mut found: Vec<Runnable> = Vec::new();
    let mut i: usize = 0;
    assert(all.take(0) =~= Seq::empty());
    assert(runnable_views(found@) =~= Seq::empty());
    while i < matches.len()
        invariant
            i <= matches.len(),
            all == match_views(matches@),
            runnable_views(found@) == tests_in(
                all.take(i as int),
                name_slot,
                func_slot,
                filepath@,
                row,
            ),
        decreases matches.len() - i,
    {
        proof {
            assert(all.take(i + 1).drop_last() =~= all.take(i as int));
            assert(all.take(i + 1).last() == capture_views(matches@[i as int]@));
        }
        collect_tests_of_match(&matches[i], name_slot, func_slot, filepath, row, &mut found);
        i += 1;
    }
    assert(all.take(matches.len() as int) =~= all);
    found
}

/// The subtests that `matches` of a subtest pattern stand for under the
/// test `parent`, in order: for each match one subtest, named after the
/// capture `value_slot` and as wide as the capture `case_slot`; none for
/// a match that lacks one of the two, or whose case is not on the row of
/// `cursor` where one is given.
pub fn subtests_from(
    matches: &Vec<Vec<Capture>>,
    case_slot: u32,
    value_slot: u32,
    parent: &Runnable,
    cursor: Option<CursorPosition>,
) -> (found: Vec<Runnable>)
    ensures
        runnable_views(found@) == subtests_in(
            match_views(matches@),
            case_slot,
            value_slot,
            parent@,
            cursor,
        ),
{
    let ghost all = match_views(matches@);
    let mut found: Vec<Runnable> = Vec::new();
    let mut i: usize = 0;
    assert(all.take(0) =~= Seq::empty());
    assert(runnable_views(found@) =~= Seq::empty());
    while i < matches.len()
        invariant
            i <= matches.len(),
            all == match_views(matches@),
            runnable_views(found@) == subtests_in(
                all.take(i as int),
                case_slot,
                value_slot,
                parent@,
                cursor,
            ),
        decreases matches.len() - i,
    {
        let captures = &matches[i];
        proof {
            assert(all.take(i + 1).drop_last() =~= all.take(i as int));
            assert(all.take(i + 1).last() == capture_views(captures@));
        }
        let case_at = find_capture(captures, case_slot);
        let value_at = find_capture(captures, value_slot);
        if case_at.is_some() && value_at.is_some() {
            let case = &captures[case_at.unwrap()];
            let value = &captures[value_at.unwrap()];
            let inside = match cursor {
                Some(position) => position.in_range(&case.range),
                None => true,
            };
            if inside {
                let mut name = parent.name.clone();
                name.append("/");
                name.append(remove_char(value.text.as_str(), '"').as_str());
                let subtest = Runnable {
                    name,
                    filepath: parent.filepath.clone(),
                    range: Range { start: case.range.start, end: case.range.end },
                    meta: RunnableMeta::default_golang(),
                };
                proof {
                    reveal_strlit("/");
                    assert("/"@ =~= seq!['/']);
                    lemma_runnable_views_push(found@, subtest);
                }
                found.push(subtest);
            }
        }
        i += 1;
    }
    assert(all.take(matches.len() as int) =~= all);
    found
}

/// Whether one of `found` has the name `name`.
pub open spec fn has_name(found: Seq<RunnableView>, name: Seq<char>) -> bool {
    exists|i: int| 0 <= i < found.len() && #[trigger] found[i].name == name
}

/// `found` without the runnables whose name an earlier one has.
pub open spec fn distinct(found: Seq<RunnableView>) -> Seq<RunnableView>
    decreases found.len(),
{
    if found.len() == 0 {
        Seq::empty()
    } else {
        let before = distinct(found.drop_last());
        if has_name(before, found.last().name) {
            before
        } else {
            before.push(found.last())
        }
    }
}

/// Whether no two of `found` have the same name.
pub open spec fn names_differ(found: Seq<RunnableView>) -> bool {
    forall|i: int, j: int|
        0 <= i < j < found.len() ==> (#[trigger] found[i]).name != (#[trigger] found[j]).name
}

/// No name occurs twice in `distinct(found)`, every name of `found`
/// occurs in it, and it holds nothing but runnables of `found`.
pub proof fn lemma_distinct(found: Seq<RunnableView>)
    ensures
        names_differ(distinct(found)),
        distinct(found).len() <= found.len(),
        found.len() > 0 ==> distinct(found).len() > 0,
        forall|i: int| 0 <= i < found.len() ==> has_name(distinct(found), #[trigger] found[i].name),
        forall|i: int|
            0 <= i < distinct(found).len() ==> found.contains(#[trigger] distinct(found)[i]),
    decreases found.len(),
{
    if found.len() > 0 {
        let rest = found.drop_last();
        let before = distinct(rest);
        let last = found.last();
        lemma_distinct(rest);
        let after = distinct(found);
        assert forall|i: int| 0 <= i < found.len() implies has_name(
            after,
            #[trigger] found[i].name,
        ) by {
            if i < found.len() - 1 {
                assert(found[i] == rest[i]);
                let k = choose|k: int| 0 <= k < before.len() && before[k].name == rest[i].name;
                assert(after[k].name == found[i].name);
            } else if has_name(before, last.name) {
            } else {
                assert(after[after.len() - 1].name == last.name);
            }
        }
        assert forall|i: int| 0 <= i < after.len() implies found.contains(#[trigger] after[i]) by {
            if i < before.len() {
                assert(rest.contains(before[i]));
                let k = choose|k: int| 0 <= k < rest.len() && rest[k] == before[i];
                assert(found[k] == after[i]);
            } else {
                assert(found[found.len() - 1] == after[i]);
            }
        }
    }
}

/// Whether one of `found` has the name `name`.
pub fn holds_name(found: &Vec<Runnable>, name: &String) -> (held: bool)
    ensures
        held == has_name(runnable_views(found@), name@),
{
    let mut i: usize = 0;
    while i < found.len()
        invariant
            i <= found.len(),
            forall|k: int| 0 <= k < i ==> runnable_views(found@)[k].name != name@,
        decreases found.len() - i,
    {
        if found[i].name == *name {
            assert(runnable_views(found@)[i as int].name == name@);
            return true;
        }
        i += 1;
    }
    false
}

/// `found` without the runnables whose name an earlier one has.
pub fn distinct_by_name(found: &Vec<Runnable>) -> (kept: Vec<Runnable>)
    ensures
        runnable_views(kept@) == distinct(runnable_views(found@)),
{
    let ghost all = runnable_views(found@);
    let mut kept: Vec<Runnable> = Vec::new();
    let mut i: usize = 0;
    assert(all.take(0) =~= Seq::empty());
    assert(runnable_views(kept@) =~= Seq::empty());
    while i < found.len()
        invariant
            i <= found.len(),
            all == runnable_views(found@),
            runnable_views(kept@) == distinct(all.take(i as int)),
        decreases found.len() - i,
    {
        proof {
            assert(all.take(i + 1).drop_last() =~= all.take(i as int));
            assert(all.take(i + 1).last() == found@[i as int]@);
        }
        if !holds_name(&kept, &found[i].name) {
            let one = found[i].clone();
            proof {
                lemma_runnable_views_push(kept@, one);
            }
            kept.push(one);
        }
        i += 1;
    }
    assert(all.take(found.len() as int) =~= all);
    kept
}

/// The name of a subtest begins with the name of its test and is longer.
pub proof fn lemma_subtest_name_extends(parent: Seq<char>, literal: Seq<char>)
    ensures
        crate::text::has_prefix(subtest_name(parent, literal), parent),
        subtest_name(parent, literal).len() > parent.len(),
{
    let name = subtest_name(parent, literal);
    assert(name.take(parent.len() as int) =~= parent);
}

/// Every subtest that `subtests_in` gives is named after `parent`: its
/// name begins with the name of `parent` and is longer, and it is in the
/// file of `parent`.
pub proof fn lemma_subtests_extend_parent(
    matches: Seq<Seq<CaptureView>>,
    case_slot: u32,
    value_slot: u32,
    parent: RunnableView,
    cursor: Option<CursorPosition>,
)
    ensures
        forall|i: int|
            0 <= i < subtests_in(matches, case_slot, value_slot, parent, cursor).len() ==> {
                let subtest = #[trigger] subtests_in(
                    matches,
                    case_slot,
                    value_slot,
                    parent,
                    cursor,
                )[i];
                &&& crate::text::has_prefix(subtest.name, parent.name)
                &&& subtest.name.len() > parent.name.len()
                &&& subtest.filepath == parent.filepath
            },
    decreases matches.len(),
{
    let all = subtests_in(matches, case_slot, value_slot, parent, cursor);
    if matches.len() > 0 {
        let before = subtests_in(matches.drop_last(), case_slot, value_slot, parent, cursor);
        lemma_subtests_extend_parent(matches.drop_last(), case_slot, value_slot, parent, cursor);
        assert forall|i: int| 0 <= i < all.len() implies {
            let subtest = #[trigger] all[i];
            &&& crate::text::has_prefix(subtest.name, parent.name)
            &&& subtest.name.len() > parent.name.len()
            &&& subtest.filepath == parent.filepath
        } by {
            if i < before.len() {
                assert(all[i] == before[i]);
            } else {
                let value = first_with(matches.last(), value_slot)->0;
                lemma_subtest_name_extends(parent.name, value.text);
            }
        }
    }
}

/// A cursor takes subtests away and adds none: with one, `subtests_in`
/// gives at most as many as without.
pub proof fn lemma_filter_gives_fewer(
    matches: Seq<Seq<CaptureView>>,
    case_slot: u32,
    value_slot: u32,
    parent: RunnableView,
    cursor: Option<CursorPosition>,
)
    ensures
        subtests_in(matches, case_slot, value_slot, parent, cursor).len() <= subtests_in(
            matches,
            case_slot,
            value_slot,
            parent,
            None,
        ).len(),
    decreases matches.len(),
{
    if matches.len() > 0 {
        lemma_filter_gives_fewer(matches.drop_last(), case_slot, value_slot, parent, cursor);
    }
}

/// A case written as a string literal gives the subtest its text
/// between the quotes: where `body` holds no quote, the subtest of the
/// literal `"body"` under `parent` is named `parent/body`.
pub proof fn lemma_quotes_stripped(parent: Seq<char>, body: Seq<char>)
    requires
        !body.contains('"'),
    ensures
        subtest_name(parent, seq!['"'] + body + seq!['"']) == parent + seq!['/'] + body,
{
    let keep = crate::text::is_not('"');
    let quote = seq!['"'];
    let none = Seq::<char>::empty();
    assert(none.filter(keep) =~= none) by {
        reveal(Seq::filter);
    }
    none.lemma_filter_push('"', keep);
    assert(none.push('"') =~= quote);
    assert(body.filter(keep) == body) by {
        assert forall|i: int| 0 <= i < body.len() implies keep(#[trigger] body[i]) by {
            assert(body.contains(body[i]));
        }
        lemma_filter_keeps_all(body, keep);
    }
    Seq::filter_distributes_over_add(quote, body, keep);
    Seq::filter_distributes_over_add(quote + body, quote, keep);
    assert(without(quote + body + quote, '"') =~= body);
}

/// A filter keeps a sequence whose every element passes.
pub proof fn lemma_filter_keeps_all(s: Seq<char>, keep: spec_fn(char) -> bool)
    requires
        forall|i: int| 0 <= i < s.len() ==> keep(#[trigger] s[i]),
    ensures
        s.filter(keep) == s,
    decreases s.len(),
{
    reveal(Seq::filter);
    if s.len() > 0 {
        lemma_filter_keeps_all(s.drop_last(), keep);
        assert(s.drop_last().push(s.last()) =~= s);
    }
}

/// With a cursor, every subtest that `subtests_in` gives has the
/// cursor's row among its rows.
pub proof fn lemma_subtests_hold_cursor(
    matches: Seq<Seq<CaptureView>>,
    case_slot: u32,
    value_slot: u32,
    parent: RunnableView,
    cursor: CursorPosition,
)
    ensures
        forall|i: int|
            0 <= i < subtests_in(matches, case_slot, value_slot, parent, Some(cursor)).len() ==> {
                let subtest = #[trigger] subtests_in(
                    matches,
                    case_slot,
                    value_slot,
                    parent,
                    Some(cursor),
                )[i];
                cursor.within_rows(subtest.start, subtest.end)
            },
    decreases matches.len(),
{
    let all = subtests_in(matches, case_slot, value_slot, parent, Some(cursor));
    if matches.len() > 0 {
        let before = subtests_in(matches.drop_last(), case_slot, value_slot, parent, Some(cursor));
        lemma_subtests_hold_cursor(matches.drop_last(), case_slot, value_slot, parent, cursor);
        assert forall|i: int| 0 <= i < all.len() implies cursor.within_rows(
            (#[trigger] all[i]).start,
            all[i].end,
        ) by {
            if i < before.len() {
                assert(all[i] == before[i]);
            }
        }
    }
}

/// Whether nothing is known yet of any of `found` beyond its name and
/// place.
pub open spec fn all_blank(found: Seq<RunnableView>) -> bool {
    forall|i: int| 0 <= i < found.len() ==> (#[trigger] found[i]).meta == blank_meta()
}

/// Whether every one of `part` is one of `whole`.
pub open spec fn all_among(part: Seq<RunnableView>, whole: Seq<RunnableView>) -> bool {
    forall|i: int| 0 <= i < part.len() ==> whole.contains(#[trigger] part[i])
}

/// What is among the first of two sequences is among both together, and
/// so is what is among the second.
pub proof fn lemma_among_add(
    part: Seq<RunnableView>,
    more: Seq<RunnableView>,
    whole: Seq<RunnableView>,
    rest: Seq<RunnableView>,
)
    requires
        all_among(part, whole),
        all_among(more, rest),
    ensures
        all_among(part + more, whole + rest),
{
    assert forall|i: int| 0 <= i < (part + more).len() implies (whole + rest).contains(
        #[trigger] (part + more)[i],
    ) by {
        if i < part.len() {
            let k = choose|k: int| 0 <= k < whole.len() && whole[k] == part[i];
            assert((whole + rest)[k] == part[i]);
        } else {
            let k = choose|k: int| 0 <= k < rest.len() && rest[k] == more[i - part.len()];
            assert((whole + rest)[whole.len() + k] == more[i - part.len()]);
        }
    }
}

/// The tests of the names of one match are blank, and a row only takes
/// tests away: with a row there are at most as many as without, and
/// each is one of those without.
pub proof fn lemma_tests_among(
    captures: Seq<CaptureView>,
    func: CaptureView,
    name_slot: u32,
    filepath: Seq<char>,
    row: Option<usize>,
)
    ensures
        all_blank(tests_among(captures, func, name_slot, filepath, row)),
        tests_among(captures, func, name_slot, filepath, row).len() <= tests_among(
            captures,
            func,
            name_slot,
            filepath,
            None,
        ).len(),
        all_among(
            tests_among(captures, func, name_slot, filepath, row),
            tests_among(captures, func, name_slot, filepath, None),
        ),
    decreases captures.len(),
{
    let with = tests_among(captures, func, name_slot, filepath, row);
    let without = tests_among(captures, func, name_slot, filepath, None);
    if captures.len() > 0 {
        let rest = captures.drop_last();
        lemma_tests_among(rest, func, name_slot, filepath, row);
        let with_rest = tests_among(rest, func, name_slot, filepath, row);
        let without_rest = tests_among(rest, func, name_slot, filepath, None);
        assert forall|i: int| 0 <= i < with.len() implies (#[trigger] with[i]).meta
            == blank_meta() by {
            if i < with_rest.len() {
                assert(with[i] == with_rest[i]);
            }
        }
        assert forall|i: int| 0 <= i < with.len() implies without.contains(#[trigger] with[i]) by {
            if i < with_rest.len() {
                assert(with[i] == with_rest[i]);
                let k = choose|k: int| 0 <= k < without_rest.len() && without_rest[k] == with[i];
                assert(without[k] == with[i]);
            } else {
                assert(without[without.len() - 1] == with[i]);
            }
        }
    }
}

/// The tests of all matches are blank, and a row only takes tests away:
/// with a row there are at most as many as without, and each is one of
/// those without.
pub proof fn lemma_tests_in(
    matches: Seq<Seq<CaptureView>>,
    name_slot: u32,
    func_slot: u32,
    filepath: Seq<char>,
    row: Option<usize>,
)
    ensures
        all_blank(tests_in(matches, name_slot, func_slot, filepath, row)),
        tests_in(matches, name_slot, func_slot, filepath, row).len() <= tests_in(
            matches,
            name_slot,
            func_slot,
            filepath,
            None,
        ).len(),
        all_among(
            tests_in(matches, name_slot, func_slot, filepath, row),
            tests_in(matches, name_slot, func_slot, filepath, None),
        ),
    decreases matches.len(),
{
    let with = tests_in(matches, name_slot, func_slot, filepath, row);
    if matches.len() > 0 {
        let rest = matches.drop_last();
        lemma_tests_in(rest, name_slot, func_slot, filepath, row);
        let with_rest = tests_in(rest, name_slot, func_slot, filepath, row);
        let without_rest = tests_in(rest, name_slot, func_slot, filepath, None);
        let with_last = tests_in_match(matches.last(), name_slot, func_slot, filepath, row);
        let without_last = tests_in_match(matches.last(), name_slot, func_slot, filepath, None);
        match first_with(matches.last(), func_slot) {
            Some(func) => {
                lemma_tests_among(matches.last(), func, name_slot, filepath, row);
            },
            None => {},
        }
        assert forall|i: int| 0 <= i < with.len() implies (#[trigger] with[i]).meta
            == blank_meta() by {
            if i < with_rest.len() {
                assert(with[i] == with_rest[i]);
            } else {
                assert(with[i] == with_last[i - with_rest.len()]);
            }
        }
        lemma_among_add(with_rest, with_last, without_rest, without_last);
    }
}

/// A name counts on its first and on its last row: the test of a name
/// among `captures` is found for the row on which the name begins, and
/// for the row on which it ends.
pub proof fn lemma_name_counts_on_its_boundary_rows(
    captures: Seq<CaptureView>,
    func: CaptureView,
    name_slot: u32,
    filepath: Seq<char>,
    at: int,
    row: usize,
)
    requires
        0 <= at < captures.len(),
        captures[at].index == name_slot,
        is_test_name(captures[at].text),
        captures[at].start.row <= captures[at].end.row,
        row == captures[at].start.row || row == captures[at].end.row,
    ensures
        tests_among(captures, func, name_slot, filepath, Some(row)).contains(
            test_of(captures[at], func, filepath),
        ),
    decreases captures.len(),
{
    let found = tests_among(captures, func, name_slot, filepath, Some(row));
    let wanted = test_of(captures[at], func, filepath);
    if at == captures.len() - 1 {
        assert(found[found.len() - 1] == wanted);
    } else {
        let rest = captures.drop_last();
        assert(rest[at] == captures[at]);
        lemma_name_counts_on_its_boundary_rows(rest, func, name_slot, filepath, at, row);
        let before = tests_among(rest, func, name_slot, filepath, Some(row));
        let k = choose|k: int| 0 <= k < before.len() && before[k] == wanted;
        assert(found[k] == wanted);
    }
}

/// The tests of one match are among the tests of all matches.
pub proof fn lemma_tests_of_a_match_are_found(
    matches: Seq<Seq<CaptureView>>,
    name_slot: u32,
    func_slot: u32,
    filepath: Seq<char>,
    row: Option<usize>,
    at: int,
)
    requires
        0 <= at < matches.len(),
    ensures
        all_among(
            tests_in_match(matches[at], name_slot, func_slot, filepath, row),
            tests_in(matches, name_slot, func_slot, filepath, row),
        ),
    decreases matches.len(),
{
    let all = tests_in(matches, name_slot, func_slot, filepath, row);
    let one = tests_in_match(matches[at], name_slot, func_slot, filepath, row);
    let rest = matches.drop_last();
    let before = tests_in(rest, name_slot, func_slot, filepath, row);
    if at == matches.len() - 1 {
        assert forall|i: int| 0 <= i < one.len() implies all.contains(#[trigger] one[i]) by {
            assert(all[before.len() + i] == one[i]);
        }
    } else {
        assert(rest[at] == matches[at]);
        lemma_tests_of_a_match_are_found(rest, name_slot, func_slot, filepath, row, at);
        assert forall|i: int| 0 <= i < one.len() implies all.contains(#[trigger] one[i]) by {
            let k = choose|k: int| 0 <= k < before.len() && before[k] == one[i];
            assert(all[k] == one[i]);
        }
    }
}

/// A case counts on its first and on its last row: for a cursor on the
/// row on which the case begins, or on which it ends, the subtest of a
/// match is the one that is found without a cursor.
pub proof fn lemma_case_counts_on_its_boundary_rows(
    captures: Seq<CaptureView>,
    case_slot: u32,
    value_slot: u32,
    parent: RunnableView,
    cursor: CursorPosition,
)
    requires
        first_with(captures, case_slot) matches Some(case) && case.start.row <= case.end.row && (
        cursor.row == case.start.row || cursor.row == case.end.row),
    ensures
        subtest_of(captures, case_slot, value_slot, parent, Some(cursor)) == subtest_of(
            captures,
            case_slot,
            value_slot,
            parent,
            None,
        ),
{
}

/// The subtests of all matches are blank.
pub proof fn lemma_subtests_in_blank(
    matches: Seq<Seq<CaptureView>>,
    case_slot: u32,
    value_slot: u32,
    parent: RunnableView,
    cursor: Option<CursorPosition>,
)
    ensures
        all_blank(subtests_in(matches, case_slot, value_slot, parent, cursor)),
    decreases matches.len(),
{
    let all = subtests_in(matches, case_slot, value_slot, parent, cursor);
    if matches.len() > 0 {
        let before = subtests_in(matches.drop_last(), case_slot, value_slot, parent, cursor);
        lemma_subtests_in_blank(matches.drop_last(), case_slot, value_slot, parent, cursor);
        assert forall|i: int| 0 <= i < all.len() implies (#[trigger] all[i]).meta
            == blank_meta() by {
            if i < before.len() {
                assert(all[i] == before[i]);
            }
        }
    }
}

/// Whether one of `found` goes from `start` to `end`.
pub open spec fn has_span(found: Seq<RunnableView>, start: CursorPosition, end: CursorPosition)
    -> bool {
    exists|i: int|
        0 <= i < found.len() && (#[trigger] found[i]).start == start && found[i].end == end
}

/// `found` without the runnables whose span an earlier one has: of the
/// runnables that stand for one node the first stays.
pub open spec fn one_per_span(found: Seq<RunnableView>) -> Seq<RunnableView>
    decreases found.len(),
{
    if found.len() == 0 {
        Seq::empty()
    } else {
        let before = one_per_span(found.drop_last());
        if has_span(before, found.last().start, found.last().end) {
            before
        } else {
            before.push(found.last())
        }
    }
}

/// Whether no two of `found` have the same span.
pub open spec fn spans_differ(found: Seq<RunnableView>) -> bool {
    forall|i: int, j: int|
        0 <= i < j < found.len() ==> !((#[trigger] found[i]).start == (#[trigger] found[j]).start
            && found[i].end == found[j].end)
}

/// No span occurs twice in `one_per_span(found)`; it holds nothing but
/// runnables of `found`, and one at least where `found` holds one.
pub proof fn lemma_one_per_span(found: Seq<RunnableView>)
    ensures
        spans_differ(one_per_span(found)),
        one_per_span(found).len() <= found.len(),
        found.len() > 0 ==> one_per_span(found).len() > 0,
        all_among(one_per_span(found), found),
    decreases found.len(),
{
    if found.len() > 0 {
        let rest = found.drop_last();
        let before = one_per_span(rest);
        lemma_one_per_span(rest);
        let after = one_per_span(found);
        assert forall|i: int| 0 <= i < after.len() implies found.contains(#[trigger] after[i]) by {
            if i < before.len() {
                assert(rest.contains(before[i]));
                let k = choose|k: int| 0 <= k < rest.len() && rest[k] == before[i];
                assert(found[k] == after[i]);
            } else {
                assert(found[found.len() - 1] == after[i]);
            }
        }
    }
}

/// Whether one of `found` has the span `span`.
pub fn holds_span(found: &Vec<Runnable>, span: &Range<CursorPosition>) -> (held: bool)
    ensures
        held == has_span(runnable_views(found@), span.start, span.end),
{
    let mut i: usize = 0;
    while i < found.len()
        invariant
            i <= found.len(),
            forall|k: int|
                0 <= k < i ==> !(runnable_views(found@)[k].start == span.start && runnable_views(
                    found@,
                )[k].end == span.end),
        decreases found.len() - i,
    {
        let here = &found[i].range;
        if here.start.row == span.start.row && here.start.col == span.start.col && here.end.row
            == span.end.row && here.end.col == span.end.col {
            assert(runnable_views(found@)[i as int].start == span.start);
            assert(runnable_views(found@)[i as int].end == span.end);
            return true;
        }
        i += 1;
    }
    false
}

/// `found` without the runnables whose span an earlier one has.
pub fn distinct_by_span(found: &Vec<Runnable>) -> (kept: Vec<Runnable>)
    ensures
        runnable_views(kept@) == one_per_span(runnable_views(found@)),
{
    let ghost all = runnable_views(found@);
    let mut kept: Vec<Runnable> = Vec::new();
    let mut i: usize = 0;
    assert(all.take(0) =~= Seq::empty());
    assert(runnable_views(kept@) =~= Seq::empty());
    while i < found.len()
        invariant
            i <= found.len(),
            all == runnable_views(found@),
            runnable_views(kept@) == one_per_span(all.take(i as int)),
        decreases found.len() - i,
    {
        proof {
            assert(all.take(i + 1).drop_last() =~= all.take(i as int));
            assert(all.take(i + 1).last() == found@[i as int]@);
        }
        if !holds_span(&kept, &found[i].range) {
            let one = found[i].clone();
            proof {
                lemma_runnable_views_push(kept@, one);
            }
            kept.push(one);
        }
        i += 1;
    }
    assert(all.take(found.len() as int) =~= all);
    kept
}

} // verus!
