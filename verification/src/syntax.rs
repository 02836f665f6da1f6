//! The Go grammar and the query engine of tree-sitter, as far as the
//! matchers need them: where a search starts, and which nodes a pattern
//! captures there.
//!
//! Three functions at the end of this file call tree-sitter, and
//! nothing is proved of them. Each takes plain values and gives plain
//! values back, and what it gives is a function of its arguments, so
//! each result has a name that the contracts elsewhere speak of. What a
//! name is on a given source is not stated anywhere.
//!
//! The engine checks the predicates `#eq?` of a pattern and passes over
//! those it does not know; so what the patterns cannot ask for, such as
//! a name that holds `Test`, is tested on the captures (see `matchers`).

use crate::types::CursorPosition;
use std::ops::Range;
use tree_sitter::{Parser, Point, Query, QueryCursor};
use vstd::prelude::*;

verus! {

/// `tree_sitter::Point`: a row and a column, both counted from zero.
#[verifier::external_type_specification]
pub struct ExPoint(tree_sitter::Point);

/// `tree_sitter::Range`: where a node starts and ends, in bytes and as
/// points.
#[verifier::external_type_specification]
pub struct ExRange(tree_sitter::Range);

impl CursorPosition {
    /// The place as a point of the syntax tree.
    pub fn to_point(&self) -> (point: Point)
        ensures
            point.row == self.row,
            point.column == self.col,
    {
        Point { row: self.row, column: self.col }
    }

    /// The place of a point of the syntax tree.
    pub fn from_point(point: Point) -> (position: CursorPosition)
        ensures
            position.row == point.row,
            position.col == point.column,
    {
        CursorPosition { row: point.row, col: point.column }
    }
}

/// The place of a point of the syntax tree.
pub open spec fn place(point: Point) -> CursorPosition {
    CursorPosition { row: point.row, col: point.column }
}

/// One node that a pattern has captured.
#[derive(Debug)]
pub struct Capture {
    /// Which capture of the pattern it is.
    pub index: u32,
    /// The source text of the node.
    pub text: String,
    /// Where the node starts and where it ends.
    pub range: Range<CursorPosition>,
}

/// A `Capture` over sequences of characters.
pub struct CaptureView {
    pub index: u32,
    pub text: Seq<char>,
    pub start: CursorPosition,
    pub end: CursorPosition,
}

impl View for Capture {
    type V = CaptureView;

    open spec fn view(&self) -> CaptureView {
        CaptureView {
            index: self.index,
            text: self.text@,
            start: self.range.start,
            end: self.range.end,
        }
    }
}

impl Capture {
    /// The capture `index` of a node with the source text `text` that
    /// spans `span`.
    pub fn new(index: u32, text: &str, span: tree_sitter::Range) -> (capture: Capture)
        ensures
            capture@ == (CaptureView {
                index,
                text: text@,
                start: place(span.start_point),
                end: place(span.end_point),
            }),
    {
        Capture {
            index,
            text: text.to_owned(),
            range: Range {
                start: CursorPosition::from_point(span.start_point),
                end: CursorPosition::from_point(span.end_point),
            },
        }
    }
}

/// The captures of one match of a pattern.
pub open spec fn capture_views(captures: Seq<Capture>) -> Seq<CaptureView> {
    Seq::new(captures.len(), |i: int| captures[i]@)
}

/// The matches of a pattern, each with its captures.
pub open spec fn match_views(matches: Seq<Vec<Capture>>) -> Seq<Seq<CaptureView>> {
    Seq::new(matches.len(), |i: int| capture_views(matches[i]@))
}

/// The two ends of a span, if there is one.
pub open spec fn span_ends(span: Option<tree_sitter::Range>) -> Option<
    (CursorPosition, CursorPosition),
> {
    match span {
        Some(s) => Some((place(s.start_point), place(s.end_point))),
        None => None,
    }
}

/// The matches of a run by their views, if there are any.
pub open spec fn found_views(found: Option<Vec<Vec<Capture>>>) -> Option<Seq<Seq<CaptureView>>> {
    match found {
        Some(matches) => Some(match_views(matches@)),
        None => None,
    }
}

/// The span of the node that a search in `content` with the cursor at
/// `at` starts from; `None` where the parser gives no tree.
pub uninterp spec fn search_root_span(content: Seq<char>, at: CursorPosition) -> Option<
    (CursorPosition, CursorPosition),
>;

/// The index that `pattern` gives to its capture `name`; `None` where the
/// pattern is no query of the Go grammar or has no such capture.
pub uninterp spec fn capture_slot(pattern: Seq<char>, name: Seq<char>) -> Option<u32>;

/// The matches of `pattern` under the node that a search in `content`
/// with the cursor at `at` starts from, among those that touch the span
/// from `from` to `to`, each match as the list of its captures; `None`
/// where the parser gives no tree or the pattern is no query of the Go
/// grammar.
pub uninterp spec fn query_matches(
    content: Seq<char>,
    pattern: Seq<char>,
    at: CursorPosition,
    from: CursorPosition,
    to: CursorPosition,
) -> Option<Seq<Seq<CaptureView>>>;

/// Parses `content` as Go with `tree_sitter::Parser::parse`, moves a
/// tree cursor from the root with
/// `tree_sitter::TreeCursor::goto_first_child_for_point` and gives the
/// span of the node it then stands on, the root where the cursor did
/// not move; `None` where the parser gives no tree. Claimed: the result
/// depends on `content` and `at` alone.
#[verifier::external_body]
pub(crate) fn search_root(content: &str, at: Point) -> (span: Option<tree_sitter::Range>)
    ensures
        span_ends(span) == search_root_span(content@, place(at)),
{
    let mut parser = Parser::new();
    parser.set_language(&tree_sitter_go::LANGUAGE.into()).ok()?;
    let tree = parser.parse(content, None)?;
    let mut walker = tree.walk();
    walker.goto_first_child_for_point(at);
    Some(walker.node().range())
}

/// Compiles `pattern` for the Go grammar with `tree_sitter::Query::new`
/// and asks `tree_sitter::Query::capture_index_for_name` for `name`.
/// Claimed: the result depends on `pattern` and `name` alone.
#[verifier::external_body]
pub(crate) fn capture_index(pattern: &str, name: &str) -> (index: Option<u32>)
    ensures
        index == capture_slot(pattern@, name@),
{
    let query = Query::new(&tree_sitter_go::LANGUAGE.into(), pattern).ok()?;
    query.capture_index_for_name(name)
}

/// Runs `pattern` with `tree_sitter::QueryCursor::matches` under the node
/// that `search_root` speaks of, the cursor limited to the span `within`
/// by `tree_sitter::QueryCursor::set_point_range`, and gives each match
/// as the list of its captures, in the order of
/// `tree_sitter::QueryMatch::captures`; `None` where the parser gives no
/// tree or `tree_sitter::Query::new` refuses the pattern. Claimed: the
/// result depends on the four arguments alone.
#[verifier::external_body]
pub(crate) fn matches_under(content: &str, pattern: &str, at: Point, within: Range<Point>) -> (found:
    Option<Vec<Vec<Capture>>>)
    ensures
        found_views(found) == query_matches(
            content@,
            pattern@,
            place(at),
            place(within.start),
            place(within.end),
        ),
{
    let mut parser = Parser::new();
    parser.set_language(&tree_sitter_go::LANGUAGE.into()).ok()?;
    let tree = parser.parse(content, None)?;
    let mut walker = tree.walk();
    walker.goto_first_child_for_point(at);
    let query = Query::new(&tree_sitter_go::LANGUAGE.into(), pattern).ok()?;
    let mut cursor = QueryCursor::new();
    cursor.set_point_range(within);
    let found = cursor.matches(&query, walker.node(), content.as_bytes());
    Some(found.map(|m| m.captures.iter().map(|c| Capture::new(c.index, c.node.utf8_text(content.as_bytes()).unwrap_or_default(), c.node.range())).collect()).collect())
}

} // verus!
