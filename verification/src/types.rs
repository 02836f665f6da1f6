//! The values that go into a search and come out of it.

use crate::enums::{Capability, Search};
use crate::metadata::{MetaView, RunnableMeta};
use std::ops::Range;
use vstd::prelude::*;

verus! {

/// A place in a source text: row and column, both counted from zero.
#[derive(Default, Copy, Clone, PartialEq, Eq, Structural, Debug)]
pub struct CursorPosition {
    pub row: usize,
    pub col: usize,
}

impl CursorPosition {
    /// The place at `row` and `col`.
    pub fn new(row: usize, col: usize) -> (position: CursorPosition)
        ensures
            position.row == row,
            position.col == col,
    {
        CursorPosition { row, col }
    }

    /// Whether the row of the place is one of the rows from that of
    /// `start` to that of `end`, both counted in. Columns do not count.
    pub open spec fn within_rows(self, start: CursorPosition, end: CursorPosition) -> bool {
        start.row <= self.row <= end.row
    }

    /// Whether the row of the place is one of the rows of `range`, the
    /// first and the last counted in.
    pub fn in_range(&self, range: &Range<CursorPosition>) -> (inside: bool)
        ensures
            inside == self.within_rows(range.start, range.end),
    {
        self.row >= range.start.row && self.row <= range.end.row
    }
}

/// A place is within the rows of a span that starts or ends on its row:
/// the first and the last row of a span belong to it.
pub proof fn lemma_boundary_rows_inside(
    cursor: CursorPosition,
    start: CursorPosition,
    end: CursorPosition,
)
    requires
        start.row <= end.row,
        cursor.row == start.row || cursor.row == end.row,
    ensures
        cursor.within_rows(start, end),
{
}

/// A test or a subtest that can be run.
#[derive(Debug)]
pub struct Runnable {
    /// The name, from the test down to the subtest, with `/` between.
    pub name: String,
    /// The file that holds it.
    pub filepath: String,
    /// From where to where its defining syntax node goes.
    pub range: Range<CursorPosition>,
    pub meta: RunnableMeta,
}

/// A `Runnable` over sequences of characters.
pub struct RunnableView {
    pub name: Seq<char>,
    pub filepath: Seq<char>,
    pub start: CursorPosition,
    pub end: CursorPosition,
    pub meta: MetaView,
}

impl View for Runnable {
    type V = RunnableView;

    open spec fn view(&self) -> RunnableView {
        RunnableView {
            name: self.name@,
            filepath: self.filepath@,
            start: self.range.start,
            end: self.range.end,
            meta: self.meta@,
        }
    }
}

impl Clone for Runnable {
    fn clone(&self) -> (out: Runnable)
        ensures
            out@ == self@,
    {
        Runnable {
            name: self.name.clone(),
            filepath: self.filepath.clone(),
            range: Range { start: self.range.start, end: self.range.end },
            meta: self.meta.clone(),
        }
    }
}

/// The views of a sequence of runnables.
pub open spec fn runnable_views(v: Seq<Runnable>) -> Seq<RunnableView> {
    Seq::new(v.len(), |i: int| v[i]@)
}

/// Pushing a runnable pushes its view.
pub proof fn lemma_runnable_views_push(v: Seq<Runnable>, r: Runnable)
    ensures
        runnable_views(v.push(r)) == runnable_views(v).push(r@),
{
    assert(runnable_views(v.push(r)) =~= runnable_views(v).push(r@));
}

/// The views of two sequences written one after the other.
pub proof fn lemma_runnable_views_add(a: Seq<Runnable>, b: Seq<Runnable>)
    ensures
        runnable_views(a + b) == runnable_views(a) + runnable_views(b),
{
    assert(runnable_views(a + b) =~= runnable_views(a) + runnable_views(b));
}

/// A source text with the file it came from and a cursor in it.
pub struct Buffer<'a> {
    pub content: &'a str,
    pub filepath: String,
    pub position: CursorPosition,
}

impl<'a> Buffer<'a> {
    /// The buffer of `content`, read from `filepath`, with the cursor at
    /// `position`.
    pub fn new(content: &'a str, filepath: String, position: CursorPosition) -> (buffer: Buffer<
        'a,
    >)
        ensures
            buffer.content == content,
            buffer.filepath == filepath,
            buffer.position == position,
    {
        Buffer { content, filepath, position }
    }
}

/// What a search is asked of: a buffer, the capability wanted and the
/// search mode.
pub struct Target<'a> {
    pub category: Capability,
    pub buffer: Buffer<'a>,
    pub search_strategy: Search,
}

impl<'a> Target<'a> {
    /// The target for `buffer` and `category`, searched for the nearest
    /// runnable.
    pub fn new(category: Capability, buffer: Buffer<'a>) -> (target: Target<'a>)
        ensures
            target.category == category,
            target.buffer == buffer,
            target.search_strategy == Search::Nearest,
    {
        Target { category, buffer, search_strategy: Search::Nearest }
    }

    /// Sets the search mode and nothing else.
    pub fn override_search_strategy(&mut self, search_strategy: Search)
        ensures
            final(self).search_strategy == search_strategy,
            final(self).category == old(self).category,
            final(self).buffer == old(self).buffer,
    {
        self.search_strategy = search_strategy;
    }
}

/// One search that a framework offers, and the words it is offered under.
#[derive(Debug)]
pub struct CapabilityDetails {
    pub capability: Capability,
    pub search: Search,
    pub description: String,
}

impl Clone for CapabilityDetails {
    fn clone(&self) -> (out: CapabilityDetails)
        ensures
            out.capability == self.capability,
            out.search == self.search,
            out.description@ == self.description@,
    {
        CapabilityDetails {
            capability: self.capability,
            search: self.search,
            description: self.description.clone(),
        }
    }
}

/// A program and the arguments to run it with.
#[derive(Debug)]
pub struct Command {
    pub command: String,
    pub args: Vec<String>,
}

} // verus!
