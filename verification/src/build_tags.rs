//! Go build constraints: from the text of a build comment to the groups
//! of tags that a compiler has to be given.
//!
//! A group is a string of tag names with one space between neighbours;
//! all the tags of a group have to be set together. A negated tag cannot
//! be asked for by a list of tags, so both parsers leave negated tags
//! out, and the parser of the new form leaves out all of a negated
//! group in parentheses.

use crate::text::{
    after_first, chars_of, fields, has_infix, is_space, is_space_char, join, join_with,
    lemma_texts_add, lemma_texts_push, occurs_at, piece, rest_after, same_chars, split, split_on,
    texts, words,
};
use vstd::prelude::*;

verus! {

/// The word that opens a build comment of the old form.
pub open spec fn legacy_marker() -> Seq<char> {
    "//+build"@
}

/// The text that opens a build comment of the new form.
pub open spec fn modern_marker() -> Seq<char> {
    "//go:build "@
}

/// A tag that is asked for: not empty and not negated.
pub open spec fn is_positive_tag(tag: Seq<char>) -> bool {
    tag.len() > 0 && tag[0] != '!'
}

/// The test `is_positive_tag`, as a value.
pub open spec fn positive_tags() -> spec_fn(Seq<char>) -> bool {
    |tag: Seq<char>| is_positive_tag(tag)
}

/// The test that a word is not the old form's marker, as a value.
pub open spec fn not_legacy_marker() -> spec_fn(Seq<char>) -> bool {
    |word: Seq<char>| word != legacy_marker()
}

/// The test that a group holds a tag, as a value.
pub open spec fn not_empty() -> spec_fn(Seq<char>) -> bool {
    |group: Seq<char>| group.len() > 0
}

/// The group that one word of an old-form comment stands for: its
/// comma-separated tags, the negated and the empty ones left out.
pub open spec fn legacy_group(word: Seq<char>) -> Seq<char> {
    join(split(word, ',').filter(positive_tags()), seq![' '])
}

/// `legacy_group`, as a value.
pub open spec fn legacy_group_fn() -> spec_fn(Seq<char>) -> Seq<char> {
    |word: Seq<char>| legacy_group(word)
}

/// The groups of an old-form build comment: one for each word but the
/// marker, in order, without the groups that hold no tag.
pub open spec fn legacy_groups(comment: Seq<char>) -> Seq<Seq<char>> {
    fields(comment).filter(not_legacy_marker()).map_values(legacy_group_fn()).filter(not_empty())
}

/// The tags of `parts` that are asked for.
fn keep_positive(parts: &Vec<String>) -> (kept: Vec<String>)
    ensures
        texts(kept@) == texts(parts@).filter(positive_tags()),
{
    let mut kept: Vec<String> = Vec::new();
    let mut i: usize = 0;
    proof {
        assert(texts(parts@).take(0) =~= Seq::empty());
        assert(texts(kept@) =~= Seq::empty());
        reveal(Seq::filter);
    }
    while i < parts.len()
        invariant
            i <= parts.len(),
            texts(kept@) == texts(parts@).take(i as int).filter(positive_tags()),
        decreases parts.len() - i,
    {
        let cs = chars_of(parts[i].as_str());
        proof {
            let before = texts(parts@).take(i as int);
            assert(texts(parts@).take(i + 1) =~= before.push(parts@[i as int]@));
            before.lemma_filter_push(parts@[i as int]@, positive_tags());
        }
        if cs.len() > 0 && cs[0] != '!' {
            let tag = parts[i].clone();
            proof {
                lemma_texts_push(kept@, tag);
            }
            kept.push(tag);
        }
        i += 1;
    }
    assert(texts(parts@).take(parts.len() as int) =~= texts(parts@));
    kept
}

/// The groups of tags of a build comment of the old form, `//+build`
/// followed by words. Does not fail.
pub fn legacy_build_tags(tags: &str) -> (out: Option<Vec<String>>)
    ensures
        out is Some,
        texts(out->0@) == legacy_groups(tags@),
{
    let all = words(tags);
    let marker = chars_of("//+build");
    let mut groups: Vec<String> = Vec::new();
    let mut i: usize = 0;
    let ghost ws = fields(tags@);
    proof {
        assert(ws.take(0) =~= Seq::empty());
        assert(texts(groups@) =~= Seq::empty());
        reveal(Seq::filter);
        assert(ws.take(0).filter(not_legacy_marker()).map_values(legacy_group_fn()) =~= Seq::empty());
    }
    while i < all.len()
        invariant
            i <= all.len(),
            ws == texts(all@),
            marker@ == legacy_marker(),
            texts(groups@) == ws.take(i as int).filter(not_legacy_marker()).map_values(
                legacy_group_fn(),
            ).filter(not_empty()),
        decreases all.len() - i,
    {
        let word = all[i].as_str();
        let cs = chars_of(word);
        let ghost before = ws.take(i as int);
        let ghost named = before.filter(not_legacy_marker());
        proof {
            assert(ws.take(i + 1) =~= before.push(word@));
            before.lemma_filter_push(word@, not_legacy_marker());
        }
        if !same_chars(&cs, &marker) {
            let parts = split_on(word, ',');
            let kept = keep_positive(&parts);
            let group = join_with(&kept, " ");
            proof {
                reveal_strlit(" ");
                assert(" "@ =~= seq![' ']);
                assert(group@ == legacy_group(word@));
                assert(named.push(word@).map_values(legacy_group_fn()) =~= named.map_values(
                    legacy_group_fn(),
                ).push(group@));
                named.map_values(legacy_group_fn()).lemma_filter_push(group@, not_empty());
            }
            if !group.as_str().is_empty() {
                proof {
                    lemma_texts_push(groups@, group);
                }
                groups.push(group);
            }
        }
        i += 1;
    }
    assert(ws.take(all.len() as int) =~= ws);
    Some(groups)
}

/// One word of a build expression of the new form.
pub enum Token {
    /// `!`: what comes next is negated.
    Not,
    /// `(`
    Open,
    /// `)`
    Close,
    /// `&&`
    And,
    /// `||`
    Or,
    /// A tag name.
    Atom(String),
}

/// A `Token`, with the name of a tag as a sequence of characters.
pub enum Lexeme {
    Not,
    Open,
    Close,
    And,
    Or,
    Atom(Seq<char>),
}

impl View for Token {
    type V = Lexeme;

    open spec fn view(&self) -> Lexeme {
        match self {
            Token::Not => Lexeme::Not,
            Token::Open => Lexeme::Open,
            Token::Close => Lexeme::Close,
            Token::And => Lexeme::And,
            Token::Or => Lexeme::Or,
            Token::Atom(name) => Lexeme::Atom(name@),
        }
    }
}

/// The views of a sequence of tokens.
pub open spec fn lexemes(tokens: Seq<Token>) -> Seq<Lexeme> {
    Seq::new(tokens.len(), |i: int| tokens[i]@)
}

/// Whether `s` begins with two `c`.
pub open spec fn doubled(s: Seq<char>, c: char) -> bool {
    s.len() >= 2 && s[0] == c && s[1] == c
}

/// Whether a tag name cannot go on into `s`: at the end, before white
/// space, and before an operator or a parenthesis.
pub open spec fn ends_atom(s: Seq<char>) -> bool {
    ||| s.len() == 0
    ||| is_space(s[0])
    ||| s[0] == '('
    ||| s[0] == ')'
    ||| s[0] == '!'
    ||| doubled(s, '&')
    ||| doubled(s, '|')
}

/// The length of the tag name that `s` begins with.
pub open spec fn atom_len(s: Seq<char>) -> nat
    decreases s.len(),
{
    if ends_atom(s) {
        0
    } else {
        1 + atom_len(s.drop_first())
    }
}

/// The words of a build expression: `!`, `(`, `)`, `&&` and `||` wherever
/// they stand, and between them and white space the tag names.
pub open spec fn tokens_of(s: Seq<char>) -> Seq<Lexeme>
    decreases s.len(),
{
    let n = atom_len(s) as int;
    if s.len() == 0 {
        Seq::empty()
    } else if s[0] == '(' {
        seq![Lexeme::Open] + tokens_of(s.drop_first())
    } else if s[0] == ')' {
        seq![Lexeme::Close] + tokens_of(s.drop_first())
    } else if s[0] == '!' {
        seq![Lexeme::Not] + tokens_of(s.drop_first())
    } else if doubled(s, '&') {
        seq![Lexeme::And] + tokens_of(s.skip(2))
    } else if doubled(s, '|') {
        seq![Lexeme::Or] + tokens_of(s.skip(2))
    } else if 0 < n <= s.len() {
        seq![Lexeme::Atom(s.take(n))] + tokens_of(s.skip(n))
    } else {
        tokens_of(s.drop_first())
    }
}

/// Where the reading of a build expression stands.
pub struct TagState {
    /// The groups that are settled.
    pub done: Seq<Seq<char>>,
    /// The alternatives of the expression being read that `||` has closed.
    pub closed: Seq<Seq<char>>,
    /// The group being read; empty where none has begun.
    pub open: Seq<char>,
    /// How many parentheses are open, those of a negated group not
    /// counted.
    pub depth: nat,
    /// How many parentheses of a negated group are open. While there is
    /// one, the words are passed over.
    pub skipped: nat,
    /// Whether a `!` waits for what it negates.
    pub negate: bool,
}

/// The state before the first word.
pub open spec fn initial_state() -> TagState {
    TagState {
        done: Seq::empty(),
        closed: Seq::empty(),
        open: Seq::empty(),
        depth: 0,
        skipped: 0,
        negate: false,
    }
}

/// `group` with one more tag.
pub open spec fn with_tag(group: Seq<char>, tag: Seq<char>) -> Seq<char> {
    if group.len() == 0 {
        tag
    } else {
        group + seq![' '] + tag
    }
}

/// The groups of `st` once what is being read is settled too.
pub open spec fn settled(st: TagState) -> Seq<Seq<char>> {
    if st.open.len() > 0 {
        (st.done + st.closed).push(st.open)
    } else {
        st.done + st.closed
    }
}

/// The state after one more word.
///
/// - `!` raises the negation.
/// - `(` opens a parenthesis. With the negation up it opens a negated
///   group: the negation is lowered, and all words up to the `)` that
///   closes the group are passed over, so that nothing in the group is
///   recorded.
/// - `)` closes a parenthesis, and when none is left open what was read
///   is settled.
/// - `&&` goes on with the group being read; where nothing is being
///   read it takes up the last settled group again.
/// - `||` closes the group being read as one alternative.
/// - A tag name joins the group being read, unless the negation is up:
///   then the name is dropped and the negation lowered.
pub open spec fn step(st: TagState, word: Lexeme) -> TagState {
    if st.skipped > 0 {
        match word {
            Lexeme::Open => TagState { skipped: st.skipped + 1, ..st },
            Lexeme::Close => TagState { skipped: (st.skipped - 1) as nat, ..st },
            _ => st,
        }
    } else {
        match word {
            Lexeme::Not => TagState { negate: true, ..st },
            Lexeme::Open => {
                if st.negate {
                    TagState { skipped: 1, negate: false, ..st }
                } else {
                    TagState { depth: st.depth + 1, ..st }
                }
            },
            Lexeme::Close => {
                let depth = if st.depth > 0 {
                    (st.depth - 1) as nat
                } else {
                    0
                };
                if depth > 0 {
                    TagState { depth, ..st }
                } else {
                    TagState {
                        done: settled(st),
                        closed: Seq::empty(),
                        open: Seq::empty(),
                        depth,
                        skipped: 0,
                        negate: false,
                    }
                }
            },
            Lexeme::And => {
                if st.closed.len() == 0 && st.open.len() == 0 && st.done.len() > 0 {
                    TagState { done: st.done.drop_last(), open: st.done.last(), ..st }
                } else {
                    st
                }
            },
            Lexeme::Or => {
                if st.open.len() > 0 {
                    TagState { closed: st.closed.push(st.open), open: Seq::empty(), ..st }
                } else {
                    st
                }
            },
            Lexeme::Atom(name) => {
                if st.negate {
                    TagState { negate: false, ..st }
                } else {
                    TagState { open: with_tag(st.open, name), ..st }
                }
            },
        }
    }
}

/// The state after all of `words`, read from the left, beginning in
/// the state `st`.
pub open spec fn run_from(st: TagState, words: Seq<Lexeme>) -> TagState
    decreases words.len(),
{
    if words.len() == 0 {
        st
    } else {
        step(run_from(st, words.drop_last()), words.last())
    }
}

/// The state after all of `words`, read from the left.
pub open spec fn run(words: Seq<Lexeme>) -> TagState {
    run_from(initial_state(), words)
}

/// The groups of a build expression.
pub open spec fn expression_groups(expr: Seq<char>) -> Seq<Seq<char>> {
    settled(run(tokens_of(expr)))
}

/// The groups of a build comment of the new form: those of the
/// expression that follows the first `//go:build `; `None` where the
/// comment does not hold that marker.
pub open spec fn modern_groups(comment: Seq<char>) -> Option<Seq<Seq<char>>> {
    match after_first(comment, modern_marker()) {
        Some(expr) => Some(expression_groups(expr)),
        None => None,
    }
}

/// Pushing a token pushes its view.
proof fn lemma_lexemes_push(tokens: Seq<Token>, token: Token)
    ensures
        lexemes(tokens.push(token)) == lexemes(tokens).push(token@),
{
    assert(lexemes(tokens.push(token)) =~= lexemes(tokens).push(token@));
}

/// Whether two `c` stand in `cs` at `at`.
fn doubled_here(cs: &Vec<char>, at: usize, c: char) -> (r: bool)
    requires
        at <= cs.len(),
    ensures
        r == doubled(cs@.skip(at as int), c),
{
    cs.len() - at >= 2 && cs[at] == c && cs[at + 1] == c
}

/// Whether a tag name cannot go on into `cs` at `at`.
fn ends_atom_here(cs: &Vec<char>, at: usize) -> (r: bool)
    requires
        at <= cs.len(),
    ensures
        r == ends_atom(cs@.skip(at as int)),
{
    if at >= cs.len() {
        return true;
    }
    let c = cs[at];
    is_space_char(c) || c == '(' || c == ')' || c == '!' || doubled_here(cs, at, '&')
        || doubled_here(cs, at, '|')
}

/// The words of a build expression.
pub fn tokenize(expr: &str) -> (out: Vec<Token>)
    ensures
        lexemes(out@) == tokens_of(expr@),
{
    let cs = chars_of(expr);
    let mut out: Vec<Token> = Vec::new();
    let mut pos: usize = 0;
    assert(cs@.skip(0) =~= cs@);
    assert(lexemes(out@) =~= Seq::empty());
    while pos < cs.len()
        invariant
            cs@ == expr@,
            pos <= cs.len(),
            lexemes(out@) + tokens_of(cs@.skip(pos as int)) == tokens_of(cs@),
        decreases cs.len() - pos,
    {
        let ghost rest = cs@.skip(pos as int);
        let ghost before = lexemes(out@);
        let c = cs[pos];
        assert(rest.drop_first() =~= cs@.skip(pos + 1));
        if c == '(' || c == ')' || c == '!' {
            let token = if c == '(' {
                Token::Open
            } else if c == ')' {
                Token::Close
            } else {
                Token::Not
            };
            proof {
                lemma_lexemes_push(out@, token);
                assert(before.push(token@) + tokens_of(cs@.skip(pos + 1)) =~= before + (
                seq![token@] + tokens_of(cs@.skip(pos + 1))));
            }
            out.push(token);
            pos += 1;
        } else if doubled_here(&cs, pos, '&') || doubled_here(&cs, pos, '|') {
            let token = if c == '&' {
                Token::And
            } else {
                Token::Or
            };
            proof {
                lemma_lexemes_push(out@, token);
                assert(rest.skip(2) =~= cs@.skip(pos + 2));
                assert(before.push(token@) + tokens_of(cs@.skip(pos + 2)) =~= before + (
                seq![token@] + tokens_of(cs@.skip(pos + 2))));
            }
            out.push(token);
            pos += 2;
        } else if is_space_char(c) {
            pos += 1;
        } else {
            let start: usize = pos;
            let mut end: usize = pos + 1;
            while !ends_atom_here(&cs, end)
                invariant
                    start < end <= cs.len(),
                    atom_len(cs@.skip(start as int)) == (end - start) + atom_len(
                        cs@.skip(end as int),
                    ),
                decreases cs.len() - end,
            {
                assert(cs@.skip(end as int).drop_first() =~= cs@.skip(end + 1));
                end += 1;
            }
            let token = Token::Atom(piece(expr, start, end));
            proof {
                assert(atom_len(rest) == end - start);
                assert(rest.take(end - start) =~= cs@.subrange(start as int, end as int));
                assert(rest.skip(end - start) =~= cs@.skip(end as int));
                lemma_lexemes_push(out@, token);
                assert(before.push(token@) + tokens_of(cs@.skip(end as int)) =~= before + (
                seq![token@] + tokens_of(cs@.skip(end as int))));
            }
            out.push(token);
            pos = end;
        }
    }
    assert(tokens_of(cs@.skip(pos as int)) =~= Seq::empty());
    assert(lexemes(out@) + Seq::<Lexeme>::empty() =~= lexemes(out@));
    out
}

/// Where the reading of a build expression stands, as it is computed.
pub struct TagReader {
    pub done: Vec<String>,
    pub closed: Vec<String>,
    pub open: String,
    pub depth: usize,
    pub skipped: usize,
    pub negate: bool,
}

impl View for TagReader {
    type V = TagState;

    open spec fn view(&self) -> TagState {
        TagState {
            done: texts(self.done@),
            closed: texts(self.closed@),
            open: self.open@,
            depth: self.depth as nat,
            skipped: self.skipped as nat,
            negate: self.negate,
        }
    }
}

impl TagReader {
    /// The state before the first word.
    pub fn new() -> (st: TagReader)
        ensures
            st@ == initial_state(),
    {
        let st = TagReader {
            done: Vec::new(),
            closed: Vec::new(),
            open: String::new(),
            depth: 0,
            skipped: 0,
            negate: false,
        };
        assert(texts(st.done@) =~= Seq::empty());
        assert(texts(st.closed@) =~= Seq::empty());
        st
    }

    /// The groups once what is being read is settled too.
    pub fn settle(self) -> (groups: Vec<String>)
        ensures
            texts(groups@) == settled(self@),
    {
        let TagReader { done, closed, open, depth: _, skipped: _, negate: _ } = self;
        let mut groups = done;
        let mut closed = closed;
        proof {
            lemma_texts_add(groups@, closed@);
        }
        groups.append(&mut closed);
        if !open.as_str().is_empty() {
            proof {
                lemma_texts_push(groups@, open);
            }
            groups.push(open);
        }
        groups
    }

    /// The state after one more word.
    pub fn advance(self, word: &Token) -> (next: TagReader)
        requires
            self.depth < usize::MAX,
            self.skipped < usize::MAX,
        ensures
            next@ == step(self@, word@),
    {
        let TagReader { done, closed, open, depth, skipped, negate } = self;
        if skipped > 0 {
            return match word {
                Token::Open => TagReader { done, closed, open, depth, skipped: skipped + 1, negate },
                Token::Close => TagReader {
                    done,
                    closed,
                    open,
                    depth,
                    skipped: skipped - 1,
                    negate,
                },
                _ => TagReader { done, closed, open, depth, skipped, negate },
            };
        }
        match word {
            Token::Not => TagReader { done, closed, open, depth, skipped, negate: true },
            Token::Open => {
                if negate {
                    TagReader { done, closed, open, depth, skipped: 1, negate: false }
                } else {
                    TagReader { done, closed, open, depth: depth + 1, skipped, negate }
                }
            },
            Token::Close => {
                let depth: usize = if depth > 0 {
                    depth - 1
                } else {
                    0
                };
                if depth > 0 {
                    TagReader { done, closed, open, depth, skipped, negate }
                } else {
                    let settled = TagReader { done, closed, open, depth, skipped, negate }.settle();
                    let next = TagReader {
                        done: settled,
                        closed: Vec::new(),
                        open: String::new(),
                        depth,
                        skipped: 0,
                        negate: false,
                    };
                    assert(texts(next.closed@) =~= Seq::empty());
                    next
                }
            },
            Token::And => {
                if closed.len() == 0 && open.as_str().is_empty() && done.len() > 0 {
                    let mut done = done;
                    let ghost all = done@;
                    let last = done.pop().unwrap();
                    proof {
                        assert(texts(done@) =~= texts(all).drop_last());
                        assert(last@ == texts(all).last());
                    }
                    TagReader { done, closed, open: last, depth, skipped, negate }
                } else {
                    TagReader { done, closed, open, depth, skipped, negate }
                }
            },
            Token::Or => {
                if !open.as_str().is_empty() {
                    let mut closed = closed;
                    proof {
                        lemma_texts_push(closed@, open);
                    }
                    closed.push(open);
                    TagReader { done, closed, open: String::new(), depth, skipped, negate }
                } else {
                    TagReader { done, closed, open, depth, skipped, negate }
                }
            },
            Token::Atom(name) => {
                if negate {
                    TagReader { done, closed, open, depth, skipped, negate: false }
                } else if open.as_str().is_empty() {
                    TagReader { done, closed, open: name.clone(), depth, skipped, negate }
                } else {
                    let mut open = open;
                    proof {
                        reveal_strlit(" ");
                        assert(" "@ =~= seq![' ']);
                    }
                    open.append(" ");
                    open.append(name.as_str());
                    TagReader { done, closed, open, depth, skipped, negate }
                }
            },
        }
    }
}

/// No more parentheses are open than words were read.
pub proof fn lemma_depth_bound(words: Seq<Lexeme>)
    ensures
        run(words).depth <= words.len(),
        run(words).skipped <= words.len(),
    decreases words.len(),
{
    if words.len() > 0 {
        lemma_depth_bound(words.drop_last());
    }
}

/// The groups of a build expression.
pub fn read_expression(expr: &str) -> (groups: Vec<String>)
    ensures
        texts(groups@) == expression_groups(expr@),
{
    let tokens = tokenize(expr);
    let ghost words = lexemes(tokens@);
    let mut st = TagReader::new();
    let mut read: usize = 0;
    assert(words.take(0) =~= Seq::empty());
    while read < tokens.len()
        invariant
            read <= tokens.len(),
            words == lexemes(tokens@),
            st@ == run(words.take(read as int)),
        decreases tokens.len() - read,
    {
        proof {
            lemma_depth_bound(words.take(read as int));
            assert(words.take(read + 1).drop_last() =~= words.take(read as int));
            assert(words.take(read + 1).last() == tokens@[read as int]@);
        }
        st = st.advance(&tokens[read]);
        read += 1;
    }
    assert(words.take(tokens.len() as int) =~= words);
    st.settle()
}

/// The groups of tags of a build comment of the new form: those of the
/// expression behind the first `//go:build `. `None` where the comment
/// does not hold that marker.
pub fn modern_build_tags(tags: &str) -> (out: Option<Vec<String>>)
    ensures
        out is Some == modern_groups(tags@) is Some,
        out matches Some(groups) ==> modern_groups(tags@) == Some(texts(groups@)),
{
    match rest_after(tags, "//go:build ") {
        Some(expr) => Some(read_expression(expr.as_str())),
        None => None,
    }
}

/// No group of an old-form build comment is empty.
pub proof fn lemma_legacy_groups_hold_tags(comment: Seq<char>)
    ensures
        forall|i: int|
            0 <= i < legacy_groups(comment).len() ==> (#[trigger] legacy_groups(comment)[i]).len()
                > 0,
{
    let before = fields(comment).filter(not_legacy_marker()).map_values(legacy_group_fn());
    assert forall|i: int| 0 <= i < legacy_groups(comment).len() implies (#[trigger] legacy_groups(
        comment,
    )[i]).len() > 0 by {
        before.lemma_filter_pred(not_empty(), i);
    }
}

/// Whether no group of `groups` is empty.
pub open spec fn all_hold_tags(groups: Seq<Seq<char>>) -> bool {
    forall|i: int| 0 <= i < groups.len() ==> (#[trigger] groups[i]).len() > 0
}

/// Whether every tag name among `words` holds a character.
pub open spec fn atoms_not_empty(words: Seq<Lexeme>) -> bool {
    forall|i: int|
        0 <= i < words.len() ==> match #[trigger] words[i] {
            Lexeme::Atom(name) => name.len() > 0,
            _ => true,
        }
}

/// The words of a build expression hold no empty tag name.
pub proof fn lemma_tokens_hold_names(s: Seq<char>)
    ensures
        atoms_not_empty(tokens_of(s)),
    decreases s.len(),
{
    let n = atom_len(s) as int;
    if s.len() == 0 {
    } else if s[0] == '(' || s[0] == ')' || s[0] == '!' {
        lemma_tokens_hold_names(s.drop_first());
    } else if doubled(s, '&') || doubled(s, '|') {
        lemma_tokens_hold_names(s.skip(2));
    } else if 0 < n <= s.len() {
        lemma_tokens_hold_names(s.skip(n));
    } else {
        lemma_tokens_hold_names(s.drop_first());
    }
}

/// While tag names are not empty, no settled and no closed group is.
pub proof fn lemma_run_keeps_groups_full(words: Seq<Lexeme>)
    requires
        atoms_not_empty(words),
    ensures
        all_hold_tags(run(words).done),
        all_hold_tags(run(words).closed),
    decreases words.len(),
{
    if words.len() > 0 {
        let before = run(words.drop_last());
        assert(atoms_not_empty(words.drop_last())) by {
            assert forall|i: int| 0 <= i < words.drop_last().len() implies match #[trigger] words.drop_last()[i] {
                Lexeme::Atom(name) => name.len() > 0,
                _ => true,
            } by {
                assert(words.drop_last()[i] == words[i]);
            }
        }
        lemma_run_keeps_groups_full(words.drop_last());
        let after = step(before, words.last());
        match words.last() {
            Lexeme::Close => {
                assert(all_hold_tags(settled(before)));
            },
            Lexeme::And => {
                if before.closed.len() == 0 && before.open.len() == 0 && before.done.len() > 0 {
                    assert forall|i: int| 0 <= i < after.done.len() implies (#[trigger] after.done[i]).len() > 0 by {
                        assert(after.done[i] == before.done[i]);
                    }
                }
            },
            _ => {},
        }
    }
}

/// No group of a build expression is empty.
pub proof fn lemma_expression_groups_hold_tags(expr: Seq<char>)
    ensures
        all_hold_tags(expression_groups(expr)),
{
    lemma_tokens_hold_names(expr);
    lemma_run_keeps_groups_full(tokens_of(expr));
}

/// Reading two sequences of words one after the other is reading the
/// second from where the first ended.
pub proof fn lemma_run_from_add(st: TagState, first: Seq<Lexeme>, second: Seq<Lexeme>)
    ensures
        run_from(st, first + second) == run_from(run_from(st, first), second),
    decreases second.len(),
{
    if second.len() == 0 {
        assert(first + second =~= first);
    } else {
        lemma_run_from_add(st, first, second.drop_last());
        assert((first + second).drop_last() =~= first + second.drop_last());
        assert((first + second).last() == second.last());
    }
}

/// Reading one word is one step.
pub proof fn lemma_run_from_one(st: TagState, word: Lexeme)
    ensures
        run_from(st, seq![word]) == step(st, word),
{
    let one = seq![word];
    assert(one.drop_last() =~= Seq::<Lexeme>::empty());
    assert(run_from(st, one.drop_last()) == st);
    assert(one.last() == word);
}

/// How many more `(` than `)` there are among `words`.
pub open spec fn paren_level(words: Seq<Lexeme>) -> int
    decreases words.len(),
{
    if words.len() == 0 {
        0
    } else {
        paren_level(words.drop_last()) + match words.last() {
            Lexeme::Open => 1int,
            Lexeme::Close => -1int,
            _ => 0int,
        }
    }
}

/// Whether the parentheses among `words` match: none is closed before
/// it is opened, and none stays open.
pub open spec fn well_nested(words: Seq<Lexeme>) -> bool {
    &&& paren_level(words) == 0
    &&& forall|k: int| 0 <= k <= words.len() ==> paren_level(#[trigger] words.take(k)) >= 0
}

/// While a negated group is open, words change nothing but the count of
/// its parentheses.
pub proof fn lemma_skipped_words_leave_no_trace(st: TagState, inside: Seq<Lexeme>)
    requires
        st.skipped >= 1,
        forall|k: int|
            0 <= k <= inside.len() ==> st.skipped + paren_level(#[trigger] inside.take(k)) >= 1,
    ensures
        run_from(st, inside) == (TagState {
            skipped: (st.skipped + paren_level(inside)) as nat,
            ..st
        }),
    decreases inside.len(),
{
    assert(inside.take(inside.len() as int) =~= inside);
    if inside.len() > 0 {
        let rest = inside.drop_last();
        assert(rest =~= inside.take(inside.len() - 1));
        assert forall|k: int| 0 <= k <= rest.len() implies st.skipped + paren_level(
            #[trigger] rest.take(k),
        ) >= 1 by {
            assert(rest.take(k) =~= inside.take(k));
        }
        lemma_skipped_words_leave_no_trace(st, rest);
    }
}

/// A negated group leaves no trace: after `!`, `(`, any words with
/// matching parentheses and `)`, the reading stands where it stood
/// before the `!`, with the negation lowered. So no tag of a negated
/// group is in any group, and what was read before it is kept.
pub proof fn lemma_negated_group_leaves_no_trace(before: Seq<Lexeme>, inside: Seq<Lexeme>)
    requires
        run(before).skipped == 0,
        well_nested(inside),
    ensures
        run(before + seq![Lexeme::Not, Lexeme::Open] + inside + seq![Lexeme::Close]) == (TagState {
            negate: false,
            ..run(before)
        }),
{
    let st = run(before);
    let opening = seq![Lexeme::Not, Lexeme::Open];
    let closing = seq![Lexeme::Close];
    let start = initial_state();
    assert(opening.drop_last() =~= seq![Lexeme::Not]);
    lemma_run_from_one(st, Lexeme::Not);
    let entered = run_from(st, opening);
    assert(entered == (TagState { skipped: 1, negate: false, ..st }));
    lemma_skipped_words_leave_no_trace(entered, inside);
    let passed = run_from(entered, inside);
    lemma_run_from_one(passed, Lexeme::Close);
    lemma_run_from_add(start, before, opening);
    lemma_run_from_add(start, before + opening, inside);
    lemma_run_from_add(start, before + opening + inside, closing);
}

/// An expression that is one negated group gives no group.
pub proof fn lemma_negated_group_gives_no_group(inside: Seq<Lexeme>)
    requires
        well_nested(inside),
    ensures
        settled(
            run(seq![Lexeme::Not, Lexeme::Open] + inside + seq![Lexeme::Close]),
        ) == Seq::<Seq<char>>::empty(),
{
    let none = Seq::<Lexeme>::empty();
    lemma_negated_group_leaves_no_trace(none, inside);
    assert(none + seq![Lexeme::Not, Lexeme::Open] =~= seq![Lexeme::Not, Lexeme::Open]);
    assert(settled(initial_state()) =~= Seq::<Seq<char>>::empty());
}

/// Whether `name` stands in one of `groups`.
pub open spec fn holds_tag(groups: Seq<Seq<char>>, name: Seq<char>) -> bool {
    exists|j: int| 0 <= j < groups.len() && has_infix(#[trigger] groups[j], name)
}

/// A group with one more tag holds what it held.
proof fn lemma_with_tag_keeps(group: Seq<char>, tag: Seq<char>, name: Seq<char>)
    requires
        has_infix(group, name),
        group.len() > 0,
    ensures
        has_infix(with_tag(group, tag), name),
{
    let i = choose|i: int| occurs_at(group, name, i);
    let longer = with_tag(group, tag);
    assert(longer.subrange(i, i + name.len()) =~= group.subrange(i, i + name.len()));
    assert(occurs_at(longer, name, i));
}

/// A group holds the tag that was added to it last.
proof fn lemma_with_tag_holds(group: Seq<char>, tag: Seq<char>)
    ensures
        has_infix(with_tag(group, tag), tag),
{
    let longer = with_tag(group, tag);
    let i = longer.len() - tag.len();
    assert(longer.subrange(i, i + tag.len()) =~= tag);
    assert(occurs_at(longer, tag, i));
}

/// One more word takes no tag out of the groups.
pub proof fn lemma_step_keeps_tags(st: TagState, word: Lexeme, name: Seq<char>)
    requires
        name.len() > 0,
        holds_tag(settled(st), name),
    ensures
        holds_tag(settled(step(st, word)), name),
{
    let before = settled(st);
    let next = step(st, word);
    let after = settled(next);
    let j = choose|j: int| 0 <= j < before.len() && has_infix(before[j], name);
    let group = before[j];
    assert(group.len() > 0) by {
        let i = choose|i: int| occurs_at(group, name, i);
    }
    if st.skipped > 0 {
        assert(after =~= before);
    } else {
        match word {
            Lexeme::Not => {
                assert(after =~= before);
            },
            Lexeme::Open => {
                assert(after =~= before);
            },
            Lexeme::Close => {
                assert(after =~= before);
            },
            Lexeme::And => {
                if st.closed.len() == 0 && st.open.len() == 0 && st.done.len() > 0 {
                    assert(before =~= st.done);
                    if j < st.done.len() - 1 {
                        assert(after[j] == group);
                    } else {
                        assert(next.open == group);
                        assert(after[after.len() - 1] == group);
                    }
                } else {
                    assert(after =~= before);
                }
            },
            Lexeme::Or => {
                assert(after =~= before);
            },
            Lexeme::Atom(tag) => {
                if st.negate {
                    assert(after =~= before);
                } else if j < (st.done + st.closed).len() {
                    assert((st.done + st.closed)[j] == group);
                    if next.open.len() > 0 {
                        assert(after[j] == group);
                    } else {
                        assert(after[j] == group);
                    }
                } else {
                    assert(group == st.open);
                    lemma_with_tag_keeps(st.open, tag, name);
                    assert(after[after.len() - 1] == next.open);
                }
            },
        }
    }
}

/// More words take no tag out of the groups.
pub proof fn lemma_run_keeps_tags(st: TagState, words: Seq<Lexeme>, name: Seq<char>)
    requires
        name.len() > 0,
        holds_tag(settled(st), name),
    ensures
        holds_tag(settled(run_from(st, words)), name),
    decreases words.len(),
{
    if words.len() > 0 {
        lemma_run_keeps_tags(st, words.drop_last(), name);
        lemma_step_keeps_tags(run_from(st, words.drop_last()), words.last(), name);
    }
}

/// Every tag that is read without a negation is in a group: where the
/// word `at` of `words` is a tag name, and before it no `!` waits and no
/// negated group is open, the name stands in one of the groups that
/// `words` give.
pub proof fn lemma_read_tags_are_kept(words: Seq<Lexeme>, at: int, name: Seq<char>)
    requires
        0 <= at < words.len(),
        words[at] == Lexeme::Atom(name),
        name.len() > 0,
        !run(words.take(at)).negate,
        run(words.take(at)).skipped == 0,
    ensures
        holds_tag(settled(run(words)), name),
{
    let start = initial_state();
    let before = words.take(at);
    let upto = words.take(at + 1);
    let rest = words.skip(at + 1);
    let st = run(before);
    assert(upto.drop_last() =~= before);
    assert(upto.last() == words[at]);
    let read = step(st, Lexeme::Atom(name));
    assert(run(upto) == read);
    lemma_with_tag_holds(st.open, name);
    assert(read.open.len() > 0);
    assert(settled(read)[settled(read).len() - 1] == read.open);
    assert(holds_tag(settled(read), name));
    lemma_run_keeps_tags(read, rest, name);
    lemma_run_from_add(start, upto, rest);
    assert(upto + rest =~= words);
}

} // verus!
