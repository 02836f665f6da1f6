//! Small verified helpers on strings, all stated over the strings' views
//! as sequences of characters.

use vstd::prelude::*;

verus! {

/// The views of a sequence of strings.
pub open spec fn texts(v: Seq<String>) -> Seq<Seq<char>> {
    Seq::new(v.len(), |i: int| v[i]@)
}

/// Pushing a string pushes its view.
pub proof fn lemma_texts_push(v: Seq<String>, s: String)
    ensures
        texts(v.push(s)) == texts(v).push(s@),
{
    assert(texts(v.push(s)) =~= texts(v).push(s@));
}

/// The views of two sequences written one after the other.
pub proof fn lemma_texts_add(a: Seq<String>, b: Seq<String>)
    ensures
        texts(a + b) == texts(a) + texts(b),
{
    assert(texts(a + b) =~= texts(a) + texts(b));
}

/// Whether `c` is white space: the code points with the Unicode property
/// `White_Space`.
pub open spec fn is_space(c: char) -> bool {
    let n = c as u32;
    ||| 0x09 <= n <= 0x0D
    ||| n == 0x20
    ||| n == 0x85
    ||| n == 0xA0
    ||| n == 0x1680
    ||| 0x2000 <= n <= 0x200A
    ||| n == 0x2028
    ||| n == 0x2029
    ||| n == 0x202F
    ||| n == 0x205F
    ||| n == 0x3000
}

/// Whether `s` begins with `prefix`.
pub open spec fn has_prefix(s: Seq<char>, prefix: Seq<char>) -> bool {
    prefix.len() <= s.len() && s.take(prefix.len() as int) == prefix
}

/// Whether `s` ends with `suffix`.
pub open spec fn has_suffix(s: Seq<char>, suffix: Seq<char>) -> bool {
    suffix.len() <= s.len() && s.skip(s.len() - suffix.len()) == suffix
}

/// Whether `needle` occurs in `s` at index `i`.
pub open spec fn occurs_at(s: Seq<char>, needle: Seq<char>, i: int) -> bool {
    0 <= i && i + needle.len() <= s.len() && s.subrange(i, i + needle.len()) == needle
}

/// Whether `needle` occurs somewhere in `s`.
pub open spec fn has_infix(s: Seq<char>, needle: Seq<char>) -> bool {
    exists|i: int| occurs_at(s, needle, i)
}

/// Whether `i` is the index of the first occurrence of `needle` in `s`.
pub open spec fn is_first_at(s: Seq<char>, needle: Seq<char>, i: int) -> bool {
    occurs_at(s, needle, i) && forall|j: int| 0 <= j < i ==> !occurs_at(s, needle, j)
}

/// What follows the first occurrence of `needle` in `s`; `None` where
/// `needle` does not occur.
pub open spec fn after_first(s: Seq<char>, needle: Seq<char>) -> Option<Seq<char>> {
    if has_infix(s, needle) {
        let i = choose|i: int| is_first_at(s, needle, i);
        Some(s.skip(i + needle.len()))
    } else {
        None
    }
}

/// There is one first occurrence at most.
pub proof fn lemma_first_unique(s: Seq<char>, needle: Seq<char>, i: int, j: int)
    requires
        is_first_at(s, needle, i),
        is_first_at(s, needle, j),
    ensures
        i == j,
{
}

/// The length of the longest prefix of `s` that holds no white space.
pub open spec fn word_len(s: Seq<char>) -> nat
    decreases s.len(),
{
    if s.len() == 0 || is_space(s[0]) {
        0
    } else {
        1 + word_len(s.drop_first())
    }
}

/// The words of `s`: its maximal runs of characters that are not white
/// space, in order.
pub open spec fn fields(s: Seq<char>) -> Seq<Seq<char>>
    decreases s.len(),
{
    let n = word_len(s) as int;
    if s.len() == 0 {
        Seq::empty()
    } else if 0 < n <= s.len() {
        seq![s.take(n)] + fields(s.skip(n))
    } else {
        fields(s.drop_first())
    }
}

/// The length of the longest prefix of `s` that does not hold `sep`.
pub open spec fn piece_len(s: Seq<char>, sep: char) -> nat
    decreases s.len(),
{
    if s.len() == 0 || s[0] == sep {
        0
    } else {
        1 + piece_len(s.drop_first(), sep)
    }
}

/// The pieces of `s` between occurrences of `sep`; one more than there are
/// occurrences, so empty pieces are kept.
pub open spec fn split(s: Seq<char>, sep: char) -> Seq<Seq<char>>
    decreases s.len(),
{
    let n = piece_len(s, sep) as int;
    if n >= s.len() {
        seq![s]
    } else {
        seq![s.take(n)] + split(s.skip(n + 1), sep)
    }
}

/// `parts` written one after another with `sep` between neighbours.
pub open spec fn join(parts: Seq<Seq<char>>, sep: Seq<char>) -> Seq<char>
    decreases parts.len(),
{
    if parts.len() == 0 {
        Seq::empty()
    } else if parts.len() == 1 {
        parts[0]
    } else {
        join(parts.drop_last(), sep) + sep + parts.last()
    }
}

/// The test that a character is not `c`.
pub open spec fn is_not(c: char) -> spec_fn(char) -> bool {
    |x: char| x != c
}

/// `s` without the occurrences of `c`.
pub open spec fn without(s: Seq<char>, c: char) -> Seq<char> {
    s.filter(is_not(c))
}

pub proof fn lemma_piece_len_bound(s: Seq<char>, sep: char)
    ensures
        piece_len(s, sep) <= s.len(),
        piece_len(s, sep) < s.len() ==> s[piece_len(s, sep) as int] == sep,
        forall|i: int| 0 <= i < piece_len(s, sep) ==> #[trigger] s[i] != sep,
    decreases s.len(),
{
    if s.len() == 0 || s[0] == sep {
    } else {
        lemma_piece_len_bound(s.drop_first(), sep);
        assert forall|i: int| 0 <= i < piece_len(s, sep) implies #[trigger] s[i] != sep by {
            if i > 0 {
                assert(s[i] == s.drop_first()[i - 1]);
            }
        }
    }
}

/// The characters of `s`, in order.
pub fn chars_of(s: &str) -> (out: Vec<char>)
    ensures
        out@ == s@,
{
    let mut out: Vec<char> = Vec::new();
    for c in it: s.chars()
        invariant
            it.seq() == s@,
            out@ == s@.take(it.index() as int),
    {
        out.push(c);
    }
    out
}

/// A copy of `v`.
pub fn clone_strings(v: &Vec<String>) -> (out: Vec<String>)
    ensures
        texts(out@) == texts(v@),
{
    let mut out: Vec<String> = Vec::new();
    let mut i: usize = 0;
    while i < v.len()
        invariant
            i <= v.len(),
            texts(out@) == texts(v@).take(i as int),
        decreases v.len() - i,
    {
        let s = v[i].clone();
        proof {
            lemma_texts_push(out@, s);
            assert(texts(v@).take(i + 1) =~= texts(v@).take(i as int).push(s@));
        }
        out.push(s);
        i += 1;
    }
    assert(texts(v@).take(v.len() as int) =~= texts(v@));
    assert(texts(out@) =~= texts(v@));
    out
}

/// Whether `c` is white space.
pub fn is_space_char(c: char) -> (r: bool)
    ensures
        r == is_space(c),
{
    let n: u32 = c as u32;
    (0x09 <= n && n <= 0x0D) || n == 0x20 || n == 0x85 || n == 0xA0 || n == 0x1680 || (0x2000 <= n
        && n <= 0x200A) || n == 0x2028 || n == 0x2029 || n == 0x202F || n == 0x205F || n == 0x3000
}

/// The part of `s` from character `from` up to character `to`, as a new
/// string.
pub fn piece(s: &str, from: usize, to: usize) -> (out: String)
    requires
        from <= to <= s@.len(),
    ensures
        out@ == s@.subrange(from as int, to as int),
{
    s.substring_char(from, to).to_owned()
}

/// Whether the two strings hold the same characters.
pub fn same_chars(a: &Vec<char>, b: &Vec<char>) -> (r: bool)
    ensures
        r == (a@ == b@),
{
    if a.len() != b.len() {
        return false;
    }
    let mut i: usize = 0;
    while i < a.len()
        invariant
            a.len() == b.len(),
            i <= a.len(),
            a@.take(i as int) == b@.take(i as int),
        decreases a.len() - i,
    {
        if a[i] != b[i] {
            return false;
        }
        assert(a@.take(i + 1) =~= a@.take(i as int).push(a@[i as int]));
        assert(b@.take(i + 1) =~= b@.take(i as int).push(b@[i as int]));
        i += 1;
    }
    assert(a@ =~= a@.take(a.len() as int));
    assert(b@ =~= b@.take(b.len() as int));
    true
}

/// Whether `needle` stands in `s` at character `at`.
pub fn occurs_here(s: &Vec<char>, needle: &Vec<char>, at: usize) -> (r: bool)
    ensures
        r == occurs_at(s@, needle@, at as int),
{
    if at > s.len() || needle.len() > s.len() - at {
        return false;
    }
    let mut i: usize = 0;
    while i < needle.len()
        invariant
            at + needle.len() <= s.len(),
            i <= needle.len(),
            s@.subrange(at as int, at + i) == needle@.take(i as int),
        decreases needle.len() - i,
    {
        if s[at + i] != needle[i] {
            assert(s@.subrange(at as int, at + needle.len())[i as int] != needle@[i as int]);
            return false;
        }
        assert(s@.subrange(at as int, at + i + 1) =~= s@.subrange(at as int, at + i).push(
            s@[at + i],
        ));
        assert(needle@.take(i + 1) =~= needle@.take(i as int).push(needle@[i as int]));
        i += 1;
    }
    assert(needle@ =~= needle@.take(needle.len() as int));
    true
}

/// Whether `s` begins with `prefix`.
pub fn starts_with(s: &Vec<char>, prefix: &Vec<char>) -> (r: bool)
    ensures
        r == has_prefix(s@, prefix@),
{
    let r = occurs_here(s, prefix, 0);
    proof {
        if prefix.len() <= s.len() {
            assert(s@.take(prefix.len() as int) =~= s@.subrange(0, 0 + prefix.len()));
        }
    }
    r
}

/// Whether `s` ends with `suffix`.
pub fn ends_with(s: &Vec<char>, suffix: &Vec<char>) -> (r: bool)
    ensures
        r == has_suffix(s@, suffix@),
{
    if suffix.len() > s.len() {
        return false;
    }
    let at: usize = s.len() - suffix.len();
    let r = occurs_here(s, suffix, at);
    proof {
        assert(s@.skip(s.len() - suffix.len()) =~= s@.subrange(at as int, at + suffix.len()));
    }
    r
}

/// The index of the first occurrence of `needle` in `s`, if there is one.
pub fn find(s: &Vec<char>, needle: &Vec<char>) -> (r: Option<usize>)
    ensures
        r is None <==> !has_infix(s@, needle@),
        r matches Some(i) ==> occurs_at(s@, needle@, i as int) && forall|j: int|
            0 <= j < i ==> !occurs_at(s@, needle@, j),
{
    let mut i: usize = 0;
    while i < s.len()
        invariant
            i <= s.len(),
            forall|j: int| 0 <= j < i ==> !occurs_at(s@, needle@, j),
        decreases s.len() - i,
    {
        if occurs_here(s, needle, i) {
            return Some(i);
        }
        i += 1;
    }
    if occurs_here(s, needle, i) {
        Some(i)
    } else {
        None
    }
}

/// Whether `needle` occurs somewhere in `s`.
pub fn contains(s: &Vec<char>, needle: &Vec<char>) -> (r: bool)
    ensures
        r == has_infix(s@, needle@),
{
    find(s, needle).is_some()
}

/// The words of `s`: its maximal runs of characters that are not white
/// space.
pub fn words(s: &str) -> (out: Vec<String>)
    ensures
        texts(out@) == fields(s@),
{
    let cs = chars_of(s);
    let mut out: Vec<String> = Vec::new();
    let mut pos: usize = 0;
    assert(cs@.skip(0) =~= cs@);
    assert(texts(out@) =~= Seq::empty());
    while pos < cs.len()
        invariant
            cs@ == s@,
            pos <= cs.len(),
            texts(out@) + fields(cs@.skip(pos as int)) == fields(cs@),
        decreases cs.len() - pos,
    {
        let ghost rest = cs@.skip(pos as int);
        if is_space_char(cs[pos]) {
            assert(rest.drop_first() =~= cs@.skip(pos + 1));
            pos += 1;
        } else {
            let start: usize = pos;
            let mut end: usize = pos + 1;
            assert(rest.drop_first() =~= cs@.skip(end as int));
            while end < cs.len() && !is_space_char(cs[end])
                invariant
                    start < end <= cs.len(),
                    word_len(cs@.skip(start as int)) == (end - start) + word_len(
                        cs@.skip(end as int),
                    ),
                decreases cs.len() - end,
            {
                assert(cs@.skip(end as int).drop_first() =~= cs@.skip(end + 1));
                end += 1;
            }
            let word = piece(s, start, end);
            proof {
                assert(word_len(rest) == end - start);
                assert(rest.take(end - start) =~= cs@.subrange(start as int, end as int));
                assert(rest.skip(end - start) =~= cs@.skip(end as int));
                lemma_texts_push(out@, word);
                assert(texts(out@).push(word@) + fields(cs@.skip(end as int)) =~= texts(out@) + (
                seq![word@] + fields(cs@.skip(end as int))));
            }
            out.push(word);
            pos = end;
        }
    }
    assert(fields(cs@.skip(pos as int)) =~= Seq::empty());
    assert(texts(out@) + Seq::<Seq<char>>::empty() =~= texts(out@));
    out
}

/// The pieces of `s` between occurrences of `sep`.
pub fn split_on(s: &str, sep: char) -> (out: Vec<String>)
    ensures
        texts(out@) == split(s@, sep),
{
    let cs = chars_of(s);
    let mut out: Vec<String> = Vec::new();
    let mut start: usize = 0;
    assert(cs@.skip(0) =~= cs@);
    assert(texts(out@) =~= Seq::empty());
    loop
        invariant
            cs@ == s@,
            start <= cs.len(),
            texts(out@) + split(cs@.skip(start as int), sep) == split(cs@, sep),
        decreases cs.len() - start,
    {
        let ghost rest = cs@.skip(start as int);
        let mut end: usize = start;
        while end < cs.len() && cs[end] != sep
            invariant
                start <= end <= cs.len(),
                piece_len(rest, sep) == (end - start) + piece_len(cs@.skip(end as int), sep),
                rest == cs@.skip(start as int),
            decreases cs.len() - end,
        {
            assert(cs@.skip(end as int).drop_first() =~= cs@.skip(end + 1));
            end += 1;
        }
        let part = piece(s, start, end);
        proof {
            assert(piece_len(rest, sep) == end - start);
            lemma_texts_push(out@, part);
        }
        if end >= cs.len() {
            proof {
                assert(part@ =~= rest);
                assert(texts(out@).push(part@) =~= texts(out@) + split(rest, sep));
            }
            out.push(part);
            return out;
        }
        proof {
            assert(rest.take(end - start) =~= part@);
            assert(rest.skip(end - start + 1) =~= cs@.skip(end + 1));
            assert(texts(out@).push(part@) + split(cs@.skip(end + 1), sep) =~= texts(out@) + (
            seq![part@] + split(cs@.skip(end + 1), sep)));
        }
        out.push(part);
        start = end + 1;
    }
}

/// `parts` written one after another with `sep` between neighbours.
pub fn join_with(parts: &Vec<String>, sep: &str) -> (out: String)
    ensures
        out@ == join(texts(parts@), sep@),
{
    let mut out = String::new();
    let mut i: usize = 0;
    assert(texts(parts@).take(0) =~= Seq::empty());
    while i < parts.len()
        invariant
            i <= parts.len(),
            out@ == join(texts(parts@).take(i as int), sep@),
        decreases parts.len() - i,
    {
        let ghost before = texts(parts@).take(i as int);
        let ghost after = texts(parts@).take(i + 1);
        assert(after.drop_last() =~= before);
        assert(after.last() == parts@[i as int]@);
        if i > 0 {
            out.append(sep);
        }
        out.append(parts[i].as_str());
        assert(out@ =~= join(after, sep@));
        i += 1;
    }
    assert(texts(parts@).take(parts.len() as int) =~= texts(parts@));
    out
}

/// `s` without the occurrences of `c`.
pub fn remove_char(s: &str, c: char) -> (out: String)
    ensures
        out@ == without(s@, c),
{
    let cs = chars_of(s);
    let mut out = String::new();
    let mut pos: usize = 0;
    let ghost keep = is_not(c);
    assert(cs@.take(0).filter(keep) =~= Seq::empty()) by {
        assert(cs@.take(0) =~= Seq::empty());
        reveal(Seq::filter);
    }
    while pos < cs.len()
        invariant
            cs@ == s@,
            pos <= cs.len(),
            keep == is_not(c),
            out@ == cs@.take(pos as int).filter(keep),
        decreases cs.len() - pos,
    {
        proof {
            assert(cs@.take(pos + 1) =~= cs@.take(pos as int).push(cs@[pos as int]));
            cs@.take(pos as int).lemma_filter_push(cs@[pos as int], keep);
        }
        if cs[pos] != c {
            let one = piece(s, pos, pos + 1);
            assert(one@ =~= seq![cs@[pos as int]]);
            out.append(one.as_str());
            assert(out@ =~= cs@.take(pos as int).filter(keep).push(cs@[pos as int]));
        }
        pos += 1;
    }
    assert(cs@.take(cs.len() as int) =~= cs@);
    out
}

/// What follows the first occurrence of `needle` in `s`; `None` where
/// `needle` does not occur.
pub fn rest_after(s: &str, needle: &str) -> (out: Option<String>)
    ensures
        out is Some == after_first(s@, needle@) is Some,
        out matches Some(rest) ==> after_first(s@, needle@) == Some(rest@),
{
    let cs = chars_of(s);
    let ns = chars_of(needle);
    match find(&cs, &ns) {
        None => None,
        Some(i) => {
            proof {
                assert(occurs_at(s@, needle@, i as int));
                assert(is_first_at(s@, needle@, i as int));
                let k = choose|k: int| is_first_at(s@, needle@, k);
                lemma_first_unique(s@, needle@, i as int, k);
            }
            assert(i + ns.len() <= cs.len());
            let from: usize = i + ns.len();
            Some(piece(s, from, cs.len()))
        },
    }
}

} // verus!
