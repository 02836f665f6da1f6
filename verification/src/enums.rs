//! The closed sets that a search is described by: language, capability
//! and search mode.

use crate::text::{chars_of, same_chars};
use vstd::prelude::*;

verus! {

/// A programming language that a framework can be written for.
#[derive(PartialEq, Eq, Structural, Debug, Clone, Copy, Hash)]
pub enum Language {
    Unsupported,
    Golang,
    Rust,
    Python,
}

/// What a framework can do with a source file.
#[derive(PartialEq, Eq, Structural, Debug, Clone, Copy, Hash)]
pub enum Capability {
    Debugger,
    TestRunner,
}

/// How much a search returns.
#[derive(PartialEq, Eq, Structural, Debug, Clone, Copy, Hash)]
pub enum Search {
    /// The smallest runnable at the cursor: a subtest where one holds the
    /// cursor, else the test around it.
    Nearest,
    /// The test around the cursor, without its subtests.
    Method,
    /// Every test of the file, and every subtest that can be named.
    File,
}

/// `c` as a small letter, where it is one of `A` to `Z`.
pub open spec fn lower(c: char) -> char {
    if 'A' <= c && c <= 'Z' {
        ((c as u8) + 32) as char
    } else {
        c
    }
}

/// `s` with its letters `A` to `Z` made small.
pub open spec fn lowered(s: Seq<char>) -> Seq<char> {
    Seq::new(s.len(), |i: int| lower(s[i]))
}

/// The language that a name stands for, whatever the case of its letters.
pub open spec fn language_named(name: Seq<char>) -> Option<Language> {
    let low = lowered(name);
    if low == "go"@ || low == "golang"@ {
        Some(Language::Golang)
    } else if low == "rust"@ || low == "rs"@ {
        Some(Language::Rust)
    } else if low == "python"@ || low == "py"@ {
        Some(Language::Python)
    } else {
        None
    }
}

/// The text of the error for a name that stands for no language.
pub open spec fn unknown_language(name: Seq<char>) -> Seq<char> {
    "Unknown language: "@ + name
}

/// `s` with its letters `A` to `Z` made small.
pub fn to_lower(s: &str) -> (out: Vec<char>)
    ensures
        out@ == lowered(s@),
{
    let cs = chars_of(s);
    let mut out: Vec<char> = Vec::new();
    let mut i: usize = 0;
    while i < cs.len()
        invariant
            i <= cs.len(),
            cs@ == s@,
            out@ == lowered(s@).take(i as int),
        decreases cs.len() - i,
    {
        let c = cs[i];
        let low: char = if 'A' <= c && c <= 'Z' {
            ((c as u8) + 32) as char
        } else {
            c
        };
        assert(lowered(s@).take(i + 1) =~= lowered(s@).take(i as int).push(low));
        out.push(low);
        i += 1;
    }
    assert(lowered(s@).take(cs.len() as int) =~= lowered(s@));
    out
}

impl Language {
    /// The names that the language goes by; none for `Unsupported`.
    pub fn aliases(&self) -> (names: Vec<&'static str>)
        ensures
            match *self {
                Language::Golang => names@.len() == 2 && names@[0]@ == "go"@ && names@[1]@
                    == "golang"@,
                Language::Rust => names@.len() == 2 && names@[0]@ == "rust"@ && names@[1]@
                    == "rs"@,
                Language::Python => names@.len() == 2 && names@[0]@ == "python"@ && names@[1]@
                    == "py"@,
                Language::Unsupported => names@.len() == 0,
            },
    {
        let mut names: Vec<&'static str> = Vec::new();
        match self {
            Language::Golang => {
                names.push("go");
                names.push("golang");
            },
            Language::Rust => {
                names.push("rust");
                names.push("rs");
            },
            Language::Python => {
                names.push("python");
                names.push("py");
            },
            Language::Unsupported => {},
        }
        names
    }

    /// The language that `name` stands for, whatever the case of its
    /// letters; for any other name an error that quotes it.
    pub fn from_name(name: &str) -> (out: Result<Language, String>)
        ensures
            match language_named(name@) {
                Some(language) => out == Ok::<Language, String>(language),
                None => out is Err && out->Err_0@ == unknown_language(name@),
            },
    {
        let low = to_lower(name);
        if same_chars(&low, &chars_of("go")) || same_chars(&low, &chars_of("golang")) {
            Ok(Language::Golang)
        } else if same_chars(&low, &chars_of("rust")) || same_chars(&low, &chars_of("rs")) {
            Ok(Language::Rust)
        } else if same_chars(&low, &chars_of("python")) || same_chars(&low, &chars_of("py")) {
            Ok(Language::Python)
        } else {
            let mut message = "Unknown language: ".to_owned();
            message.append(name);
            Err(message)
        }
    }
}

impl std::str::FromStr for Language {
    type Err = String;

    fn from_str(s: &str) -> (out: Result<Language, String>)
        ensures
            match language_named(s@) {
                Some(language) => out == Ok::<Language, String>(language),
                None => out is Err && out->Err_0@ == unknown_language(s@),
            },
    {
        Language::from_name(s)
    }
}

} // verus!
