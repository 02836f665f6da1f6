//! The framework for Go's own tests, `go test`.

use crate::enums::{Capability, Language, Search};
use crate::errors::FrameworkError;
use crate::finder::{
    far_end, far_end_position, find_runnables, origin, origin_position, outcome_of, run_pattern,
    search,
};
use crate::queries::{IMPORT_LIST_PATTERN, SINGLE_IMPORT_PATTERN};
use crate::syntax::{query_matches, Capture};
use crate::text::{
    chars_of, ends_with, fields, has_suffix, join, join_with, lemma_texts_add, lemma_texts_push,
    texts, words,
};
use crate::traits::{Framework, FrameworkProvider};
use crate::types::{CapabilityDetails, Command, Runnable, Target};
use vstd::prelude::*;

verus! {

/// One search that a framework offers, the description as a sequence of
/// characters.
pub struct OfferView {
    pub capability: Capability,
    pub search: Search,
    pub description: Seq<char>,
}

impl View for CapabilityDetails {
    type V = OfferView;

    open spec fn view(&self) -> OfferView {
        OfferView {
            capability: self.capability,
            search: self.search,
            description: self.description@,
        }
    }
}

/// The views of a sequence of offers.
pub open spec fn offer_views(offers: Seq<CapabilityDetails>) -> Seq<OfferView> {
    Seq::new(offers.len(), |i: int| offers[i]@)
}

/// The searches that `go test` offers: the nearest test, the test
/// function and the whole file.
pub open spec fn gotest_offers() -> Seq<OfferView> {
    seq![
        OfferView {
            capability: Capability::TestRunner,
            search: Search::Nearest,
            description: "Test Nearest"@,
        },
        OfferView {
            capability: Capability::TestRunner,
            search: Search::Method,
            description: "Test Function"@,
        },
        OfferView {
            capability: Capability::TestRunner,
            search: Search::File,
            description: "Test File"@,
        },
    ]
}

/// The first of `offers` with the description `description`.
pub open spec fn offer_named(offers: Seq<OfferView>, description: Seq<char>) -> Option<OfferView>
    decreases offers.len(),
{
    if offers.len() == 0 {
        None
    } else if offers[0].description == description {
        Some(offers[0])
    } else {
        offer_named(offers.drop_first(), description)
    }
}

/// Whether the source imports the package `testing`, alone or in a list
/// of imports.
pub open spec fn imports_testing(content: Seq<char>) -> bool {
    ||| match query_matches(content, SINGLE_IMPORT_PATTERN@, far_end(), origin(), far_end()) {
        Some(matches) => matches.len() > 0,
        None => false,
    }
    ||| match query_matches(content, IMPORT_LIST_PATTERN@, far_end(), origin(), far_end()) {
        Some(matches) => matches.len() > 0,
        None => false,
    }
}

/// Whether a file is one of `go test`: it imports `testing`, a test
/// runner is asked for, and its path ends in `_test.go`.
pub open spec fn is_gotest_file(content: Seq<char>, category: Capability, filepath: Seq<char>)
    -> bool {
    imports_testing(content) && category == Capability::TestRunner && has_suffix(
        filepath,
        "_test.go"@,
    )
}

/// The tags of all `groups`, in order: each group's words.
pub open spec fn all_tags(groups: Seq<Seq<char>>) -> Seq<Seq<char>>
    decreases groups.len(),
{
    if groups.len() == 0 {
        Seq::empty()
    } else {
        all_tags(groups.drop_last()) + fields(groups.last())
    }
}

/// The arguments of `go` that run the tests of `filepath` with the tags
/// of `groups`: `test`, `-v`, the file, and, where there is a tag,
/// `-tags=` with all tags and commas between them.
pub open spec fn gotest_args(filepath: Seq<char>, groups: Seq<Seq<char>>) -> Seq<Seq<char>> {
    let base = seq!["test"@, "-v"@, filepath];
    if all_tags(groups).len() > 0 {
        base.push("-tags="@ + join(all_tags(groups), seq![',']))
    } else {
        base
    }
}

/// Whether a match was found.
pub fn any_match(found: &Option<Vec<Vec<Capture>>>) -> (any: bool)
    ensures
        any == match *found {
            Some(matches) => matches@.len() > 0,
            None => false,
        },
{
    match found {
        Some(matches) => matches.len() > 0,
        None => false,
    }
}

/// Whether the source imports the package `testing`.
pub fn detect_gotest_file(content: &str) -> (found: bool)
    ensures
        found == imports_testing(content@),
{
    let single = run_pattern(
        content,
        SINGLE_IMPORT_PATTERN,
        far_end_position(),
        origin_position(),
        far_end_position(),
    );
    if any_match(&single) {
        return true;
    }
    let list = run_pattern(
        content,
        IMPORT_LIST_PATTERN,
        far_end_position(),
        origin_position(),
        far_end_position(),
    );
    any_match(&list)
}

/// The tags of all `groups`, in order.
pub fn collect_tags(groups: &Vec<String>) -> (tags: Vec<String>)
    ensures
        texts(tags@) == all_tags(texts(groups@)),
{
    let ghost all = texts(groups@);
    let mut tags: Vec<String> = Vec::new();
    let mut i: usize = 0;
    assert(all.take(0) =~= Seq::empty());
    assert(texts(tags@) =~= Seq::empty());
    while i < groups.len()
        invariant
            i <= groups.len(),
            all == texts(groups@),
            texts(tags@) == all_tags(all.take(i as int)),
        decreases groups.len() - i,
    {
        let mut more = words(groups[i].as_str());
        proof {
            assert(all.take(i + 1).drop_last() =~= all.take(i as int));
            assert(all.take(i + 1).last() == groups@[i as int]@);
            lemma_texts_add(tags@, more@);
        }
        tags.append(&mut more);
        i += 1;
    }
    assert(all.take(groups.len() as int) =~= all);
    tags
}

/// The arguments of `go` that run the tests of `filepath` with the tags
/// of `groups`.
pub fn gotest_arguments(filepath: String, groups: &Vec<String>) -> (args: Vec<String>)
    ensures
        texts(args@) == gotest_args(filepath@, texts(groups@)),
{
    let ghost path = filepath@;
    let mut args: Vec<String> = Vec::new();
    args.push("test".to_owned());
    args.push("-v".to_owned());
    args.push(filepath);
    assert(texts(args@) =~= seq!["test"@, "-v"@, path]);
    let tags = collect_tags(groups);
    if tags.len() > 0 {
        let mut flag = "-tags=".to_owned();
        proof {
            reveal_strlit(",");
            assert(","@ =~= seq![',']);
        }
        flag.append(join_with(&tags, ",").as_str());
        proof {
            lemma_texts_push(args@, flag);
        }
        args.push(flag);
    }
    args
}

/// The framework of `go test`, and what makes it.
pub struct GotestProvider {
    search_capabilities: Vec<CapabilityDetails>,
}

impl GotestProvider {
    /// The searches that this framework offers.
    pub closed spec fn offers(self) -> Seq<OfferView> {
        offer_views(self.search_capabilities@)
    }

    #[verifier::type_invariant]
    spec fn offers_are_fixed(self) -> bool {
        self.offers() == gotest_offers()
    }

    /// The framework, with its three searches.
    pub fn new() -> (provider: Self)
        ensures
            provider.offers() == gotest_offers(),
    {
        let mut offers: Vec<CapabilityDetails> = Vec::new();
        offers.push(
            CapabilityDetails {
                capability: Capability::TestRunner,
                search: Search::Nearest,
                description: "Test Nearest".to_owned(),
            },
        );
        offers.push(
            CapabilityDetails {
                capability: Capability::TestRunner,
                search: Search::Method,
                description: "Test Function".to_owned(),
            },
        );
        offers.push(
            CapabilityDetails {
                capability: Capability::TestRunner,
                search: Search::File,
                description: "Test File".to_owned(),
            },
        );
        assert(offer_views(offers@) =~= gotest_offers());
        GotestProvider { search_capabilities: offers }
    }
}

impl FrameworkProvider for GotestProvider {
    type Made = GotestProvider;

    fn create(&self) -> (made: GotestProvider)
        ensures
            made.offers() == gotest_offers(),
    {
        GotestProvider::new()
    }

    fn name(&self) -> (name: &'static str)
        ensures
            name@ == "GoTest"@,
    {
        "GoTest"
    }

    fn language(&self) -> (language: Language)
        ensures
            language == Language::Golang,
    {
        Language::Golang
    }

    fn capability(&self) -> (capability: Capability)
        ensures
            capability == Capability::TestRunner,
    {
        Capability::TestRunner
    }
}

impl Framework for GotestProvider {
    /// Whether the target is a Go test file that a test runner is asked
    /// for.
    fn detect(&self, target: &Target) -> (yes: bool)
        ensures
            yes == is_gotest_file(target.buffer.content@, target.category, target.buffer.filepath@),
    {
        if !detect_gotest_file(target.buffer.content) {
            return false;
        }
        if target.category != Capability::TestRunner {
            return false;
        }
        ends_with(&chars_of(target.buffer.filepath.as_str()), &chars_of("_test.go"))
    }

    /// The runnables of the target's buffer for its cursor, as its
    /// search mode asks.
    fn runnables(&self, target: &Target) -> (out: Result<Vec<Runnable>, FrameworkError>)
        ensures
            outcome_of(out) == Some(
                search(
                    target.search_strategy,
                    target.buffer.content@,
                    target.buffer.filepath@,
                    target.buffer.position,
                ),
            ),
    {
        find_runnables(
            target.search_strategy,
            target.buffer.content,
            target.buffer.filepath.as_str(),
            target.buffer.position,
        )
    }

    /// `go test -v` on the file of `runnable`, with the build tags that
    /// its metadata holds.
    fn generate_command(&self, runnable: Runnable) -> (command: Command)
        ensures
            command.command@ == "go"@,
            texts(command.args@) == gotest_args(runnable@.filepath, runnable@.meta.build_tags),
    {
        let meta = runnable.meta.get_meta().unwrap();
        Command {
            command: "go".to_owned(),
            args: gotest_arguments(runnable.filepath, &meta.build_tags),
        }
    }

    /// The three searches, in the order nearest, function, file.
    fn capabilities(&self) -> (offers: Vec<CapabilityDetails>)
        ensures
            offer_views(offers@) == gotest_offers(),
    {
        proof {
            use_type_invariant(self);
        }
        let mut offers: Vec<CapabilityDetails> = Vec::new();
        let mut i: usize = 0;
        while i < self.search_capabilities.len()
            invariant
                i <= self.search_capabilities.len(),
                offer_views(offers@) == offer_views(self.search_capabilities@).take(i as int),
            decreases self.search_capabilities.len() - i,
        {
            let one = self.search_capabilities[i].clone();
            assert(one@ == self.search_capabilities@[i as int]@);
            assert(offer_views(offers@.push(one)) =~= offer_views(offers@).push(one@));
            assert(offer_views(self.search_capabilities@).take(i + 1) =~= offer_views(
                self.search_capabilities@,
            ).take(i as int).push(one@));
            offers.push(one);
            i += 1;
        }
        assert(offer_views(self.search_capabilities@).take(self.search_capabilities.len() as int)
            =~= offer_views(self.search_capabilities@));
        offers
    }

    /// The search offered under `description`, if there is one.
    fn search_for_capability(&self, description: &str) -> (offer: Option<CapabilityDetails>)
        ensures
            offer is Some == offer_named(gotest_offers(), description@) is Some,
            offer matches Some(found) ==> offer_named(gotest_offers(), description@) == Some(
                found@,
            ),
    {
        proof {
            use_type_invariant(self);
        }
        let wanted = chars_of(description);
        let ghost all = offer_views(self.search_capabilities@);
        let mut i: usize = 0;
        assert(all.skip(0) =~= all);
        while i < self.search_capabilities.len()
            invariant
                i <= self.search_capabilities.len(),
                all == offer_views(self.search_capabilities@),
                all == gotest_offers(),
                wanted@ == description@,
                offer_named(all, description@) == offer_named(all.skip(i as int), description@),
            decreases self.search_capabilities.len() - i,
        {
            let here = chars_of(self.search_capabilities[i].description.as_str());
            assert(all.skip(i as int)[0] == self.search_capabilities@[i as int]@);
            if crate::text::same_chars(&here, &wanted) {
                let found = self.search_capabilities[i].clone();
                assert(found@ == self.search_capabilities@[i as int]@);
                return Some(found);
            }
            assert(all.skip(i as int).drop_first() =~= all.skip(i + 1));
            i += 1;
        }
        None
    }
}

} // verus!
