//! The engine: the one place that knows the frameworks and asks them.

use crate::enums::{language_named, Capability, Language};
use crate::errors::FrameworkError;
use crate::finder::{outcome_of, search};
use crate::gotest::{gotest_offers, offer_named, offer_views, GotestProvider, OfferView};
use crate::registry::{gotest_name, FrameworkRegistry};
use crate::text::{split, split_on, texts};
use crate::traits::Framework;
use crate::types::{Buffer, CapabilityDetails, CursorPosition, Runnable, Target};
use vstd::prelude::*;

verus! {

/// The language that the extension of a path stands for: that of what
/// follows its last dot, `Unsupported` where that names none.
pub open spec fn language_of_path(filepath: Seq<char>) -> Language {
    match language_named(split(filepath, '.').last()) {
        Some(language) => language,
        None => Language::Unsupported,
    }
}

/// The offers of `count` frameworks of `go test`, one after the other.
pub open spec fn offers_of(count: nat) -> Seq<OfferView>
    decreases count,
{
    if count == 0 {
        Seq::empty()
    } else {
        offers_of((count - 1) as nat) + gotest_offers()
    }
}

/// A split has one piece at least.
pub proof fn lemma_split_not_empty(s: Seq<char>, sep: char)
    ensures
        split(s, sep).len() > 0,
    decreases s.len(),
{
    crate::text::lemma_piece_len_bound(s, sep);
    let n = crate::text::piece_len(s, sep) as int;
    if n < s.len() {
        lemma_split_not_empty(s.skip(n + 1), sep);
    }
}

/// The engine with the frameworks it knows.
pub struct Engine {
    registry: FrameworkRegistry,
}

impl Engine {
    /// The names of the frameworks that the engine knows.
    pub closed spec fn frameworks(self) -> Seq<Seq<char>> {
        self.registry.names()
    }

    /// The engine that knows `go test`.
    pub fn initialize() -> (engine: Self)
        ensures
            engine.frameworks() == seq![gotest_name()],
    {
        let mut registry = FrameworkRegistry::new();
        registry.register(GotestProvider::new());
        Engine { registry }
    }

    /// The searches that can be run on the file at `filepath`: those of
    /// each test framework for the language of its extension.
    pub fn get_capabilities(&self, filepath: &str) -> (offers: Vec<CapabilityDetails>)
        ensures
            offer_views(offers@) == if language_of_path(filepath@) == Language::Golang {
                offers_of(self.frameworks().len())
            } else {
                Seq::<OfferView>::empty()
            },
    {
        let pieces = split_on(filepath, '.');
        proof {
            lemma_split_not_empty(filepath@, '.');
            assert(texts(pieces@).last() == pieces@[pieces.len() - 1]@);
        }
        let extension = pieces[pieces.len() - 1].as_str();
        let lang = match Language::from_name(extension) {
            Ok(lang) => lang,
            Err(_) => Language::Unsupported,
        };
        let mut offers: Vec<CapabilityDetails> = Vec::new();
        assert(offer_views(offers@) =~= Seq::empty());
        if lang == Language::Unsupported {
            return offers;
        }
        let frameworks = self.registry.get_frameworks_by_category_and_language(
            Capability::TestRunner,
            lang,
        );
        let mut i: usize = 0;
        while i < frameworks.len()
            invariant
                i <= frameworks.len(),
                forall|k: int|
                    0 <= k < frameworks@.len() ==> (#[trigger] frameworks@[k]).offers()
                        == gotest_offers(),
                offer_views(offers@) == offers_of(i as nat),
            decreases frameworks.len() - i,
        {
            let mut more = frameworks[i].capabilities();
            assert(offer_views(offers@ + more@) =~= offer_views(offers@) + offer_views(more@));
            offers.append(&mut more);
            i += 1;
        }
        offers
    }

    /// What a search in `contents` comes to for the framework
    /// `framework_name` and the search offered as `description`.
    pub open spec fn found_by(
        self,
        contents: Seq<char>,
        filepath: Seq<char>,
        description: Seq<char>,
        framework_name: Seq<char>,
        cursor: CursorPosition,
    ) -> Option<crate::finder::SearchOutcome> {
        if !self.frameworks().contains(framework_name) {
            None
        } else {
            match offer_named(gotest_offers(), description) {
                Some(offer) => Some(search(offer.search, contents, filepath, cursor)),
                None => None,
            }
        }
    }

    /// The runnables of `contents`, the text of the file at `filepath`,
    /// for the cursor at `cursor`, found by the framework
    /// `framework_name` with the search that it offers as `description`.
    ///
    /// Fails with `PreconditionError` where no such framework is known
    /// (`unknown framework`) or it offers no such search (`unknown
    /// capability`), else as the search does.
    pub fn find_runnables(
        &self,
        contents: &str,
        filepath: &str,
        description: &str,
        framework_name: &str,
        cursor: CursorPosition,
    ) -> (out: Result<Vec<Runnable>, FrameworkError>)
        ensures
            match self.found_by(contents@, filepath@, description@, framework_name@, cursor) {
                Some(outcome) => outcome_of(out) == Some(outcome),
                None => out matches Err(FrameworkError::PreconditionError(details)) && details@
                    == if self.frameworks().contains(framework_name@) {
                    "unknown capability"@
                } else {
                    "unknown framework"@
                },
            },
    {
        let framework = match self.registry.get_framework(framework_name) {
            Some(framework) => framework,
            None => {
                return Err(FrameworkError::PreconditionError("unknown framework".to_owned()));
            },
        };
        let offer = match framework.search_for_capability(description) {
            Some(offer) => offer,
            None => {
                return Err(FrameworkError::PreconditionError("unknown capability".to_owned()));
            },
        };
        let mut target = Target::new(
            offer.capability,
            Buffer::new(contents, filepath.to_owned(), cursor),
        );
        target.override_search_strategy(offer.search);
        framework.runnables(&target)
    }
}

} // verus!
