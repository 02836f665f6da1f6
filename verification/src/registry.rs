//! The frameworks that an engine knows, by name.

use crate::enums::{Capability, Language};
use crate::gotest::{gotest_offers, GotestProvider};
use crate::text::{chars_of, lemma_texts_push, same_chars, texts};
use crate::traits::FrameworkProvider;
use vstd::prelude::*;

verus! {

/// The name that every provider of `go test` is registered under.
pub open spec fn gotest_name() -> Seq<char> {
    "GoTest"@
}

/// The providers of frameworks, each under its name. The set of
/// frameworks is closed: `go test` is the only one.
pub struct FrameworkRegistry {
    providers: Vec<GotestProvider>,
}

impl FrameworkRegistry {
    /// The names under which a provider is registered, in the order of
    /// registration.
    pub closed spec fn names(self) -> Seq<Seq<char>> {
        Seq::new(self.providers@.len(), |i: int| gotest_name())
    }

    #[verifier::type_invariant]
    spec fn one_provider_per_name(self) -> bool {
        self.providers@.len() <= 1
    }

    /// A registry without providers.
    pub fn new() -> (registry: Self)
        ensures
            registry.names() == Seq::<Seq<char>>::empty(),
    {
        let registry = FrameworkRegistry { providers: Vec::new() };
        assert(registry.names() =~= Seq::empty());
        registry
    }

    /// Registers `provider` under its name. A provider that was
    /// registered under that name gives way to it.
    pub fn register(&mut self, provider: GotestProvider)
        ensures
            final(self).names() == seq![gotest_name()],
    {
        let mut providers: Vec<GotestProvider> = Vec::new();
        providers.push(provider);
        *self = FrameworkRegistry { providers };
        assert(self.names() =~= seq![gotest_name()]);
    }

    /// A new framework of the provider registered under `name`.
    pub fn get_framework(&self, name: &str) -> (framework: Option<GotestProvider>)
        ensures
            framework is Some == self.names().contains(name@),
            framework matches Some(made) ==> made.offers() == gotest_offers(),
    {
        let wanted = chars_of(name);
        let mut i: usize = 0;
        while i < self.providers.len()
            invariant
                i <= self.providers.len(),
                wanted@ == name@,
                name@ != gotest_name() || i == 0,
            decreases self.providers.len() - i,
        {
            if same_chars(&chars_of(self.providers[i].name()), &wanted) {
                assert(self.names()[i as int] == name@);
                return Some(self.providers[i].create());
            }
            i += 1;
        }
        assert(!self.names().contains(name@)) by {
            if self.names().contains(name@) {
                let k = choose|k: int| 0 <= k < self.names().len() && self.names()[k] == name@;
                assert(self.names()[k] == gotest_name());
            }
        }
        None
    }

    /// The names under which a provider is registered.
    pub fn get_provider_names(&self) -> (names: Vec<String>)
        ensures
            texts(names@) == self.names(),
    {
        let mut names: Vec<String> = Vec::new();
        let mut i: usize = 0;
        assert(texts(names@) =~= self.names().take(0));
        while i < self.providers.len()
            invariant
                i <= self.providers.len(),
                texts(names@) == self.names().take(i as int),
            decreases self.providers.len() - i,
        {
            let name = self.providers[i].name().to_owned();
            proof {
                lemma_texts_push(names@, name);
                assert(self.names().take(i + 1) =~= self.names().take(i as int).push(name@));
            }
            names.push(name);
            i += 1;
        }
        assert(self.names().take(self.providers.len() as int) =~= self.names());
        names
    }

    /// New frameworks of the providers for `capability` and `lang`: one
    /// for each registered provider where a test runner for Go is asked
    /// for, none else.
    pub fn get_frameworks_by_category_and_language(&self, capability: Capability, lang: Language) -> (frameworks:
        Vec<GotestProvider>)
        ensures
            frameworks@.len() == if capability == Capability::TestRunner && lang
                == Language::Golang {
                self.names().len()
            } else {
                0
            },
            forall|i: int|
                0 <= i < frameworks@.len() ==> (#[trigger] frameworks@[i]).offers()
                    == gotest_offers(),
    {
        let mut frameworks: Vec<GotestProvider> = Vec::new();
        let mut i: usize = 0;
        while i < self.providers.len()
            invariant
                i <= self.providers.len(),
                frameworks@.len() == if capability == Capability::TestRunner && lang
                    == Language::Golang {
                    i as int
                } else {
                    0
                },
                forall|k: int|
                    0 <= k < frameworks@.len() ==> (#[trigger] frameworks@[k]).offers()
                        == gotest_offers(),
            decreases self.providers.len() - i,
        {
            let provider = &self.providers[i];
            if provider.capability() == capability && provider.language() == lang {
                frameworks.push(provider.create());
            }
            i += 1;
        }
        frameworks
    }
}

} // verus!
