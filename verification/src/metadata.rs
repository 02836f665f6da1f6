//! What a runnable carries besides its name and place, by language.

use crate::text::{clone_strings, lemma_texts_add, texts};
use vstd::prelude::*;

verus! {

/// What is known of a runnable beyond its name and place.
#[derive(Debug)]
pub enum RunnableMeta {
    /// A Go test: its package, and the groups of build tags that its file
    /// asks for, in order.
    Golang { package: String, build_tags: Vec<String> },
}

/// The metadata of a Go test, read out.
#[derive(Debug)]
pub struct Meta {
    pub package: String,
    pub build_tags: Vec<String>,
}

/// `Meta` and `RunnableMeta` over sequences of characters.
pub struct MetaView {
    pub package: Seq<char>,
    pub build_tags: Seq<Seq<char>>,
}

impl View for Meta {
    type V = MetaView;

    open spec fn view(&self) -> MetaView {
        MetaView { package: self.package@, build_tags: texts(self.build_tags@) }
    }
}

impl View for RunnableMeta {
    type V = MetaView;

    open spec fn view(&self) -> MetaView {
        match self {
            RunnableMeta::Golang { package, build_tags } => MetaView {
                package: package@,
                build_tags: texts(build_tags@),
            },
        }
    }
}

impl Clone for RunnableMeta {
    fn clone(&self) -> (out: RunnableMeta)
        ensures
            out@ == self@,
    {
        match self {
            RunnableMeta::Golang { package, build_tags } => RunnableMeta::Golang {
                package: package.clone(),
                build_tags: clone_strings(build_tags),
            },
        }
    }
}

impl RunnableMeta {
    /// The metadata of a Go test of which nothing is known yet.
    pub fn default_golang() -> (meta: RunnableMeta)
        ensures
            meta@ == (MetaView { package: Seq::empty(), build_tags: Seq::empty() }),
    {
        let meta = RunnableMeta::Golang { package: String::new(), build_tags: Vec::new() };
        assert(meta@.build_tags =~= Seq::empty());
        meta
    }

    /// Adds `tags` behind the groups that are there.
    pub fn extend_build_tags(&mut self, tags: Vec<String>)
        ensures
            final(self)@.package == old(self)@.package,
            final(self)@.build_tags == old(self)@.build_tags + texts(tags@),
    {
        let mut tags = tags;
        match self {
            RunnableMeta::Golang { build_tags, .. } => {
                proof {
                    lemma_texts_add(build_tags@, tags@);
                }
                build_tags.append(&mut tags);
            },
        }
    }

    /// Adds the one group `tags` behind the groups that are there.
    pub fn set_build_tags(&mut self, tags: String)
        ensures
            final(self)@.package == old(self)@.package,
            final(self)@.build_tags == old(self)@.build_tags.push(tags@),
    {
        match self {
            RunnableMeta::Golang { build_tags, .. } => {
                proof {
                    crate::text::lemma_texts_push(build_tags@, tags);
                }
                build_tags.push(tags);
            },
        }
    }

    /// The metadata of a Go test, read out.
    pub fn get_meta(&self) -> (meta: Option<Meta>)
        ensures
            meta is Some,
            meta->0@ == self@,
    {
        match self {
            RunnableMeta::Golang { package, build_tags } => Some(
                Meta { package: package.clone(), build_tags: clone_strings(build_tags) },
            ),
        }
    }
}

} // verus!
