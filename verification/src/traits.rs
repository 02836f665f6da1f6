//! What a test framework offers, and what makes one.

use crate::enums::{Capability, Language};
use crate::errors::FrameworkError;
use crate::types::{CapabilityDetails, Command, Runnable, Target};
use vstd::prelude::*;

verus! {

/// A test framework for one language.
pub trait Framework {
    /// Whether the target is a file of this framework.
    fn detect(&self, target: &Target) -> bool;

    /// The runnables of the target, as its search mode asks.
    fn runnables(&self, target: &Target) -> Result<Vec<Runnable>, FrameworkError>;

    /// The command that runs `runnable`.
    fn generate_command(&self, runnable: Runnable) -> Command;

    /// The searches that the framework offers.
    fn capabilities(&self) -> Vec<CapabilityDetails>;

    /// The search that the framework offers under `description`.
    fn search_for_capability(&self, description: &str) -> Option<CapabilityDetails>;
}

/// What makes frameworks of one kind, and says of which kind.
pub trait FrameworkProvider {
    /// What `create` makes.
    type Made: Framework;

    /// A new framework.
    fn create(&self) -> Self::Made;

    /// The name that the framework is registered under.
    fn name(&self) -> &'static str;

    /// The language of the framework.
    fn language(&self) -> Language;

    /// What the framework can do.
    fn capability(&self) -> Capability;
}

} // verus!
