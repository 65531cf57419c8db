//! Addon registration records and the trivial addons.

use vstd::prelude::*;
use crate::high_level::capability::CapabilityToken;
use crate::high_level::identity::Request;
use crate::machine::state_view::StateView;
use crate::machine::types::Event;

verus! {

/// A registered addon: its id, what it may ask for, and its per-tick budget.
pub struct AddonSpec {
    pub id: u32,
    pub capability: CapabilityToken,
    pub max_actions_per_tick: u32,
}

/// An addon that never asks for anything.
pub struct NoOpAddon;

impl NoOpAddon {
    pub fn on_core_event<S: StateView>(&mut self, state: &S, event: &Event) -> (r: Vec<Request>)
        ensures
            r@.len() == 0,
    {
        Vec::new()
    }
}

/// An addon that answers nothing yet; kept as the minimal example.
pub struct EchoAddon;

impl EchoAddon {
    pub fn on_core_event<S: StateView>(&mut self, state: &S, event: &Event) -> (r: Vec<Request>)
        ensures
            r@.len() == 0,
    {
        Vec::new()
    }
}

} // verus!
