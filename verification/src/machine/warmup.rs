//! Bookkeeping of package warmups: when each package was last warmed up or
//! last failed, where its files live, and which warmups are in flight.

use vstd::prelude::*;

verus! {

pub struct WarmupState {
    pub dedup_cache: Vec<(String, u64)>,
    pub negative_cache: Vec<(String, u64)>,
    pub package_map: Vec<(String, String)>,
    pub in_flight: Vec<String>,
    pub hash: u64,
}

impl WarmupState {
    /// Nothing warmed up, failed, resolved or in flight.
    pub fn new() -> (s: Self)
        ensures
            s.dedup_cache@.len() == 0,
            s.negative_cache@.len() == 0,
            s.package_map@.len() == 0,
            s.in_flight@.len() == 0,
            s.hash == 0,
    {
        WarmupState {
            dedup_cache: Vec::new(),
            negative_cache: Vec::new(),
            package_map: Vec::new(),
            in_flight: Vec::new(),
            hash: 0,
        }
    }
}

impl Default for WarmupState {
    fn default() -> (s: Self)
        ensures
            s.dedup_cache@.len() == 0,
            s.negative_cache@.len() == 0,
            s.package_map@.len() == 0,
            s.in_flight@.len() == 0,
            s.hash == 0,
    {
        WarmupState::new()
    }
}

} // verus!
