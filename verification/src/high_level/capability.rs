//! Capability tokens: which action kinds a principal may ask for.

use vstd::prelude::*;
use std::collections::HashMap;
use crate::high_level::identity::Principal;
use crate::machine::types::{kind_index_spec, ActionKind};

verus! {

/// A bit set of restricted action kinds: bit `k` set forbids the kind with index `k`.
#[derive(Clone, Copy, Debug)]
pub struct CapabilityToken {
    pub restricted_actions: u64,
}

/// Whether a token with these restrictions lets a principal ask for `kind`.
pub open spec fn token_allows(restricted: u64, kind: ActionKind) -> bool {
    restricted & (1u64 << (kind_index_spec(kind) as u64)) == 0
}

impl CapabilityToken {
    /// A token that forbids everything.
    pub fn empty() -> (t: Self)
        ensures
            t.restricted_actions == u64::MAX,
    {
        assert(!0u64 == 0xffff_ffff_ffff_ffffu64) by (bit_vector);
        CapabilityToken { restricted_actions: !0u64 }
    }

    /// A token that forbids nothing.
    pub fn allow_all() -> (t: Self)
        ensures
            t.restricted_actions == 0,
    {
        CapabilityToken { restricted_actions: 0 }
    }

    pub fn new(restricted_bits: u64) -> (t: Self)
        ensures
            t.restricted_actions == restricted_bits,
    {
        CapabilityToken { restricted_actions: restricted_bits }
    }

    pub fn allows(&self, kind: ActionKind) -> (r: bool)
        ensures
            r == token_allows(self.restricted_actions, kind),
    {
        let k = kind.index() as u64;
        let bit = 1u64 << k;
        (self.restricted_actions & bit) == 0
    }
}

/// Tokens by uid; a uid without a token may do nothing.
pub struct CapabilityRegistry {
    pub map: HashMap<u32, CapabilityToken>,
}

/// The uid a principal acts as: 0 for the system.
pub open spec fn principal_uid(p: Principal) -> u32 {
    match p {
        Principal::System => 0,
        Principal::User(u) => u,
        Principal::Addon(u) => u,
    }
}

proof fn lemma_uid_map_model()
    ensures
        vstd::std_specs::hash::obeys_key_model::<u32>(),
        vstd::std_specs::hash::builds_valid_hashers::<std::collections::hash_map::RandomState>(),
{
    broadcast use vstd::std_specs::hash::group_hash_axioms;
}

impl CapabilityRegistry {
    pub fn new() -> (r: Self)
        ensures
            r.map@ == Map::<u32, CapabilityToken>::empty(),
    {
        CapabilityRegistry { map: HashMap::new() }
    }

    pub fn get(&self, uid: u32) -> (r: Option<&CapabilityToken>)
        ensures
            match r {
                Some(t) => self.map@.contains_key(uid) && self.map@[uid] == *t,
                None => !self.map@.contains_key(uid),
            },
    {
        proof {
            lemma_uid_map_model();
        }
        self.map.get(&uid)
    }

    pub fn insert(&mut self, uid: u32, token: CapabilityToken)
        ensures
            final(self).map@ == old(self).map@.insert(uid, token),
    {
        proof {
            lemma_uid_map_model();
        }
        self.map.insert(uid, token);
    }

    /// Whether `principal` may ask for `kind`: its uid has a token that allows it.
    pub fn allows(&self, principal: &Principal, kind: ActionKind) -> (r: bool)
        ensures
            r == (self.map@.contains_key(principal_uid(*principal)) && token_allows(
                self.map@[principal_uid(*principal)].restricted_actions,
                kind,
            )),
    {
        let uid = match principal {
            Principal::System => 0,
            Principal::User(u) => *u,
            Principal::Addon(u) => *u,
        };
        match self.get(uid) {
            Some(token) => token.allows(kind),
            None => false,
        }
    }
}

} // verus!
