//! CorePolicy manager: a deterministic job/action state machine with a
//! priority scheduler, reducers with incrementally maintained state hashes,
//! and the policy features (preload, profiles, tweaks) built on top of it.

pub mod api;
pub mod arena;
pub mod codec;
pub mod daemon;
pub mod features;
pub mod high_level;
pub mod low_level;
pub mod machine;
pub mod mid_level;
pub mod paths;
pub mod provider;
pub mod refresh_idle;
pub mod runtime;
pub mod text;
pub mod usage_stats;

use vstd::prelude::*;
use std::collections::HashMap;
use std::collections::VecDeque;
use crate::machine::types::CauseId;

verus! {

/// Tick length of the daemon loop, in milliseconds.
pub const TICK_MS: u64 = 16;

/// Time the reactor may block: the remaining part of the current tick,
/// further shortened by a non-negative policy deadline (`-1` means none).
pub open spec fn reactor_timeout_spec(policy_timeout_ms: i32, elapsed_ms: u64) -> int {
    let tick: int = if elapsed_ms >= TICK_MS { 0 } else { TICK_MS - elapsed_ms };
    if policy_timeout_ms >= 0 && policy_timeout_ms < tick {
        policy_timeout_ms as int
    } else {
        tick
    }
}

pub fn compute_reactor_timeout_ms(policy_timeout_ms: i32, elapsed_ms: u64) -> (r: i32)
    ensures
        r == reactor_timeout_spec(policy_timeout_ms, elapsed_ms),
{
    let tick_timeout_ms: i32 = if elapsed_ms >= TICK_MS {
        0
    } else {
        (TICK_MS - elapsed_ms) as i32
    };
    if policy_timeout_ms >= 0 && policy_timeout_ms < tick_timeout_ms {
        policy_timeout_ms
    } else {
        tick_timeout_ms
    }
}

/// Why the daemon loop stopped serving actions early.
#[derive(Debug, Clone, Copy, PartialEq, Eq, Structural)]
pub enum RuntimeLimit {
    StepBudgetExceeded,
    QueueOverflow,
    ActionRepetitionExceeded,
    CauseDepthExceeded,
}

/// Daemon start-up options.
pub struct DaemonConfig {
    pub enable_warmup: bool,
    pub record_path: Option<String>,
}

/// How many action causes the trace keeps; the oldest is forgotten first.
pub const TRACE_CAPACITY: usize = 10000;

/// The parent cause of each recent action cause, by cause id.
pub struct TraceStore {
    pub parents: HashMap<u64, Option<CauseId>>,
    pub order: VecDeque<CauseId>,
}

impl TraceStore {
    pub fn new() -> (t: Self)
        ensures
            t.parents@ == Map::<u64, Option<CauseId>>::empty(),
            t.order@ == Seq::<CauseId>::empty(),
    {
        TraceStore { parents: HashMap::new(), order: VecDeque::new() }
    }

    /// Records the parent of `id`. Once more than `TRACE_CAPACITY` causes are
    /// queued, the oldest queued cause is dropped and forgotten.
    pub fn insert(&mut self, id: CauseId, parent: Option<CauseId>)
        ensures
            ({
                let parents = old(self).parents@.insert(id.0, parent);
                let order = old(self).order@.push(id);
                if order.len() > TRACE_CAPACITY {
                    &&& final(self).order@ == order.drop_first()
                    &&& final(self).parents@ == parents.remove(order[0].0)
                } else {
                    &&& final(self).order@ == order
                    &&& final(self).parents@ == parents
                }
            }),
    {
        proof {
            crate::machine::core_state::lemma_id_map_model();
        }
        self.parents.insert(id.0, parent);
        self.order.push_back(id);
        if self.order.len() > TRACE_CAPACITY {
            if let Some(old_id) = self.order.pop_front() {
                self.parents.remove(&old_id.0);
            }
        }
    }
}

} // verus!
