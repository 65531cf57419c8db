//! Cross-index consistency check of the core store: a drift detector that
//! reports what it finds instead of stopping the daemon.

use vstd::prelude::*;
use vstd::string::StringExecFns;
use vstd::std_specs::iter::IteratorSpec;
use crate::machine::core_state::{lemma_id_map_model, CoreState};
use crate::machine::execution::ExecutionState;
use crate::machine::state::JobRuntime;
use crate::machine::types::{handle_eq, Handle, JobHandle};
use crate::text::{decimal_digits, push_decimal};

verus! {

/// Both absent, or both present with the same index and generation.
pub open spec fn opt_handle_eq<T>(a: Option<Handle<T>>, b: Option<Handle<T>>) -> bool {
    match (a, b) {
        (Some(x), Some(y)) => handle_eq(x, y),
        (None, None) => true,
        _ => false,
    }
}

/// The job registered as `id` under handle `h` agrees with its runtime
/// record, and every process or IO handle it holds is indexed back to `h`.
pub open spec fn entry_consistent(core: CoreState, id: u64, h: JobHandle) -> bool {
    match core.jobs.spec_get(h.index, h.generation) {
        None => false,
        Some(job) => job.id == id && match core.spec_runtime(h) {
            None => false,
            Some(rt) => {
                &&& opt_handle_eq(job.process, rt.process)
                &&& opt_handle_eq(job.io, rt.io)
                &&& rt.process matches Some(p) ==> opt_handle_eq(CoreState::index_lookup(core.process_index@, p.index), Some(h))
                &&& rt.io matches Some(io) ==> opt_handle_eq(CoreState::index_lookup(core.io_index@, io.index), Some(h))
            },
        },
    }
}

/// The registered job `id` has a process in its runtime record.
pub open spec fn has_process(core: CoreState, id: u64) -> bool {
    core.spec_runtime(core.job_id_map@[id]) matches Some(rt) && rt.process is Some
}

/// The registered job `id` has an IO handle in its runtime record.
pub open spec fn has_io(core: CoreState, id: u64) -> bool {
    core.spec_runtime(core.job_id_map@[id]) matches Some(rt) && rt.io is Some
}

pub open spec fn process_refs(core: CoreState) -> nat {
    core.job_id_map@.dom().filter(|id: u64| has_process(core, id)).len()
}

pub open spec fn io_refs(core: CoreState) -> nat {
    core.job_id_map@.dom().filter(|id: u64| has_io(core, id)).len()
}

/// Every registered entry is consistent, the index counts match the jobs
/// that hold handles, and the kept hash matches the recomputed one.
pub open spec fn globally_consistent(core: CoreState) -> bool {
    &&& forall|id: u64| #[trigger] core.job_id_map@.contains_key(id) ==> entry_consistent(core, id, core.job_id_map@[id])
    &&& core.process_count == process_refs(core)
    &&& core.io_count == io_refs(core)
    &&& core.hash == core.full_hash()
}

/// One inconsistency, with what its report names.
pub enum Drift {
    DanglingEntry { id: u64 },
    IdMismatch { map_id: u64, stored_id: u64 },
    RuntimeOutOfRange { id: u64, index: u32 },
    RuntimeMissing { id: u64, index: u32 },
    ProcessMismatch { id: u64 },
    IoMismatch { id: u64 },
    ProcessIndexOutOfRange { id: u64, index: u32 },
    ProcessIndexDangling { id: u64, index: u32 },
    ProcessIndexMismatch { id: u64, index: u32, expected: u32, actual: u32 },
    IoIndexOutOfRange { id: u64, index: u32 },
    IoIndexDangling { id: u64, index: u32 },
    IoIndexMismatch { id: u64, index: u32, expected: u32, actual: u32 },
    ProcessCountDrift { expected: usize, actual: usize },
    IoCountDrift { expected: usize, actual: usize },
    HashDrift { expected: u64, actual: u64 },
}

/// The live job under the handle registered as `id`.
pub open spec fn entry_job(core: CoreState, id: u64) -> Option<crate::machine::state::JobState> {
    core.jobs.spec_get(core.job_id_map@[id].index, core.job_id_map@[id].generation)
}

/// The runtime record in the slot of the handle registered as `id`.
pub open spec fn entry_runtime(core: CoreState, id: u64) -> Option<JobRuntime> {
    core.spec_runtime(core.job_id_map@[id])
}

/// The process handle in the runtime record of `id`.
pub open spec fn entry_process_index(core: CoreState, id: u64) -> Option<u32> {
    match entry_runtime(core, id) {
        Some(rt) => match rt.process {
            Some(p) => Some(p.index),
            None => None,
        },
        None => None,
    }
}

/// The IO handle in the runtime record of `id`.
pub open spec fn entry_io_index(core: CoreState, id: u64) -> Option<u32> {
    match entry_runtime(core, id) {
        Some(rt) => match rt.io {
            Some(p) => Some(p.index),
            None => None,
        },
        None => None,
    }
}

/// The inconsistency `d` is present in `core`.
pub open spec fn drift_holds(core: CoreState, d: Drift) -> bool {
    let m = core.job_id_map@;
    match d {
        Drift::DanglingEntry { id } => m.contains_key(id) && entry_job(core, id) is None,
        Drift::IdMismatch { map_id, stored_id } => {
            &&& m.contains_key(map_id)
            &&& entry_job(core, map_id) is Some
            &&& entry_job(core, map_id).unwrap().id == stored_id
            &&& stored_id != map_id
        },
        Drift::RuntimeOutOfRange { id, index } => m.contains_key(id) && m[id].index == index && index >= core.runtime@.len(),
        Drift::RuntimeMissing { id, index } => {
            &&& m.contains_key(id)
            &&& m[id].index == index
            &&& index < core.runtime@.len()
            &&& core.runtime@[index as int] is None
        },
        Drift::ProcessMismatch { id } => {
            &&& m.contains_key(id)
            &&& entry_job(core, id) is Some
            &&& entry_runtime(core, id) is Some
            &&& !opt_handle_eq(entry_job(core, id).unwrap().process, entry_runtime(core, id).unwrap().process)
        },
        Drift::IoMismatch { id } => {
            &&& m.contains_key(id)
            &&& entry_job(core, id) is Some
            &&& entry_runtime(core, id) is Some
            &&& !opt_handle_eq(entry_job(core, id).unwrap().io, entry_runtime(core, id).unwrap().io)
        },
        Drift::ProcessIndexOutOfRange { id, index } => {
            &&& m.contains_key(id)
            &&& entry_process_index(core, id) == Some(index)
            &&& index >= core.process_index@.len()
        },
        Drift::ProcessIndexDangling { id, index } => {
            &&& m.contains_key(id)
            &&& entry_process_index(core, id) == Some(index)
            &&& index < core.process_index@.len()
            &&& core.process_index@[index as int] is None
        },
        Drift::ProcessIndexMismatch { id, index, expected, actual } => {
            &&& m.contains_key(id)
            &&& entry_process_index(core, id) == Some(index)
            &&& index < core.process_index@.len()
            &&& core.process_index@[index as int] is Some
            &&& !handle_eq(core.process_index@[index as int].unwrap(), m[id])
            &&& expected == m[id].index
            &&& actual == core.process_index@[index as int].unwrap().index
        },
        Drift::IoIndexOutOfRange { id, index } => {
            &&& m.contains_key(id)
            &&& entry_io_index(core, id) == Some(index)
            &&& index >= core.io_index@.len()
        },
        Drift::IoIndexDangling { id, index } => {
            &&& m.contains_key(id)
            &&& entry_io_index(core, id) == Some(index)
            &&& index < core.io_index@.len()
            &&& core.io_index@[index as int] is None
        },
        Drift::IoIndexMismatch { id, index, expected, actual } => {
            &&& m.contains_key(id)
            &&& entry_io_index(core, id) == Some(index)
            &&& index < core.io_index@.len()
            &&& core.io_index@[index as int] is Some
            &&& !handle_eq(core.io_index@[index as int].unwrap(), m[id])
            &&& expected == m[id].index
            &&& actual == core.io_index@[index as int].unwrap().index
        },
        Drift::ProcessCountDrift { expected, actual } => expected == core.process_count && actual == process_refs(core)
            && expected != actual,
        Drift::IoCountDrift { expected, actual } => expected == core.io_count && actual == io_refs(core) && expected
            != actual,
        Drift::HashDrift { expected, actual } => expected == core.full_hash() && actual == core.hash && expected
            != actual,
    }
}

pub open spec fn dec(n: int) -> Seq<char> {
    decimal_digits(n as nat)
}

/// The report for an inconsistency.
pub open spec fn drift_text(d: Drift) -> Seq<char> {
    match d {
        Drift::DanglingEntry { id } => "dangling job_id_map entry id="@ + dec(id as int),
        Drift::IdMismatch { map_id, stored_id } => "job id mismatch map_id="@ + dec(map_id as int) + " stored_id="@ + dec(
            stored_id as int,
        ),
        Drift::RuntimeOutOfRange { index, .. } => "missing runtime vector entry index="@ + dec(index as int),
        Drift::RuntimeMissing { index, .. } => "job missing runtime mapping index="@ + dec(index as int),
        Drift::ProcessMismatch { id } => "job process handle mismatch id="@ + dec(id as int),
        Drift::IoMismatch { id } => "job io handle mismatch id="@ + dec(id as int),
        Drift::ProcessIndexOutOfRange { index, .. } => "missing process vector entry index="@ + dec(index as int),
        Drift::ProcessIndexDangling { index, .. } => "process index dangling index="@ + dec(index as int),
        Drift::ProcessIndexMismatch { index, expected, actual, .. } => "process index mismatch process_index="@ + dec(
            index as int,
        ) + " expected_job_index="@ + dec(expected as int) + " actual_job_index="@ + dec(actual as int),
        Drift::IoIndexOutOfRange { index, .. } => "missing io vector entry index="@ + dec(index as int),
        Drift::IoIndexDangling { index, .. } => "io index dangling index="@ + dec(index as int),
        Drift::IoIndexMismatch { index, expected, actual, .. } => "io index mismatch io_index="@ + dec(index as int)
            + " expected_job_index="@ + dec(expected as int) + " actual_job_index="@ + dec(actual as int),
        Drift::ProcessCountDrift { expected, actual } => "process count drift expected="@ + dec(expected as int)
            + " actual="@ + dec(actual as int),
        Drift::IoCountDrift { expected, actual } => "io count drift expected="@ + dec(expected as int) + " actual="@
            + dec(actual as int),
        Drift::HashDrift { expected, actual } => "core hash drift expected="@ + dec(expected as int) + " actual="@ + dec(
            actual as int,
        ),
    }
}

fn same_opt<T>(a: Option<Handle<T>>, b: Option<Handle<T>>) -> (r: bool)
    ensures
        r == opt_handle_eq(a, b),
{
    match (a, b) {
        (Some(x), Some(y)) => x.index == y.index && x.generation == y.generation,
        (None, None) => true,
        _ => false,
    }
}

/// Checks one registered entry, in the order: live job, stored id, runtime
/// record, handles, process index, IO index.
fn check_entry(core: &CoreState, id: u64, h: JobHandle) -> (r: Option<Drift>)
    requires
        core.job_id_map@.contains_key(id),
        core.job_id_map@[id] == h,
    ensures
        r is None <==> entry_consistent(*core, id, h),
        r matches Some(d) ==> drift_holds(*core, d),
{
    let job = match core.jobs.get(h.index, h.generation) {
        Some(j) => j,
        None => {
            return Some(Drift::DanglingEntry { id });
        },
    };
    if id != job.id {
        return Some(Drift::IdMismatch { map_id: id, stored_id: job.id });
    }
    let i = h.index as usize;
    if i >= core.runtime.len() {
        return Some(Drift::RuntimeOutOfRange { id, index: h.index });
    }
    let rt = match &core.runtime[i] {
        Some(rt) => *rt,
        None => {
            return Some(Drift::RuntimeMissing { id, index: h.index });
        },
    };
    if !same_opt(job.process, rt.process) {
        return Some(Drift::ProcessMismatch { id: job.id });
    }
    if !same_opt(job.io, rt.io) {
        return Some(Drift::IoMismatch { id: job.id });
    }
    if let Some(p) = rt.process {
        let pi = p.index as usize;
        if pi >= core.process_index.len() {
            return Some(Drift::ProcessIndexOutOfRange { id, index: p.index });
        }
        match core.process_index[pi] {
            None => {
                return Some(Drift::ProcessIndexDangling { id, index: p.index });
            },
            Some(g) => {
                if !(g.index == h.index && g.generation == h.generation) {
                    return Some(Drift::ProcessIndexMismatch { id, index: p.index, expected: h.index, actual: g.index });
                }
            },
        }
    }
    if let Some(io) = rt.io {
        let ii = io.index as usize;
        if ii >= core.io_index.len() {
            return Some(Drift::IoIndexOutOfRange { id, index: io.index });
        }
        match core.io_index[ii] {
            None => {
                return Some(Drift::IoIndexDangling { id, index: io.index });
            },
            Some(g) => {
                if !(g.index == h.index && g.generation == h.generation) {
                    return Some(Drift::IoIndexMismatch { id, index: io.index, expected: h.index, actual: g.index });
                }
            },
        }
    }
    None
}

/// How many of the keys satisfy `p`.
pub open spec fn count_keys(ks: Seq<u64>, p: spec_fn(u64) -> bool) -> nat
    decreases ks.len(),
{
    if ks.len() == 0 {
        0
    } else {
        count_keys(ks.drop_last(), p) + if p(ks.last()) { 1nat } else { 0nat }
    }
}

/// Counting distinct keys one by one counts the set they form.
pub proof fn lemma_count_keys_set(ks: Seq<u64>, p: spec_fn(u64) -> bool)
    requires
        ks.no_duplicates(),
    ensures
        count_keys(ks, p) == ks.to_set().filter(p).len(),
        ks.to_set().filter(p).finite(),
    decreases ks.len(),
{
    broadcast use vstd::set::group_set_axioms;
    broadcast use vstd::seq_lib::group_seq_properties;

    if ks.len() == 0 {
        assert(ks.to_set().filter(p) =~= Set::<u64>::empty());
    } else {
        let init = ks.drop_last();
        let x = ks.last();
        assert(init.no_duplicates()) by {
            assert forall|i: int, j: int| 0 <= i < init.len() && 0 <= j < init.len() && i != j implies init[i] != init[j] by {
                assert(init[i] == ks[i] && init[j] == ks[j]);
            }
        }
        lemma_count_keys_set(init, p);
        assert(ks =~= init.push(x));
        assert(ks.to_set() =~= init.to_set().insert(x));
        assert(!init.to_set().contains(x)) by {
            if init.contains(x) {
                let i = choose|i: int| 0 <= i < init.len() && init[i] == x;
                assert(ks[i] == ks[ks.len() - 1]);
            }
        }
        if p(x) {
            assert(ks.to_set().filter(p) =~= init.to_set().filter(p).insert(x));
        } else {
            assert(ks.to_set().filter(p) =~= init.to_set().filter(p));
        }
    }
}

/// Looks for an inconsistency: every registered entry first (in the map's
/// walk order), then the two index counts, then the hash.
pub fn find_drift(state: &ExecutionState) -> (r: Option<Drift>)
    ensures
        r is None <==> globally_consistent(state.core),
        r matches Some(d) ==> drift_holds(state.core, d),
{
    broadcast use vstd::std_specs::hash::group_hash_axioms;

    proof {
        lemma_id_map_model();
    }
    let core = &state.core;
    let ghost m = core.job_id_map@;
    let n = core.job_id_map.len();
    let mut pc: usize = 0;
    let mut ic: usize = 0;
    let entries = core.job_id_map.iter();
    let ghost rem = entries.remaining();
    let ghost ks = rem.map_values(|kv: (&u64, &JobHandle)| *kv.0);
    let ghost hp = |id: u64| has_process(*core, id);
    let ghost hi = |id: u64| has_io(*core, id);
    proof {
        assert(ks.take(ks.len() as int) =~= ks);
    }
    for kv in it: entries
        invariant
            it.seq() == rem,
            rem == vstd::std_specs::hash::spec_hash_map_iter(&core.job_id_map).remaining(),
            ks == rem.map_values(|kv: (&u64, &JobHandle)| *kv.0),
            ks.take(ks.len() as int) == ks,
            *core == state.core,
            m == core.job_id_map@,
            n == m.len(),
            hp == (|id: u64| has_process(*core, id)),
            hi == (|id: u64| has_io(*core, id)),
            forall|i: int| 0 <= i < it.index() ==> #[trigger] entry_consistent(*core, ks[i], m[ks[i]]),
            pc == count_keys(ks.take(it.index()), hp),
            ic == count_keys(ks.take(it.index()), hi),
            pc <= it.index(),
            ic <= it.index(),
        ensures
            forall|i: int| 0 <= i < rem.len() ==> #[trigger] entry_consistent(*core, ks[i], m[ks[i]]),
            pc == count_keys(ks, hp),
            ic == count_keys(ks, hi),
    {
        let (id, h) = kv;
        let ghost idx = it.index();
        proof {
            assert(rem[idx] == (id, h));
            assert(m.contains_key(*id) && m[*id] == *h);
            assert(ks[idx] == *id);
        }
        match check_entry(core, *id, *h) {
            Some(d) => {
                proof {
                    assert(!entry_consistent(state.core, *id, m[*id]));
                    assert(state.core.job_id_map@.contains_key(*id));
                }
                return Some(d);
            },
            None => {},
        }
        let rt = core.runtime[h.index as usize].unwrap();
        proof {
            assert(ks.take(idx + 1).drop_last() =~= ks.take(idx));
            assert(ks.take(idx + 1).last() == *id);
        }
        if rt.process.is_some() {
            pc = pc + 1;
        }
        if rt.io.is_some() {
            ic = ic + 1;
        }
    }
    proof {
        assert(ks.take(rem.len() as int) =~= ks);
        assert(ks.no_duplicates()) by {
            assert forall|i: int, j: int| 0 <= i < ks.len() && 0 <= j < ks.len() && i != j implies ks[i] != ks[j] by {
                if ks[i] == ks[j] {
                    assert(m[*rem[i].0] == *rem[i].1);
                    assert(m[*rem[j].0] == *rem[j].1);
                    assert(rem[i] == rem[j]);
                }
            }
        }
        assert(ks.to_set() =~= m.dom()) by {
            assert forall|k: u64| m.dom().contains(k) implies ks.to_set().contains(k) by {
                assert(rem.contains((&k, &m[k])));
                let i = choose|i: int| 0 <= i < rem.len() && rem[i] == (&k, &m[k]);
                assert(ks[i] == k);
                assert(ks.contains(k));
            }
            assert forall|k: u64| ks.to_set().contains(k) implies m.dom().contains(k) by {
                assert(ks.contains(k));
                let i = choose|i: int| 0 <= i < ks.len() && ks[i] == k;
                assert(m.contains_key(*rem[i].0));
            }
        }
        lemma_count_keys_set(ks, hp);
        lemma_count_keys_set(ks, hi);
        assert(m.dom().filter(hp) =~= m.dom().filter(|id: u64| has_process(state.core, id)));
        assert(m.dom().filter(hi) =~= m.dom().filter(|id: u64| has_io(state.core, id)));
        assert(pc == process_refs(state.core));
        assert(ic == io_refs(state.core));
        assert forall|id: u64| #[trigger] m.contains_key(id) implies entry_consistent(*core, id, m[id]) by {
            assert(ks.to_set().contains(id));
            assert(ks.contains(id));
            let i = choose|i: int| 0 <= i < ks.len() && ks[i] == id;
            assert(entry_consistent(*core, ks[i], m[ks[i]]));
        }
    }
    if core.process_count != pc {
        return Some(Drift::ProcessCountDrift { expected: core.process_count, actual: pc });
    }
    if core.io_count != ic {
        return Some(Drift::IoCountDrift { expected: core.io_count, actual: ic });
    }
    let recomputed = core.recompute_hash_full();
    if core.hash != recomputed {
        return Some(Drift::HashDrift { expected: recomputed, actual: core.hash });
    }
    None
}

/// Verifies the cross-index invariants of the state, reporting the first
/// inconsistency found as an error message instead of panicking.
pub fn verify_global(state: &ExecutionState) -> (r: Result<(), String>)
    ensures
        r is Ok <==> globally_consistent(state.core),
        r matches Err(msg) ==> exists|d: Drift| drift_holds(state.core, d) && msg@ == drift_text(d),
{
    match find_drift(state) {
        Some(d) => Err(d.message()),
        None => Ok(()),
    }
}

fn text_num(prefix: &str, n: u64) -> (r: String)
    ensures
        r@ == prefix@ + decimal_digits(n as nat),
{
    let mut s = String::from_str(prefix);
    push_decimal(&mut s, n);
    s
}

fn text_num2(prefix: &str, a: u64, mid: &str, b: u64) -> (r: String)
    ensures
        r@ == prefix@ + decimal_digits(a as nat) + mid@ + decimal_digits(b as nat),
{
    let mut s = text_num(prefix, a);
    s.append(mid);
    push_decimal(&mut s, b);
    s
}

fn text_num3(prefix: &str, a: u64, mid: &str, b: u64, mid2: &str, c: u64) -> (r: String)
    ensures
        r@ == prefix@ + decimal_digits(a as nat) + mid@ + decimal_digits(b as nat) + mid2@ + decimal_digits(c as nat),
{
    let mut s = text_num2(prefix, a, mid, b);
    s.append(mid2);
    push_decimal(&mut s, c);
    s
}

impl Drift {
    /// The report for this inconsistency.
    pub fn message(&self) -> (r: String)
        ensures
            r@ == drift_text(*self),
    {
        match self {
            Drift::DanglingEntry { id } => text_num("dangling job_id_map entry id=", *id),
            Drift::IdMismatch { map_id, stored_id } => text_num2("job id mismatch map_id=", *map_id, " stored_id=", *stored_id),
            Drift::RuntimeOutOfRange { index, .. } => text_num("missing runtime vector entry index=", *index as u64),
            Drift::RuntimeMissing { index, .. } => text_num("job missing runtime mapping index=", *index as u64),
            Drift::ProcessMismatch { id } => text_num("job process handle mismatch id=", *id),
            Drift::IoMismatch { id } => text_num("job io handle mismatch id=", *id),
            Drift::ProcessIndexOutOfRange { index, .. } => text_num("missing process vector entry index=", *index as u64),
            Drift::ProcessIndexDangling { index, .. } => text_num("process index dangling index=", *index as u64),
            Drift::ProcessIndexMismatch { index, expected, actual, .. } => text_num3(
                "process index mismatch process_index=",
                *index as u64,
                " expected_job_index=",
                *expected as u64,
                " actual_job_index=",
                *actual as u64,
            ),
            Drift::IoIndexOutOfRange { index, .. } => text_num("missing io vector entry index=", *index as u64),
            Drift::IoIndexDangling { index, .. } => text_num("io index dangling index=", *index as u64),
            Drift::IoIndexMismatch { index, expected, actual, .. } => text_num3(
                "io index mismatch io_index=",
                *index as u64,
                " expected_job_index=",
                *expected as u64,
                " actual_job_index=",
                *actual as u64,
            ),
            Drift::ProcessCountDrift { expected, actual } => text_num2(
                "process count drift expected=",
                *expected as u64,
                " actual=",
                *actual as u64,
            ),
            Drift::IoCountDrift { expected, actual } => text_num2("io count drift expected=", *expected as u64, " actual=", *actual as u64),
            Drift::HashDrift { expected, actual } => text_num2("core hash drift expected=", *expected, " actual=", *actual),
        }
    }
}

} // verus!
