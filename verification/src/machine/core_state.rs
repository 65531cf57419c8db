//! Job storage and its cross indexes.
//!
//! `job_id_map`, the job arena and `runtime` agree for every live job;
//! `process_index` and `io_index` point back into the jobs; `hash` is kept
//! equal, operation by operation, to the hash recomputed from scratch, so
//! that replay and verification can detect drift.

use vstd::prelude::*;
use std::collections::HashMap;
use crate::arena::{Arena, ArenaSlot};
use crate::machine::state::{
    io_state_code, lifecycle_code, JobIoState, JobLifecycle, JobRuntime, JobState,
};
use crate::machine::types::{ExecPolicy, ExecSpec, Handle, IoHandle, JobHandle, ProcessHandle};

verus! {

broadcast use vstd::std_specs::hash::group_hash_axioms;

pub const K: u64 = 0x9E3779B97F4A7C15;

pub const PROCESS_COUNT_KEY: u64 = 0xA1;

pub const IO_COUNT_KEY: u64 = 0xB2;

/// `a * K` (wrapping) xor `b`.
pub open spec fn mix_spec(a: u64, b: u64) -> u64 {
    (((a as nat) * (K as nat)) % 0x1_0000_0000_0000_0000nat) as u64 ^ b
}

pub fn mix(a: u64, b: u64) -> (r: u64)
    ensures
        r == mix_spec(a, b),
{
    a.wrapping_mul(K) ^ b
}

/// Hash of one job record: its id, owner, lifecycle and IO state, its
/// timeout flag and the indexes of its process and IO handles.
pub open spec fn hash_job_spec(job: JobState) -> u64 {
    let h0 = 0u64 ^ mix_spec(1, job.id);
    let h1 = h0 ^ mix_spec(2, job.owner as u64);
    let h2 = h1 ^ mix_spec(3, lifecycle_code(job.lifecycle));
    let h3 = h2 ^ mix_spec(4, io_state_code(job.io_state));
    let h4 = if job.timed_out { h3 ^ mix_spec(5, 1) } else { h3 };
    let h5 = match job.process {
        Some(p) => h4 ^ mix_spec(6, p.index as u64),
        None => h4,
    };
    match job.io {
        Some(io) => h5 ^ mix_spec(7, io.index as u64),
        None => h5,
    }
}

pub fn hash_job(job: &JobState) -> (r: u64)
    ensures
        r == hash_job_spec(*job),
{
    let mut h: u64 = 0;
    h = h ^ mix(1, job.id);
    h = h ^ mix(2, job.owner as u64);
    h = h ^ mix(3, job.lifecycle.code());
    h = h ^ mix(4, job.io_state.code());
    if job.timed_out {
        h = h ^ mix(5, 1);
    }
    if let Some(p) = job.process {
        h = h ^ mix(6, p.index as u64);
    }
    if let Some(io) = job.io {
        h = h ^ mix(7, io.index as u64);
    }
    h
}

/// Contribution of one arena slot to the full hash.
pub open spec fn slot_term(s: ArenaSlot<JobState>) -> u64 {
    match s.value {
        Some(j) => mix_spec(j.id, hash_job_spec(j)),
        None => 0,
    }
}

/// Xor of the terms of all live job slots.
pub open spec fn jobs_hash(slots: Seq<ArenaSlot<JobState>>) -> u64
    decreases slots.len(),
{
    if slots.len() == 0 {
        0
    } else {
        jobs_hash(slots.drop_last()) ^ slot_term(slots.last())
    }
}

/// Contribution of index entry `i` to the full hash.
pub open spec fn index_term(i: int, e: Option<JobHandle>) -> u64 {
    match e {
        Some(h) => mix_spec(i as u64, h.index as u64),
        None => 0,
    }
}

/// Xor of the terms of all occupied entries of a process or IO index.
pub open spec fn index_hash(v: Seq<Option<JobHandle>>) -> u64
    decreases v.len(),
{
    if v.len() == 0 {
        0
    } else {
        index_hash(v.drop_last()) ^ index_term(v.len() - 1, v.last())
    }
}

/// Number of occupied entries of an index.
pub open spec fn count_some(v: Seq<Option<JobHandle>>) -> nat
    decreases v.len(),
{
    if v.len() == 0 {
        0
    } else {
        count_some(v.drop_last()) + if v.last() is Some { 1nat } else { 0nat }
    }
}

/// The five parts of the full hash, combined in recomputation order.
pub open spec fn combine(j: u64, p: u64, pc: u64, i: u64, ic: u64) -> u64 {
    (((j ^ p) ^ pc) ^ i) ^ ic
}

pub proof fn lemma_xor_basics(a: u64, b: u64, c: u64)
    by (bit_vector)
    ensures
        a ^ b == b ^ a,
        (a ^ b) ^ c == a ^ (b ^ c),
        a ^ a == 0,
        a ^ 0 == a,
        0 ^ a == a,
{
}

pub proof fn lemma_xor_replace(a: u64, o: u64, n: u64)
    by (bit_vector)
    ensures
        a ^ n == ((a ^ o) ^ o) ^ n,
{
}

pub proof fn lemma_xor_swap(a: u64, l: u64, o: u64, n: u64)
    by (bit_vector)
    ensures
        ((a ^ o) ^ n) ^ l == ((a ^ l) ^ o) ^ n,
{
}

pub proof fn lemma_combine_j(j: u64, p: u64, pc: u64, i: u64, ic: u64, a: u64, b: u64, h: u64)
    by (bit_vector)
    ensures
        (((((j ^ p) ^ pc) ^ i) ^ ic) ^ a) ^ b == ((((((j ^ a) ^ b) ^ p) ^ pc) ^ i) ^ ic),
        (h ^ a) ^ b == h ^ (((((j ^ p) ^ pc) ^ i) ^ ic) ^ ((((((j ^ a) ^ b) ^ p) ^ pc) ^ i) ^ ic)),
{
}

pub proof fn lemma_move_is_same_drift(h0: u64, f0: u64, h1: u64, f1: u64)
    by (bit_vector)
    ensures
        (h1 == h0 ^ (f0 ^ f1)) <==> (h1 ^ f1 == h0 ^ f0),
{
}

/// A state moved with another exactly when both have the same drift.
pub broadcast proof fn lemma_moved_is_same_drift(a: CoreState, b: CoreState)
    ensures
        #[trigger] b.hash_moved_with(&a) <==> b.drift() == a.drift(),
{
    lemma_move_is_same_drift(a.hash, a.full_hash(), b.hash, b.full_hash());
}

/// Moving by no change leaves the hash where it was.
pub proof fn lemma_no_move(h: u64, f: u64)
    by (bit_vector)
    ensures
        h == h ^ (f ^ f),
{
}

/// Three successive moves of the kept hash, each by the change of the
/// recomputed hash, make one such move.
pub proof fn lemma_moves_chain(h0: u64, f0: u64, f1: u64, f2: u64, f3: u64, h1: u64, h2: u64, h3: u64)
    by (bit_vector)
    requires
        h1 == h0 ^ (f0 ^ f1),
        h2 == h1 ^ (f1 ^ f2),
        h3 == h2 ^ (f2 ^ f3),
    ensures
        h3 == h0 ^ (f0 ^ f3),
{
}

/// A move by the change of a part equals the move `d` when the part moved by `d`.
pub proof fn lemma_part_move(h: u64, a0: u64, a1: u64, d: u64)
    by (bit_vector)
    requires
        a1 == a0 ^ d,
    ensures
        h ^ d == h ^ (a0 ^ a1),
{
}

pub proof fn lemma_jobs_hash_update(s: Seq<ArenaSlot<JobState>>, k: int, x: ArenaSlot<JobState>)
    requires
        0 <= k < s.len(),
    ensures
        jobs_hash(s.update(k, x)) == (jobs_hash(s) ^ slot_term(s[k])) ^ slot_term(x),
    decreases s.len(),
{
    let t = s.update(k, x);
    if k == s.len() - 1 {
        assert(t.drop_last() =~= s.drop_last());
        lemma_xor_replace(jobs_hash(s.drop_last()), slot_term(s[k]), slot_term(x));
    } else {
        assert(t.drop_last() =~= s.drop_last().update(k, x));
        lemma_jobs_hash_update(s.drop_last(), k, x);
        lemma_xor_swap(jobs_hash(s.drop_last()), slot_term(s.last()), slot_term(s[k]), slot_term(x));
    }
}

pub proof fn lemma_jobs_hash_push(s: Seq<ArenaSlot<JobState>>, x: ArenaSlot<JobState>)
    ensures
        jobs_hash(s.push(x)) == jobs_hash(s) ^ slot_term(x),
{
    assert(s.push(x).drop_last() =~= s);
}

pub proof fn lemma_index_hash_update(v: Seq<Option<JobHandle>>, k: int, x: Option<JobHandle>)
    requires
        0 <= k < v.len(),
    ensures
        index_hash(v.update(k, x)) == (index_hash(v) ^ index_term(k, v[k])) ^ index_term(k, x),
        count_some(v.update(k, x)) == count_some(v) - (if v[k] is Some { 1int } else { 0int }) + (
        if x is Some { 1int } else { 0int }),
    decreases v.len(),
{
    let t = v.update(k, x);
    if k == v.len() - 1 {
        assert(t.drop_last() =~= v.drop_last());
        lemma_xor_replace(index_hash(v.drop_last()), index_term(k, v[k]), index_term(k, x));
    } else {
        assert(t.drop_last() =~= v.drop_last().update(k, x));
        lemma_index_hash_update(v.drop_last(), k, x);
        lemma_xor_swap(index_hash(v.drop_last()), index_term(v.len() - 1, v.last()), index_term(k, v[k]), index_term(k, x));
    }
}

pub proof fn lemma_index_push_none(v: Seq<Option<JobHandle>>)
    ensures
        index_hash(v.push(None)) == index_hash(v),
        count_some(v.push(None)) == count_some(v),
{
    assert(v.push(None).drop_last() =~= v);
    lemma_xor_basics(index_hash(v), 0, 0);
}

pub proof fn lemma_count_some_le_len(v: Seq<Option<JobHandle>>)
    ensures
        count_some(v) <= v.len(),
    decreases v.len(),
{
    if v.len() > 0 {
        lemma_count_some_le_len(v.drop_last());
    }
}

} // verus!

verus! {

/// The job id map behaves as a map from `u64` keys.
pub proof fn lemma_id_map_model()
    ensures
        vstd::std_specs::hash::obeys_key_model::<u64>(),
        vstd::std_specs::hash::builds_valid_hashers::<std::collections::hash_map::RandomState>(),
{
}

/// The index `v` with entry `i` cleared, when `i` is in range.
pub open spec fn index_cleared(v: Seq<Option<JobHandle>>, i: int) -> Seq<Option<JobHandle>> {
    if 0 <= i < v.len() {
        v.update(i, None)
    } else {
        v
    }
}

/// The index `v`, grown with empty entries to cover `i`, with entry `i` set to `h`.
pub open spec fn index_set(v: Seq<Option<JobHandle>>, i: int, h: JobHandle) -> Seq<Option<JobHandle>> {
    if i < v.len() {
        v.update(i, Some(h))
    } else {
        v + Seq::new((i - v.len()) as nat, |k: int| None::<JobHandle>) + seq![Some(h)]
    }
}

/// The record a newly submitted job starts with.
pub open spec fn new_job_spec(id: u64, owner: u32, exec_spec: ExecSpec, policy: ExecPolicy) -> JobState {
    JobState {
        id,
        owner,
        exec_spec,
        policy,
        process: None,
        io: None,
        timed_out: false,
        lifecycle: JobLifecycle::Submitted,
        io_state: JobIoState::Pending,
    }
}

/// The hashed, changeable fields of a job record.
#[derive(Clone, Copy)]
pub struct JobFields {
    pub process: Option<ProcessHandle>,
    pub io: Option<IoHandle>,
    pub timed_out: bool,
    pub lifecycle: JobLifecycle,
    pub io_state: JobIoState,
}

/// The fields of `j` that `set_job_fields` may change.
pub open spec fn fields_of(j: JobState) -> JobFields {
    JobFields {
        process: j.process,
        io: j.io,
        timed_out: j.timed_out,
        lifecycle: j.lifecycle,
        io_state: j.io_state,
    }
}

/// `j` with its changeable fields replaced by `f`.
pub open spec fn with_fields(j: JobState, f: JobFields) -> JobState {
    JobState {
        id: j.id,
        owner: j.owner,
        exec_spec: j.exec_spec,
        policy: j.policy,
        process: f.process,
        io: f.io,
        timed_out: f.timed_out,
        lifecycle: f.lifecycle,
        io_state: f.io_state,
    }
}

/// What every store operation guarantees: a store whose ids, index counts
/// and runtime records agree keeps them so, a kept hash equal to the
/// recomputed one stays equal, and the kept hash moves exactly with the
/// recomputed one.
pub open spec fn store_step(a: CoreState, b: CoreState) -> bool {
    &&& (a.jobs_indexed() && a.counts_match() && a.runtime_paired()) ==> (b.jobs_indexed() && b.counts_match()
        && b.runtime_paired())
    &&& (a.jobs_indexed() && a.counts_match() && a.hash_consistent()) ==> b.hash_consistent()
    &&& a.jobs_indexed() ==> b.hash_moved_with(&a)
}

pub struct CoreState {
    pub jobs: Arena<JobState>,
    pub job_id_map: HashMap<u64, JobHandle>,
    pub runtime: Vec<Option<JobRuntime>>,
    pub process_index: Vec<Option<JobHandle>>,
    pub io_index: Vec<Option<JobHandle>>,
    pub process_count: usize,
    pub io_count: usize,
    pub hash: u64,
}

impl CoreState {
    /// The hash recomputed from scratch: every live job, every occupied
    /// index entry, and both index counts.
    pub open spec fn full_hash(&self) -> u64 {
        combine(
            jobs_hash(self.jobs.slots@),
            index_hash(self.process_index@),
            mix_spec(PROCESS_COUNT_KEY, self.process_count as u64),
            index_hash(self.io_index@),
            mix_spec(IO_COUNT_KEY, self.io_count as u64),
        )
    }

    /// The process index's share of the full hash: its entries and its count.
    pub open spec fn process_part(&self) -> u64 {
        index_part(self.process_index@, PROCESS_COUNT_KEY, self.process_count)
    }

    /// The IO index's share of the full hash: its entries and its count.
    pub open spec fn io_part(&self) -> u64 {
        index_part(self.io_index@, IO_COUNT_KEY, self.io_count)
    }

    /// The kept hash moved from `old` to `self` by exactly the change of the
    /// recomputed hash: whatever drift `old` had, `self` has too.
    pub open spec fn hash_moved_with(&self, old: &CoreState) -> bool {
        self.hash == old.hash ^ (old.full_hash() ^ self.full_hash())
    }

    /// How far the kept hash is from the recomputed one.
    pub open spec fn drift(&self) -> u64 {
        self.hash ^ self.full_hash()
    }

    /// The incrementally kept hash equals the recomputed one.
    pub open spec fn hash_consistent(&self) -> bool {
        self.hash == self.full_hash()
    }

    /// Each index count is the number of occupied entries of its index.
    pub open spec fn counts_match(&self) -> bool {
        &&& self.process_count == count_some(self.process_index@)
        &&& self.io_count == count_some(self.io_index@)
    }

    /// Every id in `job_id_map` reaches a live job that carries that id.
    pub open spec fn jobs_indexed(&self) -> bool {
        forall|id: u64| #[trigger]
            self.job_id_map@.contains_key(id) ==> (self.jobs.spec_get(
                self.job_id_map@[id].index,
                self.job_id_map@[id].generation,
            ) matches Some(j) && j.id == id)
    }

    /// Every registered job has its runtime record in the slot of its handle.
    pub open spec fn runtime_paired(&self) -> bool {
        forall|id: u64| #[trigger]
            self.job_id_map@.contains_key(id) ==> self.spec_runtime(self.job_id_map@[id]) is Some
    }

    /// The arena still holds every value it held before, at the same place.
    pub open spec fn keeps_live_jobs(&self, other: &CoreState) -> bool {
        forall|i: u32, g: u32| #[trigger]
            other.jobs.spec_get(i, g) is Some ==> self.jobs.spec_get(i, g) == other.jobs.spec_get(i, g)
    }

    pub fn new() -> (s: Self)
        ensures
            s.job_id_map@ == Map::<u64, JobHandle>::empty(),
            s.jobs.slots@.len() == 0,
            s.jobs.free@.len() == 0,
            s.runtime@.len() == 0,
            s.process_index@.len() == 0,
            s.io_index@.len() == 0,
            s.process_count == 0,
            s.io_count == 0,
            s.hash_consistent(),
            s.counts_match(),
            s.jobs_indexed(),
    {
        let hash = mix(PROCESS_COUNT_KEY, 0) ^ mix(IO_COUNT_KEY, 0);
        let s = CoreState {
            jobs: Arena::new(),
            job_id_map: HashMap::new(),
            runtime: Vec::new(),
            process_index: Vec::new(),
            io_index: Vec::new(),
            process_count: 0,
            io_count: 0,
            hash,
        };
        proof {
            let a = mix_spec(PROCESS_COUNT_KEY, 0);
            let b = mix_spec(IO_COUNT_KEY, 0);
            assert(a ^ b == (((0u64 ^ 0u64) ^ a) ^ 0u64) ^ b) by (bit_vector);
        }
        s
    }

    pub fn job_handle(&self, id: u64) -> (r: Option<JobHandle>)
        ensures
            r == (if self.job_id_map@.contains_key(id) {
                Some(self.job_id_map@[id])
            } else {
                None
            }),
    {
        match self.job_id_map.get(&id) {
            Some(h) => Some(*h),
            None => None,
        }
    }

    pub fn job(&self, h: JobHandle) -> (r: Option<&JobState>)
        ensures
            match r {
                Some(j) => self.jobs.spec_get(h.index, h.generation) == Some(*j),
                None => self.jobs.spec_get(h.index, h.generation) is None,
            },
    {
        self.jobs.get(h.index, h.generation)
    }

    /// The runtime record kept in the slot of `h`, if any.
    pub open spec fn spec_runtime(&self, h: JobHandle) -> Option<JobRuntime> {
        if (h.index as int) < self.runtime@.len() {
            self.runtime@[h.index as int]
        } else {
            None
        }
    }

    pub fn runtime(&self, h: JobHandle) -> (r: Option<&JobRuntime>)
        ensures
            match r {
                Some(rt) => self.spec_runtime(h) == Some(*rt),
                None => self.spec_runtime(h) is None,
            },
    {
        let i = h.index as usize;
        if i < self.runtime.len() {
            match &self.runtime[i] {
                Some(rt) => Some(rt),
                None => None,
            }
        } else {
            None
        }
    }

    /// The job registered in an index under `index`, if any.
    pub open spec fn index_lookup(v: Seq<Option<JobHandle>>, index: u32) -> Option<JobHandle> {
        if (index as int) < v.len() {
            v[index as int]
        } else {
            None
        }
    }

    pub fn job_by_process(&self, p: ProcessHandle) -> (r: Option<JobHandle>)
        ensures
            r == Self::index_lookup(self.process_index@, p.index),
    {
        let i = p.index as usize;
        if i < self.process_index.len() {
            self.process_index[i]
        } else {
            None
        }
    }

    pub fn job_by_io(&self, io: IoHandle) -> (r: Option<JobHandle>)
        ensures
            r == Self::index_lookup(self.io_index@, io.index),
    {
        let i = io.index as usize;
        if i < self.io_index.len() {
            self.io_index[i]
        } else {
            None
        }
    }

    /// Registers a new job under `id` in the Submitted state with no process
    /// or IO yet; an id that is already registered is left alone.
    pub fn insert_job(&mut self, id: u64, owner: u32, exec_spec: ExecSpec, policy: ExecPolicy)
        requires
            old(self).jobs.slots@.len() < u32::MAX,
        ensures
            store_step(*old(self), *final(self)),
            old(self).job_id_map@.contains_key(id) ==> *final(self) == *old(self),
            !old(self).job_id_map@.contains_key(id) ==> ({
                let h = final(self).job_id_map@[id];
                &&& final(self).job_id_map@ == old(self).job_id_map@.insert(id, h)
                &&& old(self).jobs.spec_get(h.index, h.generation) is None
                &&& (h.index as int) <= old(self).jobs.slots@.len()
                &&& (h.index as int) < old(self).jobs.slots@.len() ==> {
                    &&& old(self).jobs.slots@[h.index as int].value is None
                    &&& final(self).jobs.slots@ == old(self).jobs.slots@.update(
                        h.index as int,
                        ArenaSlot {
                            generation: old(self).jobs.slots@[h.index as int].generation,
                            value: Some(new_job_spec(id, owner, exec_spec, policy)),
                        },
                    )
                }
                &&& (h.index as int) == old(self).jobs.slots@.len() ==> final(self).jobs.slots@
                    == old(self).jobs.slots@.push(
                    ArenaSlot { generation: 0, value: Some(new_job_spec(id, owner, exec_spec, policy)) },
                )
                &&& final(self).jobs.spec_get(h.index, h.generation) == Some(
                    new_job_spec(id, owner, exec_spec, policy),
                )
                &&& final(self).keeps_live_jobs(old(self))
                &&& final(self).spec_runtime(h) == Some(JobRuntime { process: None, io: None })
                &&& final(self).runtime@.len() >= old(self).runtime@.len()
                &&& forall|i: int|
                    0 <= i < final(self).runtime@.len() && i != h.index ==> #[trigger] final(self).runtime@[i]
                        == if i < old(self).runtime@.len() {
                        old(self).runtime@[i]
                    } else {
                        None
                    }
                &&& final(self).process_index == old(self).process_index
                &&& final(self).io_index == old(self).io_index
                &&& final(self).process_count == old(self).process_count
                &&& final(self).io_count == old(self).io_count
            }),
            !old(self).job_id_map@.contains_key(id) ==> final(self).hash == old(self).hash ^ mix_spec(
                id,
                hash_job_spec(new_job_spec(id, owner, exec_spec, policy)),
            ),
            final(self).hash_moved_with(old(self)),
            old(self).hash_consistent() ==> final(self).hash_consistent(),
            old(self).jobs_indexed() ==> final(self).jobs_indexed(),
            old(self).counts_match() ==> final(self).counts_match(),
            old(self).runtime_paired() ==> final(self).runtime_paired(),
    {
        if self.job_id_map.contains_key(&id) {
            proof {
                lemma_no_move(self.hash, self.full_hash());
            }
            return;
        }
        let ghost pre = *self;
        let job = JobState {
            id,
            owner,
            exec_spec,
            policy,
            process: None,
            io: None,
            timed_out: false,
            lifecycle: JobLifecycle::Submitted,
            io_state: JobIoState::Pending,
        };
        let term = mix(id, hash_job(&job));
        let (index, generation) = self.jobs.insert(job);
        let handle: JobHandle = Handle::new(index, generation);
        proof {
            lemma_id_map_model();
        }
        self.job_id_map.insert(id, handle);
        assert(self.job_id_map@ == pre.job_id_map@.insert(id, handle));
        let i = index as usize;
        let ghost rt0 = self.runtime@;
        grow_runtime(&mut self.runtime, i);
        self.runtime.set(i, Some(JobRuntime { process: None, io: None }));
        self.hash = self.hash ^ term;
        proof {
            let j_old = jobs_hash(pre.jobs.slots@);
            if (index as int) < pre.jobs.slots@.len() {
                lemma_jobs_hash_update(pre.jobs.slots@, index as int, self.jobs.slots@[index as int]);
            } else {
                lemma_jobs_hash_push(pre.jobs.slots@, self.jobs.slots@[index as int]);
            }
            lemma_xor_basics(j_old, 0, term);
            lemma_xor_basics(pre.hash, 0, term);
            lemma_combine_j(
                j_old,
                index_hash(pre.process_index@),
                mix_spec(PROCESS_COUNT_KEY, pre.process_count as u64),
                index_hash(pre.io_index@),
                mix_spec(IO_COUNT_KEY, pre.io_count as u64),
                0,
                term,
                pre.hash,
            );
            assert(self.job_id_map@[id] == handle);
            assert(self.hash_moved_with(&pre));
            if pre.jobs_indexed() {
                assert forall|k: u64| #[trigger] self.job_id_map@.contains_key(k) implies (self.jobs.spec_get(
                    self.job_id_map@[k].index,
                    self.job_id_map@[k].generation,
                ) matches Some(j) && j.id == k) by {
                    if k != id {
                        assert(pre.job_id_map@.contains_key(k));
                    }
                }
            }
        }
    }

    /// Unregisters `id`: drops its map entry, takes its job out of the arena,
    /// clears its process and IO index entries and its runtime slot.
    pub fn remove_job(&mut self, id: u64) -> (r: Option<JobState>)
        requires
            old(self).counts_match(),
        ensures
            store_step(*old(self), *final(self)),
            !old(self).job_id_map@.contains_key(id) ==> {
                &&& r is None
                &&& final(self).job_id_map@ == old(self).job_id_map@
                &&& final(self).jobs == old(self).jobs
                &&& final(self).runtime == old(self).runtime
                &&& final(self).process_index == old(self).process_index
                &&& final(self).io_index == old(self).io_index
                &&& final(self).process_count == old(self).process_count
                &&& final(self).io_count == old(self).io_count
                &&& final(self).hash == old(self).hash
            },
            old(self).job_id_map@.contains_key(id) ==> ({
                let h = old(self).job_id_map@[id];
                &&& final(self).job_id_map@ == old(self).job_id_map@.remove(id)
                &&& r == old(self).jobs.spec_get(h.index, h.generation)
                &&& r is None ==> {
                    &&& final(self).jobs == old(self).jobs
                    &&& final(self).runtime == old(self).runtime
                    &&& final(self).process_index == old(self).process_index
                    &&& final(self).io_index == old(self).io_index
                    &&& final(self).process_count == old(self).process_count
                    &&& final(self).io_count == old(self).io_count
                    &&& final(self).hash == old(self).hash
                }
                &&& r matches Some(job) ==> {
                    &&& final(self).jobs.slots@ == old(self).jobs.slots@.update(
                        h.index as int,
                        ArenaSlot { generation: crate::arena::next_generation(h.generation), value: None },
                    )
                    &&& final(self).process_index@ == match job.process {
                        Some(p) => index_cleared(old(self).process_index@, p.index as int),
                        None => old(self).process_index@,
                    }
                    &&& final(self).io_index@ == match job.io {
                        Some(io) => index_cleared(old(self).io_index@, io.index as int),
                        None => old(self).io_index@,
                    }
                    &&& final(self).runtime@ == if (h.index as int) < old(self).runtime@.len() {
                        old(self).runtime@.update(h.index as int, None)
                    } else {
                        old(self).runtime@
                    }
                }
            }),
            r matches Some(job) ==> final(self).hash == ((old(self).hash ^ mix_spec(id, hash_job_spec(job))) ^ (
            old(self).process_part() ^ final(self).process_part())) ^ (old(self).io_part()
                ^ final(self).io_part()),
            old(self).jobs_indexed() ==> final(self).hash_moved_with(old(self)),
            final(self).counts_match(),
            old(self).hash_consistent() && old(self).jobs_indexed() ==> final(self).hash_consistent(),
            old(self).jobs_indexed() ==> final(self).jobs_indexed(),
            old(self).jobs_indexed() && old(self).runtime_paired() ==> final(self).runtime_paired(),
    {
        let ghost pre = *self;
        proof {
            lemma_id_map_model();
        }
        if let Some(h) = self.job_id_map.remove(&id) {
            if let Some(job) = self.jobs.remove(h.index, h.generation) {
                let term = mix(id, hash_job(&job));
                self.hash = self.hash ^ term;
                proof {
                    lemma_jobs_hash_update(pre.jobs.slots@, h.index as int, self.jobs.slots@[h.index as int]);
                    if pre.jobs_indexed() {
                        assert(pre.job_id_map@.contains_key(id));
                    }
                    lemma_xor_basics(jobs_hash(pre.jobs.slots@) ^ term, 0, 0);
                    lemma_combine_j(
                        jobs_hash(pre.jobs.slots@),
                        index_hash(pre.process_index@),
                        mix_spec(PROCESS_COUNT_KEY, pre.process_count as u64),
                        index_hash(pre.io_index@),
                        mix_spec(IO_COUNT_KEY, pre.io_count as u64),
                        term,
                        0,
                        pre.hash,
                    );
                    lemma_xor_basics(pre.hash ^ term, 0, 0);
                    if pre.jobs_indexed() {
                        assert forall|k: u64| #[trigger] self.job_id_map@.contains_key(k) implies (self.jobs.spec_get(
                            self.job_id_map@[k].index,
                            self.job_id_map@[k].generation,
                        ) matches Some(j) && j.id == k) by {
                            assert(pre.job_id_map@.contains_key(k));
                            assert(pre.job_id_map@.contains_key(id));
                        }
                    }
                }
                let ghost mid = *self;
                proof {
                    if pre.jobs_indexed() {
                        assert(mid.hash_moved_with(&pre));
                    }
                }
                if let Some(p) = job.process {
                    self.remove_process_index(p);
                } else {
                    proof {
                        lemma_no_move(self.hash, self.full_hash());
                        lemma_no_move(self.hash, self.process_part());
                    }
                }
                let ghost mid2 = *self;
                if let Some(io) = job.io {
                    self.remove_io_index(io);
                } else {
                    proof {
                        lemma_no_move(self.hash, self.full_hash());
                        lemma_no_move(self.hash, self.io_part());
                    }
                }
                proof {
                    if pre.jobs_indexed() {
                        lemma_moves_chain(
                            pre.hash,
                            pre.full_hash(),
                            mid.full_hash(),
                            mid2.full_hash(),
                            self.full_hash(),
                            mid.hash,
                            mid2.hash,
                            self.hash,
                        );
                    }
                }
                let i = h.index as usize;
                if i < self.runtime.len() {
                    self.runtime.set(i, None);
                }
                proof {
                    if pre.jobs_indexed() {
                        assert(self.jobs_indexed() == mid.jobs_indexed());
                    }
                }
                return Some(job);
            }
        }
        proof {
            if pre.job_id_map@.contains_key(id) {
                assert(!pre.jobs_indexed() || pre.jobs.spec_get(pre.job_id_map@[id].index, pre.job_id_map@[id].generation) is Some);
            }
            lemma_no_move(self.hash, self.full_hash());
        }
        None
    }

    /// The full hash, recomputed from scratch.
    pub fn recompute_hash_full(&self) -> (r: u64)
        ensures
            r == self.full_hash(),
    {
        let mut hash: u64 = 0;
        let n = self.jobs.slots.len();
        for k in 0..n
            invariant
                n == self.jobs.slots@.len(),
                hash == jobs_hash(self.jobs.slots@.subrange(0, k as int)),
        {
            proof {
                assert(self.jobs.slots@.subrange(0, k + 1).drop_last() =~= self.jobs.slots@.subrange(0, k as int));
            }
            if let Some(job) = &self.jobs.slots[k].value {
                hash = hash ^ mix(job.id, hash_job(job));
            } else {
                proof {
                    lemma_xor_basics(hash, 0, 0);
                }
            }
        }
        proof {
            assert(self.jobs.slots@.subrange(0, n as int) =~= self.jobs.slots@);
        }
        let pi = index_fold(&self.process_index);
        hash = hash ^ pi;
        hash = hash ^ mix(PROCESS_COUNT_KEY, self.process_count as u64);
        let ii = index_fold(&self.io_index);
        hash = hash ^ ii;
        hash = hash ^ mix(IO_COUNT_KEY, self.io_count as u64);
        hash
    }

    /// Replaces the timeout flag, lifecycle, IO state and handles of the live
    /// job under `h` (registered as `id`), keeping the hash in step.
    pub fn set_job_fields(&mut self, id: u64, h: JobHandle, f: JobFields)
        requires
            old(self).jobs.spec_get(h.index, h.generation) matches Some(j) && j.id == id,
        ensures
            store_step(*old(self), *final(self)),
            final(self).jobs.slots@ == old(self).jobs.slots@.update(
                h.index as int,
                ArenaSlot {
                    generation: h.generation,
                    value: Some(
                        with_fields(old(self).jobs.spec_get(h.index, h.generation).unwrap(), f),
                    ),
                },
            ),
            final(self).jobs.spec_get(h.index, h.generation) == Some(
                with_fields(old(self).jobs.spec_get(h.index, h.generation).unwrap(), f),
            ),
            forall|i: u32, g: u32| i != h.index ==> #[trigger] final(self).jobs.spec_get(i, g) == old(self).jobs.spec_get(i, g),
            final(self).job_id_map == old(self).job_id_map,
            final(self).runtime == old(self).runtime,
            final(self).process_index == old(self).process_index,
            final(self).io_index == old(self).io_index,
            final(self).process_count == old(self).process_count,
            final(self).io_count == old(self).io_count,
            final(self).hash == (old(self).hash ^ mix_spec(
                id,
                hash_job_spec(old(self).jobs.spec_get(h.index, h.generation).unwrap()),
            )) ^ mix_spec(
                id,
                hash_job_spec(with_fields(old(self).jobs.spec_get(h.index, h.generation).unwrap(), f)),
            ),
            final(self).hash_moved_with(old(self)),
            old(self).hash_consistent() ==> final(self).hash_consistent(),
            old(self).jobs_indexed() ==> final(self).jobs_indexed(),
    {
        let ghost pre = *self;
        let i = h.index as usize;
        let mut job = self.jobs.slots[i].value.take().unwrap();
        let old_term = mix(id, hash_job(&job));
        job.process = f.process;
        job.io = f.io;
        job.timed_out = f.timed_out;
        job.lifecycle = f.lifecycle;
        job.io_state = f.io_state;
        let new_term = mix(id, hash_job(&job));
        self.jobs.slots[i].value = Some(job);
        self.hash = (self.hash ^ old_term) ^ new_term;
        proof {
            assert(self.jobs.slots@ =~= pre.jobs.slots@.update(
                h.index as int,
                ArenaSlot { generation: h.generation, value: Some(with_fields(pre.jobs.spec_get(h.index, h.generation).unwrap(), f)) },
            ));
            lemma_jobs_hash_update(pre.jobs.slots@, h.index as int, self.jobs.slots@[h.index as int]);
            lemma_combine_j(
                jobs_hash(pre.jobs.slots@),
                index_hash(pre.process_index@),
                mix_spec(PROCESS_COUNT_KEY, pre.process_count as u64),
                index_hash(pre.io_index@),
                mix_spec(IO_COUNT_KEY, pre.io_count as u64),
                old_term,
                new_term,
                pre.hash,
            );
            if pre.jobs_indexed() {
                assert forall|k: u64| #[trigger] self.job_id_map@.contains_key(k) implies (self.jobs.spec_get(
                    self.job_id_map@[k].index,
                    self.job_id_map@[k].generation,
                ) matches Some(j) && j.id == k) by {
                    assert(pre.job_id_map@.contains_key(k));
                }
            }
        }
    }

    /// Replaces the runtime record kept in the slot of `h`, when the slot has one.
    pub fn set_runtime(&mut self, h: JobHandle, rt: JobRuntime)
        ensures
            store_step(*old(self), *final(self)),
            final(self).runtime@ == if old(self).spec_runtime(h) is Some {
                old(self).runtime@.update(h.index as int, Some(rt))
            } else {
                old(self).runtime@
            },
            final(self).jobs == old(self).jobs,
            final(self).job_id_map == old(self).job_id_map,
            final(self).process_index == old(self).process_index,
            final(self).io_index == old(self).io_index,
            final(self).process_count == old(self).process_count,
            final(self).io_count == old(self).io_count,
            final(self).hash == old(self).hash,
    {
        let ghost pre = *self;
        let i = h.index as usize;
        if i < self.runtime.len() && self.runtime[i].is_some() {
            self.runtime.set(i, Some(rt));
        }
        proof {
            lemma_no_move(self.hash, self.full_hash());
            assert(self.full_hash() == pre.full_hash());
            if pre.runtime_paired() {
                assert forall|id: u64| #[trigger] self.job_id_map@.contains_key(id) implies self.spec_runtime(
                    self.job_id_map@[id],
                ) is Some by {
                    assert(pre.spec_runtime(pre.job_id_map@[id]) is Some);
                }
            }
        }
    }

    /// Clears the process index entry of `p`, keeping the count and hash in step.
    pub fn remove_process_index(&mut self, p: ProcessHandle)
        requires
            old(self).counts_match(),
        ensures
            store_step(*old(self), *final(self)),
            final(self).process_index@ == index_cleared(old(self).process_index@, p.index as int),
            final(self).jobs == old(self).jobs,
            final(self).job_id_map == old(self).job_id_map,
            final(self).runtime == old(self).runtime,
            final(self).io_index == old(self).io_index,
            final(self).io_count == old(self).io_count,
            final(self).counts_match(),
            old(self).hash_consistent() ==> final(self).hash_consistent(),
            final(self).hash_moved_with(old(self)),
            final(self).hash == old(self).hash ^ (old(self).process_part() ^ final(self).process_part()),
            (p.index as int) < old(self).process_index@.len() && old(self).process_index@[p.index as int] is Some
                ==> final(self).process_count == old(self).process_count - 1,
            !((p.index as int) < old(self).process_index@.len() && old(self).process_index@[p.index as int] is Some) ==> {
                &&& final(self).process_index@ == old(self).process_index@
                &&& final(self).process_count == old(self).process_count
                &&& final(self).hash == old(self).hash
            },
    {
        let ghost pre = *self;
        let d = clear_entry(&mut self.process_index, &mut self.process_count, PROCESS_COUNT_KEY, p.index);
        self.hash = self.hash ^ d;
        proof {
            lemma_combine_delta_p(
                jobs_hash(pre.jobs.slots@),
                index_hash(pre.process_index@),
                mix_spec(PROCESS_COUNT_KEY, pre.process_count as u64),
                index_hash(self.process_index@),
                mix_spec(PROCESS_COUNT_KEY, self.process_count as u64),
                index_hash(pre.io_index@),
                mix_spec(IO_COUNT_KEY, pre.io_count as u64),
                d,
                pre.hash,
            );
            lemma_part_move(pre.hash, pre.process_part(), self.process_part(), d);
            lemma_xor_basics(pre.hash, 0, 0);
        }
    }

    /// Points the process index entry of `p` at `h`, growing the index as needed.
    pub fn insert_process_index(&mut self, p: ProcessHandle, h: JobHandle)
        requires
            old(self).counts_match(),
        ensures
            store_step(*old(self), *final(self)),
            final(self).process_index@ == index_set(old(self).process_index@, p.index as int, h),
            final(self).jobs == old(self).jobs,
            final(self).job_id_map == old(self).job_id_map,
            final(self).runtime == old(self).runtime,
            final(self).io_index == old(self).io_index,
            final(self).io_count == old(self).io_count,
            final(self).counts_match(),
            old(self).hash_consistent() ==> final(self).hash_consistent(),
            final(self).hash_moved_with(old(self)),
            final(self).hash == old(self).hash ^ (old(self).process_part() ^ final(self).process_part()),
    {
        let ghost pre = *self;
        let d = set_entry(&mut self.process_index, &mut self.process_count, PROCESS_COUNT_KEY, p.index, h);
        self.hash = self.hash ^ d;
        proof {
            lemma_combine_delta_p(
                jobs_hash(pre.jobs.slots@),
                index_hash(pre.process_index@),
                mix_spec(PROCESS_COUNT_KEY, pre.process_count as u64),
                index_hash(self.process_index@),
                mix_spec(PROCESS_COUNT_KEY, self.process_count as u64),
                index_hash(pre.io_index@),
                mix_spec(IO_COUNT_KEY, pre.io_count as u64),
                d,
                pre.hash,
            );
            lemma_part_move(pre.hash, pre.process_part(), self.process_part(), d);
        }
    }

    /// Clears the IO index entry of `io`, keeping the count and hash in step.
    pub fn remove_io_index(&mut self, io: IoHandle)
        requires
            old(self).counts_match(),
        ensures
            store_step(*old(self), *final(self)),
            final(self).io_index@ == index_cleared(old(self).io_index@, io.index as int),
            final(self).jobs == old(self).jobs,
            final(self).job_id_map == old(self).job_id_map,
            final(self).runtime == old(self).runtime,
            final(self).process_index == old(self).process_index,
            final(self).process_count == old(self).process_count,
            final(self).counts_match(),
            old(self).hash_consistent() ==> final(self).hash_consistent(),
            final(self).hash_moved_with(old(self)),
            final(self).hash == old(self).hash ^ (old(self).io_part() ^ final(self).io_part()),
            (io.index as int) < old(self).io_index@.len() && old(self).io_index@[io.index as int] is Some
                ==> final(self).io_count == old(self).io_count - 1,
            !((io.index as int) < old(self).io_index@.len() && old(self).io_index@[io.index as int] is Some) ==> {
                &&& final(self).io_index@ == old(self).io_index@
                &&& final(self).io_count == old(self).io_count
                &&& final(self).hash == old(self).hash
            },
    {
        let ghost pre = *self;
        let d = clear_entry(&mut self.io_index, &mut self.io_count, IO_COUNT_KEY, io.index);
        self.hash = self.hash ^ d;
        proof {
            lemma_combine_delta_i(
                jobs_hash(pre.jobs.slots@),
                index_hash(pre.process_index@),
                mix_spec(PROCESS_COUNT_KEY, pre.process_count as u64),
                index_hash(pre.io_index@),
                mix_spec(IO_COUNT_KEY, pre.io_count as u64),
                index_hash(self.io_index@),
                mix_spec(IO_COUNT_KEY, self.io_count as u64),
                d,
                pre.hash,
            );
            lemma_part_move(pre.hash, pre.io_part(), self.io_part(), d);
            lemma_xor_basics(pre.hash, 0, 0);
        }
    }

    /// Points the IO index entry of `io` at `h`, growing the index as needed.
    pub fn insert_io_index(&mut self, io: IoHandle, h: JobHandle)
        requires
            old(self).counts_match(),
        ensures
            store_step(*old(self), *final(self)),
            final(self).io_index@ == index_set(old(self).io_index@, io.index as int, h),
            final(self).jobs == old(self).jobs,
            final(self).job_id_map == old(self).job_id_map,
            final(self).runtime == old(self).runtime,
            final(self).process_index == old(self).process_index,
            final(self).process_count == old(self).process_count,
            final(self).counts_match(),
            old(self).hash_consistent() ==> final(self).hash_consistent(),
            final(self).hash_moved_with(old(self)),
            final(self).hash == old(self).hash ^ (old(self).io_part() ^ final(self).io_part()),
    {
        let ghost pre = *self;
        let d = set_entry(&mut self.io_index, &mut self.io_count, IO_COUNT_KEY, io.index, h);
        self.hash = self.hash ^ d;
        proof {
            lemma_combine_delta_i(
                jobs_hash(pre.jobs.slots@),
                index_hash(pre.process_index@),
                mix_spec(PROCESS_COUNT_KEY, pre.process_count as u64),
                index_hash(pre.io_index@),
                mix_spec(IO_COUNT_KEY, pre.io_count as u64),
                index_hash(self.io_index@),
                mix_spec(IO_COUNT_KEY, self.io_count as u64),
                d,
                pre.hash,
            );
            lemma_part_move(pre.hash, pre.io_part(), self.io_part(), d);
        }
    }
}

/// Part of the full hash that one index contributes: its entries and its count.
pub open spec fn index_part(v: Seq<Option<JobHandle>>, key: u64, count: usize) -> u64 {
    index_hash(v) ^ mix_spec(key, count as u64)
}

/// Clears entry `idx` of an index; returns the xor by which the index's
/// part of the hash changed.
pub fn clear_entry(v: &mut Vec<Option<JobHandle>>, count: &mut usize, key: u64, idx: u32) -> (d: u64)
    requires
        *old(count) == count_some(old(v)@),
    ensures
        final(v)@ == index_cleared(old(v)@, idx as int),
        *final(count) == count_some(final(v)@),
        index_part(final(v)@, key, *final(count)) == index_part(old(v)@, key, *old(count)) ^ d,
        (idx as int) < old(v)@.len() && old(v)@[idx as int] is Some ==> *final(count) == *old(count) - 1,
        !((idx as int) < old(v)@.len() && old(v)@[idx as int] is Some) ==> d == 0 && *final(count) == *old(count),
{
    let i = idx as usize;
    if i < v.len() {
        if let Some(h) = v[i] {
            proof {
                lemma_index_hash_update(old(v)@, i as int, None);
            }
            let t = mix(idx as u64, h.index as u64);
            let c_old = mix(key, *count as u64);
            *count = *count - 1;
            let c_new = mix(key, *count as u64);
            v.set(i, None);
            let d = (t ^ c_old) ^ c_new;
            proof {
                lemma_part_clear(index_hash(old(v)@), t, c_old, c_new);
            }
            return d;
        }
    }
    proof {
        lemma_xor_basics(index_part(old(v)@, key, *old(count)), 0, 0);
    }
    0
}

/// Points entry `idx` of an index at `h`, growing it with empty entries as
/// needed; returns the xor by which the index's part of the hash changed.
pub fn set_entry(v: &mut Vec<Option<JobHandle>>, count: &mut usize, key: u64, idx: u32, h: JobHandle) -> (d: u64)
    requires
        *old(count) == count_some(old(v)@),
    ensures
        final(v)@ == index_set(old(v)@, idx as int, h),
        *final(count) == count_some(final(v)@),
        index_part(final(v)@, key, *final(count)) == index_part(old(v)@, key, *old(count)) ^ d,
{
    let i = idx as usize;
    grow_index(v, i);
    let ghost pre = v@;
    proof {
        lemma_index_hash_update(pre, i as int, Some(h));
        lemma_count_some_le_len(pre.update(i as int, Some(h)));
    }
    let t_new = mix(idx as u64, h.index as u64);
    let d = if let Some(old_h) = v[i] {
        let t_old = mix(idx as u64, old_h.index as u64);
        v.set(i, Some(h));
        proof {
            lemma_part_replace(index_hash(pre), t_old, t_new, mix_spec(key, *count as u64));
        }
        t_old ^ t_new
    } else {
        assert(count_some(pre.update(i as int, Some(h))) == *count + 1);
        assert(pre.update(i as int, Some(h)).len() == v.len());
        let c_old = mix(key, *count as u64);
        *count = *count + 1;
        let c_new = mix(key, *count as u64);
        v.set(i, Some(h));
        proof {
            lemma_part_fill(index_hash(pre), c_old, c_new, t_new);
        }
        (c_old ^ c_new) ^ t_new
    };
    proof {
        assert(v@ =~= index_set(old(v)@, idx as int, h));
    }
    d
}

/// Xor of the terms of all occupied entries of an index.
pub fn index_fold(v: &Vec<Option<JobHandle>>) -> (r: u64)
    ensures
        r == index_hash(v@),
{
    let mut acc: u64 = 0;
    let n = v.len();
    for k in 0..n
        invariant
            n == v@.len(),
            acc == index_hash(v@.subrange(0, k as int)),
    {
        proof {
            assert(v@.subrange(0, k + 1).drop_last() =~= v@.subrange(0, k as int));
        }
        if let Some(h) = v[k] {
            acc = acc ^ mix(k as u64, h.index as u64);
        } else {
            proof {
                lemma_xor_basics(acc, 0, 0);
            }
        }
    }
    proof {
        assert(v@.subrange(0, n as int) =~= v@);
    }
    acc
}

/// Grows the runtime table with empty entries until it covers `i`.
pub fn grow_runtime(v: &mut Vec<Option<JobRuntime>>, i: usize)
    ensures
        final(v)@.len() > i,
        final(v)@.len() >= old(v)@.len(),
        old(v)@.len() > i ==> final(v)@ == old(v)@,
        old(v)@.len() <= i ==> final(v)@.len() == i + 1,
        forall|k: int| 0 <= k < final(v)@.len() ==> #[trigger] final(v)@[k] == if k < old(v)@.len() {
            old(v)@[k]
        } else {
            None
        },
{
    let ghost rt0 = v@;
    while v.len() <= i
        invariant
            rt0.len() <= v@.len(),
            rt0.len() <= i ==> v@.len() <= i + 1,
            rt0.len() > i ==> v@.len() == rt0.len(),
            forall|k: int| 0 <= k < v@.len() ==> #[trigger] v@[k] == if k < rt0.len() {
                rt0[k]
            } else {
                None
            },
        decreases i + 1 - v@.len(),
    {
        v.push(None);
    }
    proof {
        if rt0.len() > i {
            assert(v@ =~= rt0);
        }
    }
}

/// Grows an index with empty entries until it covers `i`; its hash and
/// count do not change.
pub fn grow_index(v: &mut Vec<Option<JobHandle>>, i: usize)
    ensures
        final(v)@.len() > i,
        old(v)@.len() > i ==> final(v)@ == old(v)@,
        old(v)@.len() <= i ==> final(v)@ == old(v)@ + Seq::new((i - old(v)@.len()) as nat, |k: int| None::<JobHandle>) + seq![None::<JobHandle>],
        index_hash(final(v)@) == index_hash(old(v)@),
        count_some(final(v)@) == count_some(old(v)@),
{
    let ghost pre = v@;
    while v.len() <= i
        invariant
            pre.len() <= v@.len(),
            pre.len() <= i ==> v@.len() <= i + 1,
            pre.len() > i ==> v@.len() == pre.len(),
            v@ == pre + Seq::new((v@.len() - pre.len()) as nat, |k: int| None::<JobHandle>),
            index_hash(v@) == index_hash(pre),
            count_some(v@) == count_some(pre),
        decreases i + 1 - v@.len(),
    {
        proof {
            lemma_index_push_none(v@);
        }
        v.push(None);
        assert(v@ =~= pre + Seq::new((v@.len() - pre.len()) as nat, |k: int| None::<JobHandle>));
    }
    proof {
        if pre.len() <= i {
            assert(v@ =~= pre + Seq::new((i - pre.len()) as nat, |k: int| None::<JobHandle>) + seq![None::<JobHandle>]);
        } else {
            assert(v@ =~= pre);
        }
    }
}

pub proof fn lemma_part_clear(a: u64, t: u64, c_old: u64, c_new: u64)
    by (bit_vector)
    ensures
        ((a ^ t) ^ 0) ^ c_new == (a ^ c_old) ^ ((t ^ c_old) ^ c_new),
{
}

pub proof fn lemma_part_replace(a: u64, t_old: u64, t_new: u64, c: u64)
    by (bit_vector)
    ensures
        ((a ^ t_old) ^ t_new) ^ c == (a ^ c) ^ (t_old ^ t_new),
{
}

pub proof fn lemma_part_fill(a: u64, c_old: u64, c_new: u64, t: u64)
    by (bit_vector)
    ensures
        ((a ^ 0) ^ t) ^ c_new == (a ^ c_old) ^ ((c_old ^ c_new) ^ t),
{
}

/// Changing the process part of the full hash by `d` changes the hash by `d`.
pub proof fn lemma_combine_delta_p(j: u64, p: u64, pc: u64, p2: u64, pc2: u64, i: u64, ic: u64, d: u64, h: u64)
    by (bit_vector)
    requires
        p2 ^ pc2 == (p ^ pc) ^ d,
    ensures
        h == (((j ^ p) ^ pc) ^ i) ^ ic ==> h ^ d == (((j ^ p2) ^ pc2) ^ i) ^ ic,
        h ^ d == h ^ (((((j ^ p) ^ pc) ^ i) ^ ic) ^ ((((j ^ p2) ^ pc2) ^ i) ^ ic)),
{
}

/// Changing the IO part of the full hash by `d` changes the hash by `d`.
pub proof fn lemma_combine_delta_i(j: u64, p: u64, pc: u64, i: u64, ic: u64, i2: u64, ic2: u64, d: u64, h: u64)
    by (bit_vector)
    requires
        i2 ^ ic2 == (i ^ ic) ^ d,
    ensures
        h == (((j ^ p) ^ pc) ^ i) ^ ic ==> h ^ d == (((j ^ p) ^ pc) ^ i2) ^ ic2,
        h ^ d == h ^ (((((j ^ p) ^ pc) ^ i) ^ ic) ^ ((((j ^ p) ^ pc) ^ i2) ^ ic2)),
{
}

/// A store reached from a fresh one (`CoreState::new`) by any sequence of
/// store operations keeps its ids, index counts and runtime records in
/// agreement, and its kept hash equal to the hash recomputed from scratch.
pub proof fn law_store_history(ss: Seq<CoreState>)
    requires
        ss.len() > 0,
        ss[0].jobs_indexed() && ss[0].counts_match() && ss[0].runtime_paired(),
        ss[0].hash_consistent(),
        forall|i: int| 0 <= i < ss.len() - 1 ==> #[trigger] store_step(ss[i], ss[i + 1]),
    ensures
        forall|i: int|
            0 <= i < ss.len() ==> #[trigger] ss[i].hash_consistent() && ss[i].jobs_indexed() && ss[i].counts_match()
                && ss[i].runtime_paired(),
    decreases ss.len(),
{
    if ss.len() > 1 {
        let t = ss.drop_last();
        assert forall|i: int| 0 <= i < t.len() - 1 implies #[trigger] store_step(t[i], t[i + 1]) by {
            assert(store_step(ss[i], ss[i + 1]));
        }
        law_store_history(t);
        let n = ss.len() - 1;
        assert(t[n - 1] == ss[n - 1]);
        assert(store_step(ss[n - 1], ss[(n - 1) + 1]));
        assert(0 <= n - 1 < t.len());
        assert(t[n - 1].hash_consistent());
        assert(t[n - 1].jobs_indexed() && t[n - 1].counts_match() && t[n - 1].runtime_paired());
        assert forall|i: int| 0 <= i < ss.len() implies #[trigger] ss[i].hash_consistent() && ss[i].jobs_indexed()
            && ss[i].counts_match() && ss[i].runtime_paired() by {
            if i < n {
                assert(t[i] == ss[i]);
            }
        }
    }
}

} // verus!
