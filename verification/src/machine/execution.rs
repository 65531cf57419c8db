//! The whole execution state and its read-only view.

use vstd::prelude::*;
use vstd::std_specs::iter::IteratorSpec;
use vstd::std_specs::cmp::OrdSpec;
use crate::machine::core_state::{lemma_id_map_model, CoreState};
use crate::machine::policy::TimeoutStateStore;
use crate::machine::result::{ResultState, DEFAULT_MAX_JOBS};
use crate::machine::state::{JobState, Metrics, TimeoutEntry};
use crate::machine::state_view::{JobView, ResultView, StateView, TimeoutView};
use crate::machine::types::{clone_result, IoHandle, JobHandle, ProcessHandle};

verus! {

pub struct ExecutionState {
    pub core: CoreState,
    pub timeout: TimeoutStateStore,
    pub result: ResultState,
    pub metrics: Metrics,
    pub clock: u64,
    pub hash: u64,
}

/// The fields of a job that modules may read.
pub open spec fn view_of_job(j: JobState) -> JobView {
    JobView {
        id: j.id,
        owner: j.owner,
        lifecycle: j.lifecycle,
        io_state: j.io_state,
        process: j.process,
        io: j.io,
        timed_out: j.timed_out,
    }
}

/// The view of the live job that `h` names, if `h` names one.
pub open spec fn core_job_view(core: CoreState, h: Option<JobHandle>) -> Option<JobView> {
    match h {
        Some(h) => match core.jobs.spec_get(h.index, h.generation) {
            Some(j) => Some(view_of_job(j)),
            None => None,
        },
        None => None,
    }
}

/// The handle registered for `id`, if any.
pub open spec fn id_handle(core: CoreState, id: u64) -> Option<JobHandle> {
    if core.job_id_map@.contains_key(id) {
        Some(core.job_id_map@[id])
    } else {
        None
    }
}

pub open spec fn timeout_view_of(e: TimeoutEntry) -> TimeoutView {
    TimeoutView { id: e.id, state: e.state, deadline: e.deadline, kill_grace_ms: e.kill_grace_ms }
}

/// Each key is smaller than every key after it.
pub open spec fn strictly_increasing(s: Seq<u64>) -> bool {
    forall|i: int, j: int| 0 <= i < j < s.len() ==> s[i] < s[j]
}

/// The keys of `m` in increasing order.
pub open spec fn sorted_keys(m: Map<u64, TimeoutEntry>) -> Seq<u64> {
    choose|s: Seq<u64>| strictly_increasing(s) && s.to_set() == m.dom()
}

/// The tracked deadlines, by increasing job id.
pub open spec fn timeout_views(m: Map<u64, TimeoutEntry>) -> Seq<TimeoutView> {
    sorted_keys(m).map_values(|k: u64| timeout_view_of(m[k]))
}

/// Two increasing key sequences with the same elements are the same sequence.
pub proof fn lemma_increasing_unique(a: Seq<u64>, b: Seq<u64>)
    requires
        strictly_increasing(a),
        strictly_increasing(b),
        a.to_set() == b.to_set(),
    ensures
        a == b,
    decreases a.len(),
{
    if a.len() == 0 {
        if b.len() > 0 {
            assert(b.to_set().contains(b[0]));
            assert(a.contains(b[0]));
        }
        assert(a =~= b);
    } else if b.len() == 0 {
        assert(a.to_set().contains(a[0]));
        assert(b.contains(a[0]));
    } else {
        assert(a.to_set().contains(a[0]));
        assert(b.to_set().contains(b[0]));
        assert(b.contains(a[0]));
        assert(a.contains(b[0]));
        let j = choose|j: int| 0 <= j < b.len() && b[j] == a[0];
        let i = choose|i: int| 0 <= i < a.len() && a[i] == b[0];
        assert(a[0] == b[0]) by {
            if j > 0 {
                assert(b[0] < b[j]);
                if i > 0 {
                    assert(a[0] < a[i]);
                }
            }
        }
        let a1 = a.drop_first();
        let b1 = b.drop_first();
        assert forall|x: u64| a1.to_set().contains(x) implies b1.to_set().contains(x) by {
            assert(a1.contains(x));
            let k = choose|k: int| 0 <= k < a1.len() && a1[k] == x;
            assert(a[k + 1] == x);
            assert(a.to_set().contains(x));
            assert(b.contains(x));
            let m = choose|m: int| 0 <= m < b.len() && b[m] == x;
            assert(m != 0);
            assert(b1[m - 1] == x);
            assert(b1.contains(x));
        }
        assert forall|x: u64| b1.to_set().contains(x) implies a1.to_set().contains(x) by {
            assert(b1.contains(x));
            let k = choose|k: int| 0 <= k < b1.len() && b1[k] == x;
            assert(b[k + 1] == x);
            assert(b.to_set().contains(x));
            assert(a.contains(x));
            let m = choose|m: int| 0 <= m < a.len() && a[m] == x;
            assert(m != 0);
            assert(a1[m - 1] == x);
            assert(a1.contains(x));
        }
        assert(a1.to_set() =~= b1.to_set());
        lemma_increasing_unique(a1, b1);
        assert(a.len() == b.len());
        assert forall|k: int| 0 <= k < a.len() implies a[k] == b[k] by {
            if k > 0 {
                assert(a[k] == a1[k - 1]);
                assert(b[k] == b1[k - 1]);
            }
        }
        assert(a =~= b);
    }
}

/// `u64` keys are totally ordered, so ordered maps over them keep their specification.
pub proof fn lemma_u64_keys_ordered()
    ensures
        vstd::std_specs::btree::key_obeys_cmp_spec::<u64>(),
{
    broadcast use vstd::std_specs::btree::group_btree_axioms;
    broadcast use vstd::laws_cmp::group_laws_cmp;

}

/// The walk of an ordered map visits its keys in increasing order, each once.
pub proof fn lemma_iter_keys_sorted(
    t: &std::collections::BTreeMap<u64, TimeoutEntry>,
    rem: Seq<(&u64, &TimeoutEntry)>,
    ks: Seq<u64>,
)
    requires
        rem == vstd::std_specs::btree::spec_btree_map_iter(t).remaining(),
        ks == rem.map_values(|kv: (&u64, &TimeoutEntry)| *kv.0),
        vstd::std_specs::btree::increasing_seq(ks),
    ensures
        strictly_increasing(ks),
        ks.to_set() == t@.dom(),
        strictly_increasing(sorted_keys(t@)),
        sorted_keys(t@).to_set() == t@.dom(),
        forall|i: int| 0 <= i < rem.len() ==> #[trigger] t@[*rem[i].0] == *rem[i].1,
{
    broadcast use vstd::std_specs::btree::group_btree_axioms;
    broadcast use vstd::laws_cmp::group_laws_cmp;

    assert(rem.len() == t@.dom().len());
    assert forall|i: int, j: int| 0 <= i < j < ks.len() implies ks[i] < ks[j] by {
        assert(ks[i].cmp_spec(&ks[j]) is Less);
    }
    assert forall|k: u64| ks.to_set().contains(k) implies t@.dom().contains(k) by {
        assert(ks.contains(k));
        let i = choose|i: int| 0 <= i < ks.len() && ks[i] == k;
        assert(t@.contains_key(*rem[i].0));
    }
    assert forall|k: u64| t@.dom().contains(k) implies ks.to_set().contains(k) by {
        assert(t@.contains_key(k));
        assert(rem.contains((&k, &t@[k])));
        let i = choose|i: int| 0 <= i < rem.len() && rem[i] == (&k, &t@[k]);
        assert(ks[i] == k);
        assert(ks.contains(k));
    }
    assert(ks.to_set() =~= t@.dom());
    assert(strictly_increasing(ks) && ks.to_set() == t@.dom());
    assert forall|i: int| 0 <= i < rem.len() implies #[trigger] t@[*rem[i].0] == *rem[i].1 by {
        assert(t@.contains_key(*rem[i].0));
    }
}

fn job_view_exec(j: &JobState) -> (v: JobView)
    ensures
        v == view_of_job(*j),
{
    JobView {
        id: j.id,
        owner: j.owner,
        lifecycle: j.lifecycle,
        io_state: j.io_state,
        process: j.process,
        io: j.io,
        timed_out: j.timed_out,
    }
}

impl ExecutionState {
    pub fn new() -> (s: Self)
        ensures
            s.core.job_id_map@ == Map::<u64, JobHandle>::empty(),
            s.core.jobs.slots@.len() == 0,
            s.core.jobs.free@.len() == 0,
            s.core.runtime@.len() == 0,
            s.core.process_count == 0,
            s.core.io_count == 0,
            s.core.hash_consistent(),
            s.core.counts_match(),
            s.core.jobs_indexed(),
            s.core.process_index@.len() == 0,
            s.core.io_index@.len() == 0,
            s.timeout.timeouts@ == Map::<u64, TimeoutEntry>::empty(),
            s.timeout.hash == 0,
            s.result.results@.is_empty(),
            s.result.result_order@.len() == 0,
            s.result.active_jobs == 0,
            s.result.max_jobs == DEFAULT_MAX_JOBS,
            s.result.hash == 0,
            s.metrics.is_zero(),
            s.clock == 0,
            s.hash == 0,
    {
        ExecutionState {
            core: CoreState::new(),
            timeout: TimeoutStateStore::new(),
            result: ResultState::new(),
            metrics: Metrics::default(),
            clock: 0,
            hash: 0,
        }
    }

    /// The combined fingerprint of the three stores.
    pub open spec fn combined_hash(&self) -> u64 {
        self.core.hash ^ self.timeout.hash ^ self.result.hash
    }

    pub fn update_hash(&mut self)
        ensures
            final(self).hash == old(self).combined_hash(),
            final(self).core == old(self).core,
            final(self).timeout == old(self).timeout,
            final(self).result == old(self).result,
            final(self).metrics == old(self).metrics,
            final(self).clock == old(self).clock,
    {
        self.hash = self.core.hash ^ self.timeout.hash ^ self.result.hash;
    }

    fn view_handle(&self, h: Option<JobHandle>) -> (r: Option<JobView>)
        ensures
            r == core_job_view(self.core, h),
    {
        match h {
            Some(h) => match self.core.job(h) {
                Some(j) => Some(job_view_exec(j)),
                None => None,
            },
            None => None,
        }
    }
}

impl StateView for ExecutionState {
    open spec fn job_view(&self, id: u64) -> Option<JobView> {
        core_job_view(self.core, id_handle(self.core, id))
    }

    open spec fn process_job_view(&self, process: ProcessHandle) -> Option<JobView> {
        core_job_view(self.core, CoreState::index_lookup(self.core.process_index@, process.index))
    }

    open spec fn io_job_view(&self, io: IoHandle) -> Option<JobView> {
        core_job_view(self.core, CoreState::index_lookup(self.core.io_index@, io.index))
    }

    open spec fn result_view(&self, id: u64) -> Option<ResultView> {
        if self.result.results@.contains_key(id) {
            Some(
                ResultView {
                    result: self.result.results@[id].result,
                    owner: self.result.results@[id].owner,
                },
            )
        } else {
            None
        }
    }

    open spec fn active_jobs_view(&self) -> usize {
        self.result.active_jobs
    }

    open spec fn max_jobs_view(&self) -> usize {
        self.result.max_jobs
    }

    open spec fn timeouts_view(&self) -> Seq<TimeoutView> {
        timeout_views(self.timeout.timeouts@)
    }

    open spec fn now_view(&self) -> u64 {
        self.clock
    }

    fn job(&self, id: u64) -> (r: Option<JobView>) {
        let h = self.core.job_handle(id);
        self.view_handle(h)
    }

    fn job_by_process(&self, process: ProcessHandle) -> (r: Option<JobView>) {
        let h = self.core.job_by_process(process);
        self.view_handle(h)
    }

    fn job_by_io(&self, io: IoHandle) -> (r: Option<JobView>) {
        let h = self.core.job_by_io(io);
        self.view_handle(h)
    }

    fn result(&self, id: u64) -> (r: Option<ResultView>) {
        proof {
            lemma_id_map_model();
        }
        match self.result.results.get(&id) {
            Some(stored) => Some(ResultView { result: clone_result(&stored.result), owner: stored.owner }),
            None => None,
        }
    }

    fn active_jobs(&self) -> (r: usize) {
        self.result.active_jobs
    }

    fn max_jobs(&self) -> (r: usize) {
        self.result.max_jobs
    }

    fn timeouts(&self) -> (r: Vec<TimeoutView>) {
        broadcast use vstd::std_specs::btree::group_btree_axioms;

        proof {
            lemma_u64_keys_ordered();
        }
        let mut out: Vec<TimeoutView> = Vec::new();
        let ghost m = self.timeout.timeouts@;
        let entries = self.timeout.timeouts.iter();
        let ghost rem = entries.remaining();
        assert(entries == vstd::std_specs::btree::spec_btree_map_iter(&self.timeout.timeouts));
        for kv in it: entries
            invariant
                it.seq() == rem,
                rem == vstd::std_specs::btree::spec_btree_map_iter(&self.timeout.timeouts).remaining(),
                m == self.timeout.timeouts@,
                out@.len() == it.index(),
                forall|i: int| #![trigger out@[i]]
                    0 <= i < it.index() ==> out@[i] == timeout_view_of(*rem[i].1),
            ensures
                out@.len() == rem.len(),
                forall|i: int| #![trigger out@[i]]
                    0 <= i < rem.len() ==> out@[i] == timeout_view_of(*rem[i].1),
        {
            let (_, e) = kv;
            out.push(TimeoutView { id: e.id, state: e.state, deadline: e.deadline, kill_grace_ms: e.kill_grace_ms });
        }
        proof {
            let ks = rem.map_values(|kv: (&u64, &TimeoutEntry)| *kv.0);
            lemma_iter_keys_sorted(&self.timeout.timeouts, rem, ks);
            let sk = sorted_keys(m);
            lemma_increasing_unique(sk, ks);
            assert(out@ =~= timeout_views(m));
        }
        out
    }

    fn now(&self) -> (r: u64) {
        self.clock
    }
}

} // verus!
