//! The job table seen through ids: what `CoreState` holds for each
//! registered id, and how the state-changing operations change it.

use vstd::prelude::*;
use crate::arena::ArenaSlot;
use crate::machine::core_state::{with_fields, CoreState, JobFields};
use crate::machine::state::JobState;
use crate::machine::types::JobHandle;

verus! {

/// The live job registered under `id`, if any.
pub open spec fn job_at(core: CoreState, id: u64) -> Option<JobState> {
    if core.job_id_map@.contains_key(id) {
        core.jobs.spec_get(core.job_id_map@[id].index, core.job_id_map@[id].generation)
    } else {
        None
    }
}

/// The jobs by id: every registered id whose handle reaches a live job.
pub open spec fn jobs_view(core: CoreState) -> Map<u64, JobState> {
    Map::new(|id: u64| job_at(core, id) is Some, |id: u64| job_at(core, id).unwrap())
}

/// Under `jobs_indexed`, distinct registered ids sit in distinct slots.
pub proof fn lemma_distinct_slots(core: CoreState, a: u64, b: u64)
    requires
        core.jobs_indexed(),
        core.job_id_map@.contains_key(a),
        core.job_id_map@.contains_key(b),
        a != b,
    ensures
        core.job_id_map@[a].index != core.job_id_map@[b].index,
{
    let ha = core.job_id_map@[a];
    let hb = core.job_id_map@[b];
    if ha.index == hb.index {
        assert(core.jobs.spec_get(ha.index, ha.generation) is Some);
        assert(core.jobs.spec_get(hb.index, hb.generation) is Some);
    }
}

/// Rewriting the fields of the job under `id` rewrites its entry alone.
pub proof fn lemma_view_set_fields(old_core: CoreState, new_core: CoreState, id: u64, h: JobHandle, f: JobFields)
    requires
        old_core.jobs_indexed(),
        old_core.job_id_map@.contains_key(id),
        old_core.job_id_map@[id] == h,
        old_core.jobs.spec_get(h.index, h.generation) is Some,
        new_core.job_id_map == old_core.job_id_map,
        new_core.jobs.spec_get(h.index, h.generation) == Some(
            with_fields(old_core.jobs.spec_get(h.index, h.generation).unwrap(), f),
        ),
        forall|i: u32, g: u32| i != h.index ==> #[trigger] new_core.jobs.spec_get(i, g) == old_core.jobs.spec_get(i, g),
    ensures
        jobs_view(new_core) == jobs_view(old_core).insert(
            id,
            with_fields(old_core.jobs.spec_get(h.index, h.generation).unwrap(), f),
        ),
{
    assert forall|k: u64| k != id implies #[trigger] job_at(new_core, k) == job_at(old_core, k) by {
        if old_core.job_id_map@.contains_key(k) {
            lemma_distinct_slots(old_core, k, id);
            let hk = old_core.job_id_map@[k];
            assert(new_core.jobs.spec_get(hk.index, hk.generation) == old_core.jobs.spec_get(hk.index, hk.generation));
        }
    }
    assert(jobs_view(new_core) =~= jobs_view(old_core).insert(
        id,
        with_fields(old_core.jobs.spec_get(h.index, h.generation).unwrap(), f),
    ));
}

/// Registering a new id adds its job and leaves every other entry alone.
pub proof fn lemma_view_insert(old_core: CoreState, new_core: CoreState, id: u64, job: JobState)
    requires
        old_core.jobs_indexed(),
        !old_core.job_id_map@.contains_key(id),
        new_core.job_id_map@ == old_core.job_id_map@.insert(id, new_core.job_id_map@[id]),
        new_core.jobs.spec_get(new_core.job_id_map@[id].index, new_core.job_id_map@[id].generation)
            == Some(job),
        new_core.keeps_live_jobs(&old_core),
    ensures
        jobs_view(new_core) == jobs_view(old_core).insert(id, job),
{
    assert forall|k: u64| k != id implies #[trigger] job_at(new_core, k) == job_at(old_core, k) by {
        if old_core.job_id_map@.contains_key(k) {
            let hk = old_core.job_id_map@[k];
            assert(old_core.jobs.spec_get(hk.index, hk.generation) is Some);
        }
    }
    assert(jobs_view(new_core) =~= jobs_view(old_core).insert(id, job));
}

/// Unregistering an id whose job was live removes its entry alone.
pub proof fn lemma_view_remove(old_core: CoreState, new_core: CoreState, id: u64)
    requires
        old_core.jobs_indexed(),
        old_core.job_id_map@.contains_key(id),
        new_core.job_id_map@ == old_core.job_id_map@.remove(id),
        new_core.jobs.slots@ == old_core.jobs.slots@.update(
            old_core.job_id_map@[id].index as int,
            ArenaSlot {
                generation: crate::arena::next_generation(old_core.job_id_map@[id].generation),
                value: None,
            },
        ),
    ensures
        jobs_view(new_core) == jobs_view(old_core).remove(id),
{
    assert forall|k: u64| k != id implies #[trigger] job_at(new_core, k) == job_at(old_core, k) by {
        if old_core.job_id_map@.contains_key(k) {
            lemma_distinct_slots(old_core, k, id);
        }
    }
    assert(jobs_view(new_core) =~= jobs_view(old_core).remove(id));
}

} // verus!
