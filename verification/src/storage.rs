use std::collections::HashMap;

use vstd::prelude::*;

use crate::errors::RustiqError;
use crate::types::{Job, JobStatus};

verus! {

broadcast use vstd::std_specs::hash::group_hash_axioms;

/// Every job is stored under its own id.
pub open spec fn keyed_by_id(m: Map<u128, Job>) -> bool {
    forall|id: u128| #[trigger] m.contains_key(id) ==> m[id].id == id
}

/// The job stored under `id`, if any.
pub open spec fn stored_job(m: Map<u128, Job>, id: u128) -> Option<Job> {
    if m.contains_key(id) {
        Some(m[id])
    } else {
        None
    }
}

/// The store after `job` is saved: it replaces any job with the same id.
pub open spec fn with_job_saved(m: Map<u128, Job>, job: Job) -> Map<u128, Job> {
    m.insert(job.id, job)
}

/// The store after the job `id` has been given `status`, all else kept.
pub open spec fn with_status(m: Map<u128, Job>, id: u128, status: JobStatus) -> Map<u128, Job> {
    m.insert(id, Job { status: status, ..m[id] })
}

/// The store without the jobs of `queue`.
pub open spec fn without_queue(m: Map<u128, Job>, queue: Seq<char>) -> Map<u128, Job> {
    Map::new(|id: u128| m.contains_key(id) && m[id].queue@ != queue, |id: u128| m[id])
}

/// `v` lists each job of `m` that `keep` accepts, once, in some order.
pub open spec fn lists_jobs(v: Seq<Job>, m: Map<u128, Job>, keep: spec_fn(Job) -> bool) -> bool {
    &&& forall|i: int|
        0 <= i < v.len() ==> m.contains_key(#[trigger] v[i].id) && m[v[i].id] == v[i] && keep(
            v[i],
        )
    &&& forall|id: u128|
        #[trigger] m.contains_key(id) && keep(m[id]) ==> exists|i: int|
            0 <= i < v.len() && #[trigger] v[i].id == id
    &&& forall|i: int, j: int| 0 <= i < j < v.len() ==> v[i].id != v[j].id
}

/// Accepts the jobs of `queue`.
pub open spec fn in_queue(queue: Seq<char>) -> spec_fn(Job) -> bool {
    |j: Job| j.queue@ == queue
}

/// Accepts every job.
pub open spec fn any_job() -> spec_fn(Job) -> bool {
    |j: Job| true
}

/// An in-memory job store, keyed by job id.
#[derive(Debug)]
pub struct MockStorage {
    jobs: HashMap<u128, Job>,
}

impl View for MockStorage {
    type V = Map<u128, Job>;

    /// The stored jobs, by id.
    closed spec fn view(&self) -> Map<u128, Job> {
        self.jobs@
    }
}

impl Default for MockStorage {
    fn default() -> (res: Self)
        ensures
            keyed_by_id(res@),
            res@ == Map::<u128, Job>::empty(),
    {
        MockStorage::new()
    }
}

impl MockStorage {
    /// A store holds finitely many jobs.
    pub proof fn lemma_finite(&self)
        ensures
            self@.dom().finite(),
    {
    }

    /// Each job sits under its own id.
    #[verifier::type_invariant]
    spec fn wf(&self) -> bool {
        keyed_by_id(self.jobs@)
    }

    /// An empty store.
    pub fn new() -> (res: Self)
        ensures
            keyed_by_id(res@),
            res@ == Map::<u128, Job>::empty(),
    {
        MockStorage { jobs: HashMap::new() }
    }

    /// Stores a copy of `job` under its id, replacing any job with that id.
    pub fn save_job(&mut self, job: &Job) -> (res: Result<(), RustiqError>)
        ensures
            keyed_by_id(final(self)@),
            res is Ok,
            final(self)@ == with_job_saved(old(self)@, *job),
            final(self)@ == old(self)@.insert(job.id, *job),
            final(self)@.contains_key(job.id) && final(self)@[job.id] == *job,
    {
        proof {
            use_type_invariant(&*self);
        }
        let mut jobs = HashMap::new();
        std::mem::swap(&mut jobs, &mut self.jobs);
        jobs.insert(job.id, job.clone());
        self.jobs = jobs;
        Ok(())
    }

    /// A copy of the job stored under `id`, or `None`.
    pub fn get_job(&self, id: u128) -> (res: Result<Option<Job>, RustiqError>)
        ensures
            res == Ok::<Option<Job>, RustiqError>(stored_job(self@, id)),
            self@.contains_key(id) ==> res == Ok::<Option<Job>, RustiqError>(Some(self@[id])),
            !self@.contains_key(id) ==> res == Ok::<Option<Job>, RustiqError>(None),
    {
        proof {
            use_type_invariant(&*self);
        }
        match self.jobs.get(&id) {
            Some(job) => Ok(Some(job.clone())),
            None => Ok(None),
        }
    }

    /// Removes the job `id`; fails with `JobNotFound(id)` when there is none.
    pub fn delete_job(&mut self, id: u128) -> (res: Result<(), RustiqError>)
        ensures
            keyed_by_id(final(self)@),
            old(self)@.contains_key(id) ==> res is Ok && final(self)@ == old(self)@.remove(id),
            !old(self)@.contains_key(id) ==> res == Err::<(), RustiqError>(
                RustiqError::JobNotFound(id),
            ) && final(self)@ == old(self)@,
    {
        proof {
            use_type_invariant(&*self);
        }
        let mut jobs = HashMap::new();
        std::mem::swap(&mut jobs, &mut self.jobs);
        let found = jobs.remove(&id).is_some();
        self.jobs = jobs;
        if found {
            Ok(())
        } else {
            Err(RustiqError::JobNotFound(id))
        }
    }

    /// Sets the status of the job `id`; fails with `JobNotFound(id)` when
    /// there is none.
    pub fn update_job_status(&mut self, id: u128, status: JobStatus) -> (res: Result<
        (),
        RustiqError,
    >)
        ensures
            keyed_by_id(final(self)@),
            old(self)@.contains_key(id) ==> res is Ok && final(self)@ == with_status(
                old(self)@,
                id,
                status,
            ),
            !old(self)@.contains_key(id) ==> res == Err::<(), RustiqError>(
                RustiqError::JobNotFound(id),
            ) && final(self)@ == old(self)@,
            old(self)@.contains_key(id) ==> final(self)@ == old(self)@.insert(
                id,
                Job { status: status, ..old(self)@[id] },
            ),
    {
        proof {
            use_type_invariant(&*self);
        }
        let mut jobs = HashMap::new();
        std::mem::swap(&mut jobs, &mut self.jobs);
        match jobs.remove(&id) {
            Some(job) => {
                let mut job = job;
                job.status = status;
                jobs.insert(id, job);
                proof {
                    assert(jobs@ =~= with_status(old(self)@, id, status));
                }
                self.jobs = jobs;
                Ok(())
            },
            None => {
                self.jobs = jobs;
                Err(RustiqError::JobNotFound(id))
            },
        }
    }

    /// Removes every job of `queue`, keeping all others.
    pub fn clear_queue(&mut self, queue: &str) -> (res: Result<(), RustiqError>)
        ensures
            keyed_by_id(final(self)@),
            res is Ok,
            final(self)@ == without_queue(old(self)@, queue@),
            forall|id: u128|
                #[trigger] final(self)@.contains_key(id) <==> old(self)@.contains_key(id) && old(
                    self,
                )@[id].queue@ != queue@,
            forall|id: u128| #[trigger]
                final(self)@.contains_key(id) ==> final(self)@[id] == old(self)@[id],
    {
        proof {
            use_type_invariant(&*self);
        }
        let wanted = queue.to_owned();
        let mut kept: HashMap<u128, Job> = HashMap::new();
        let ghost m = self.jobs@;
        let ghost keys = vstd::std_specs::iter::IteratorSpec::remaining(
            &vstd::std_specs::hash::spec_keys_iter(&self.jobs),
        );
        for k in it: self.jobs.keys()
            invariant
                self.jobs@ == m,
                it.seq() == keys,
                wanted@ == queue@,
                kept@ == Map::new(
                    |id: u128|
                        keys.unref().take(it.index() as int).contains(id) && m.contains_key(id)
                            && m[id].queue@ != queue@,
                    |id: u128| m[id],
                ),
        {
            let ghost before = keys.unref().take(it.index() as int);
            let job = self.jobs.get(k).unwrap();
            if job.queue != wanted {
                kept.insert(*k, job.clone());
            }
            proof {
                let after = keys.unref().take(it.index() + 1);
                assert(after == before.push(*k));
                assert(m.contains_key(*k) && m[*k] == *job);
                assert forall|id: u128| #[trigger] after.contains(id) <==> (before.contains(id) || id == *k) by {
                    if after.contains(id) && id != *k {
                        let i = choose|i: int| 0 <= i < after.len() && after[i] == id;
                        assert(before[i] == id);
                    }
                    if before.contains(id) {
                        let i = choose|i: int| 0 <= i < before.len() && before[i] == id;
                        assert(after[i] == id);
                    }
                    if id == *k {
                        assert(after[after.len() - 1] == id);
                    }
                }
                assert(kept@ =~= Map::new(
                    |id: u128| after.contains(id) && m.contains_key(id) && m[id].queue@ != queue@,
                    |id: u128| m[id],
                ));
            }
        }
        proof {
            lemma_key_sequence(&self.jobs);
            assert(keys.unref().take(keys.len() as int) == keys.unref());
            assert(kept@ =~= without_queue(m, queue@)) by {
                assert forall|id: u128| m.contains_key(id) implies keys.unref().contains(id) by {
                    assert(keys.unref().to_set().contains(id));
                }
            }
        }
        self.jobs = kept;
        Ok(())
    }

    /// Copies of the jobs of `queue`, in no particular order.
    pub fn get_jobs_by_queue(&self, queue: &str) -> (res: Result<Vec<Job>, RustiqError>)
        ensures
            res matches Ok(v) && lists_jobs(v@, self@, in_queue(queue@)),
            res matches Ok(v) && forall|i: int|
                0 <= i < v.len() ==> #[trigger] v@[i].queue@ == queue@ && self@.contains_key(
                    v@[i].id,
                ) && self@[v@[i].id] == v@[i],
            res matches Ok(v) && forall|id: u128|
                #[trigger] self@.contains_key(id) && self@[id].queue@ == queue@ ==> exists|i: int|
                    0 <= i < v.len() && v@[i] == self@[id],
    {
        let wanted = queue.to_owned();
        let ghost filter = queue_filter(Some(wanted));
        let v = self.collect_jobs(Some(wanted));
        proof {
            assert forall|i: int| 0 <= i < v.len() implies #[trigger] v@[i].queue@ == queue@
                && self@.contains_key(v@[i].id) && self@[v@[i].id] == v@[i] by {
                let id = v@[i].id;
                assert(self@.contains_key(id));
                assert(filter(v@[i]));
            }
            assert forall|id: u128|
                #[trigger] self@.contains_key(id) && self@[id].queue@ == queue@ implies exists|i: int|
                0 <= i < v.len() && v@[i] == self@[id] by {
                assert(filter(self@[id]));
                let i = choose|i: int| 0 <= i < v.len() && #[trigger] v@[i].id == id;
                assert(v@[i] == self@[id]);
            }
        }
        Ok(v)
    }

    /// Copies of all stored jobs, in no particular order.
    pub fn get_all_jobs(&self) -> (res: Result<Vec<Job>, RustiqError>)
        ensures
            res matches Ok(v) && lists_jobs(v@, self@, any_job()),
            res matches Ok(v) && forall|i: int|
                0 <= i < v.len() ==> #[trigger] self@.contains_key(v@[i].id) && self@[v@[i].id]
                    == v@[i],
            res matches Ok(v) && forall|id: u128|
                #[trigger] self@.contains_key(id) ==> exists|i: int| 0 <= i < v.len() && v@[i] == self@[id],
    {
        Ok(self.collect_jobs(None))
    }

    /// Copies of the jobs of the queue `wanted`, or of all jobs when it is
    /// `None`, in no particular order.
    fn collect_jobs(&self, wanted: Option<String>) -> (res: Vec<Job>)
        ensures
            lists_jobs(res@, self@, queue_filter(wanted)),
    {
        proof {
            use_type_invariant(&*self);
        }
        let mut out: Vec<Job> = Vec::new();
        let ghost m = self.jobs@;
        let ghost keep = queue_filter(wanted);
        let ghost keys = vstd::std_specs::iter::IteratorSpec::remaining(
            &vstd::std_specs::hash::spec_keys_iter(&self.jobs),
        );
        for k in it: self.jobs.keys()
            invariant
                self.jobs@ == m,
                it.seq() == keys,
                keep == queue_filter(wanted),
                out@ == jobs_matching(m, keys.unref().take(it.index() as int), keep),
        {
            let ghost before = keys.unref().take(it.index() as int);
            let job = self.jobs.get(k).unwrap();
            proof {
                assert(keys.unref().take(it.index() + 1).drop_last() == before);
            }
            let accepted = match &wanted {
                Some(queue) => job.queue == *queue,
                None => true,
            };
            if accepted {
                out.push(job.clone());
            }
        }
        proof {
            lemma_key_sequence(&self.jobs);
            assert(keys.unref().take(keys.len() as int) == keys.unref());
            lemma_listing_from_ids(m, keys.unref(), keep);
        }
        out
    }
}

/// Accepts the jobs of the queue `wanted`, or every job when it is `None`.
pub open spec fn queue_filter(wanted: Option<String>) -> spec_fn(Job) -> bool {
    match wanted {
        Some(queue) => in_queue(queue@),
        None => any_job(),
    }
}

/// The jobs stored under `ids` that `keep` accepts, in the order of `ids`.
pub open spec fn jobs_matching(m: Map<u128, Job>, ids: Seq<u128>, keep: spec_fn(Job) -> bool) -> Seq<
    Job,
>
    decreases ids.len(),
{
    if ids.len() == 0 {
        Seq::empty()
    } else {
        let rest = jobs_matching(m, ids.drop_last(), keep);
        if keep(m[ids.last()]) {
            rest.push(m[ids.last()])
        } else {
            rest
        }
    }
}

/// Filtering the jobs under a duplicate-free list of all stored ids lists
/// exactly the accepted jobs, once each.
proof fn lemma_listing_from_ids(m: Map<u128, Job>, ids: Seq<u128>, keep: spec_fn(Job) -> bool)
    requires
        keyed_by_id(m),
        ids.no_duplicates(),
        ids.to_set() == m.dom(),
    ensures
        lists_jobs(jobs_matching(m, ids, keep), m, keep),
{
    assert forall|i: int| 0 <= i < ids.len() implies m.contains_key(#[trigger] ids[i]) by {
        assert(ids.to_set().contains(ids[i]));
    }
    lemma_jobs_matching_lists(m, ids, keep);
    let v = jobs_matching(m, ids, keep);
    assert forall|id: u128| #[trigger] m.contains_key(id) && keep(m[id]) implies exists|i: int|
        0 <= i < v.len() && #[trigger] v[i].id == id by {
        assert(ids.to_set().contains(id));
    }
}

/// The ids a `HashMap`'s key iterator hands out: each stored id, once.
proof fn lemma_key_sequence(jobs: &HashMap<u128, Job>)
    ensures
        ({
            let ids = vstd::std_specs::iter::IteratorSpec::remaining(
                &vstd::std_specs::hash::spec_keys_iter(jobs),
            ).unref();
            &&& ids.no_duplicates()
            &&& ids.to_set() == jobs@.dom()
        }),
{
    let keys = vstd::std_specs::iter::IteratorSpec::remaining(
        &vstd::std_specs::hash::spec_keys_iter(jobs),
    );
    assert(keys.no_duplicates());
    let ids = keys.unref();
    assert forall|i: int, j: int| 0 <= i < ids.len() && 0 <= j < ids.len() && i != j implies ids[i]
        != ids[j] by {
        assert(keys[i] != keys[j]);
    }
}

/// Filtering the jobs under a duplicate-free list of stored ids lists them
/// once each.
proof fn lemma_jobs_matching_lists(m: Map<u128, Job>, ids: Seq<u128>, keep: spec_fn(Job) -> bool)
    requires
        keyed_by_id(m),
        ids.no_duplicates(),
        forall|i: int| 0 <= i < ids.len() ==> m.contains_key(#[trigger] ids[i]),
    ensures
        ({
            let v = jobs_matching(m, ids, keep);
            &&& forall|i: int|
                0 <= i < v.len() ==> ids.contains(#[trigger] v[i].id) && m.contains_key(v[i].id)
                    && m[v[i].id] == v[i] && keep(v[i])
            &&& forall|id: u128|
                ids.contains(id) && #[trigger] keep(m[id]) ==> exists|i: int|
                    0 <= i < v.len() && #[trigger] v[i].id == id
            &&& forall|i: int, j: int| 0 <= i < j < v.len() ==> v[i].id != v[j].id
        }),
    decreases ids.len(),
{
    if ids.len() > 0 {
        let rest_ids = ids.drop_last();
        let last = ids.last();
        assert(forall|i: int| 0 <= i < rest_ids.len() ==> rest_ids[i] == ids[i]);
        lemma_jobs_matching_lists(m, rest_ids, keep);
        assert(m.contains_key(ids[ids.len() - 1]));
        assert(!rest_ids.contains(last)) by {
            if rest_ids.contains(last) {
                let i = choose|i: int| 0 <= i < rest_ids.len() && rest_ids[i] == last;
                assert(ids[i] == ids[ids.len() - 1]);
            }
        }
        let rest = jobs_matching(m, rest_ids, keep);
        let v = jobs_matching(m, ids, keep);
        assert forall|id: u128| ids.contains(id) && #[trigger] keep(m[id]) implies exists|i: int|
            0 <= i < v.len() && #[trigger] v[i].id == id by {
            if id == last {
                assert(v[v.len() - 1].id == id);
            } else {
                let j = choose|j: int| 0 <= j < ids.len() && ids[j] == id;
                assert(rest_ids.contains(id)) by {
                    assert(rest_ids[j] == id);
                }
                let i = choose|i: int| 0 <= i < rest.len() && #[trigger] rest[i].id == id;
                assert(v[i] == rest[i]);
            }
        }
        assert forall|i: int| 0 <= i < v.len() implies ids.contains(#[trigger] v[i].id)
            && m.contains_key(v[i].id) && m[v[i].id] == v[i] && keep(v[i]) by {
            if i < rest.len() {
                assert(v[i] == rest[i]);
                let j = choose|j: int| 0 <= j < rest_ids.len() && rest_ids[j] == rest[i].id;
                assert(ids[j] == rest[i].id);
            } else {
                assert(ids[ids.len() - 1] == v[i].id);
            }
        }
        assert forall|i: int, j: int| 0 <= i < j < v.len() implies v[i].id != v[j].id by {
            if j < rest.len() {
                assert(v[i] == rest[i] && v[j] == rest[j]);
            } else {
                assert(v[i] == rest[i]);
                assert(rest_ids.contains(rest[i].id));
            }
        }
    }
}

/// A queue filter accepts exactly the jobs whose queue text is the queue's
/// name, whatever their status or other fields; the filter of all jobs
/// accepts every job.
pub proof fn law_queue_filter_is_queue_text(queue: Seq<char>, job: Job)
    ensures
        in_queue(queue)(job) <==> job.queue@ == queue,
        any_job()(job),
{
}

/// Reading an id gives the job the map holds under it, unchanged, or nothing
/// when it holds none.
pub proof fn law_read_is_map_entry(m: Map<u128, Job>, id: u128)
    ensures
        m.contains_key(id) ==> stored_job(m, id) == Some(m[id]),
        !m.contains_key(id) ==> stored_job(m, id) is None,
{
}

/// Saving puts the job itself, unchanged, under its id, and touches nothing
/// else.
pub proof fn law_save_stores_job_unchanged(m: Map<u128, Job>, job: Job)
    ensures
        with_job_saved(m, job) == m.insert(job.id, job),
        with_job_saved(m, job).contains_key(job.id),
        with_job_saved(m, job)[job.id] == job,
        with_job_saved(m, job).dom() == m.dom().insert(job.id),
{
}

/// After a save, a listing of all jobs holds the saved job itself.
pub proof fn law_listing_after_save_holds_job(m: Map<u128, Job>, job: Job, v: Seq<Job>)
    requires
        lists_jobs(v, with_job_saved(m, job), any_job()),
    ensures
        v.contains(job),
{
    let after = with_job_saved(m, job);
    assert(after.contains_key(job.id) && any_job()(after[job.id]));
    let i = choose|i: int| 0 <= i < v.len() && #[trigger] v[i].id == job.id;
    assert(v[i] == job);
}

/// A status update changes the status of that one job and nothing else: every
/// other field of the job, and every other job, stays as it was.
pub proof fn law_status_update_changes_only_status(
    m: Map<u128, Job>,
    id: u128,
    status: JobStatus,
    other: u128,
)
    requires
        m.contains_key(id),
    ensures
        with_status(m, id, status).dom() == m.dom(),
        with_status(m, id, status)[id].status == status,
        with_status(m, id, status)[id].id == m[id].id,
        with_status(m, id, status)[id].queue == m[id].queue,
        with_status(m, id, status)[id].payload == m[id].payload,
        with_status(m, id, status)[id].priority == m[id].priority,
        with_status(m, id, status)[id].retry_count == m[id].retry_count,
        with_status(m, id, status)[id].max_retries == m[id].max_retries,
        with_status(m, id, status)[id].created_at == m[id].created_at,
        with_status(m, id, status)[id].scheduled_at == m[id].scheduled_at,
        with_status(m, id, status)[id].lease_expires_at == m[id].lease_expires_at,
        with_status(m, id, status)[id].visibility_timeout_secs == m[id].visibility_timeout_secs,
        with_status(m, id, status)[id].result == m[id].result,
        with_status(m, id, status)[id].error == m[id].error,
        other != id ==> with_status(m, id, status).contains_key(other) == m.contains_key(other),
        other != id && m.contains_key(other) ==> with_status(m, id, status)[other] == m[other],
{
    assert(with_status(m, id, status).dom() =~= m.dom());
}

/// Clearing a queue removes exactly the jobs whose queue text is its name,
/// whatever their status, and keeps every other job unchanged.
pub proof fn law_clear_removes_exactly_the_queue(m: Map<u128, Job>, queue: Seq<char>, id: u128)
    ensures
        without_queue(m, queue).contains_key(id) <==> m.contains_key(id) && m[id].queue@ != queue,
        without_queue(m, queue).contains_key(id) ==> without_queue(m, queue)[id] == m[id],
        m.contains_key(id) && m[id].queue@ == queue ==> !without_queue(m, queue).contains_key(id),
{
}

/// A saved job is what a later read of its id gives back.
pub proof fn law_get_after_save(m: Map<u128, Job>, job: Job)
    ensures
        stored_job(with_job_saved(m, job), job.id) == Some(job),
{
}

/// Saving a job leaves every other id as it was.
pub proof fn law_save_leaves_others(m: Map<u128, Job>, job: Job, id: u128)
    requires
        id != job.id,
    ensures
        stored_job(with_job_saved(m, job), id) == stored_job(m, id),
{
}

/// After a job is deleted, reading its id gives nothing and deleting it again
/// fails, while every other id is as it was.
pub proof fn law_delete_removes_only_that_job(m: Map<u128, Job>, id: u128, other: u128)
    requires
        other != id,
    ensures
        stored_job(m.remove(id), id) is None,
        !m.remove(id).contains_key(id),
        stored_job(m.remove(id), other) == stored_job(m, other),
{
}

/// After a status update, the job reads back with the new status and every
/// other field unchanged, and every other id is as it was.
pub proof fn law_get_after_status_update(
    m: Map<u128, Job>,
    id: u128,
    status: JobStatus,
    other: u128,
)
    requires
        m.contains_key(id),
        other != id,
    ensures
        stored_job(with_status(m, id, status), id) == Some(Job { status: status, ..m[id] }),
        stored_job(with_status(m, id, status), other) == stored_job(m, other),
{
}

/// Once a queue is cleared, listing it gives nothing.
pub proof fn law_cleared_queue_lists_nothing(m: Map<u128, Job>, queue: Seq<char>, v: Seq<Job>)
    requires
        lists_jobs(v, without_queue(m, queue), in_queue(queue)),
    ensures
        v.len() == 0,
{
    if v.len() > 0 {
        assert(without_queue(m, queue).contains_key(v[0].id));
    }
}

/// Clearing a queue keeps every job of the other queues exactly as it was.
pub proof fn law_clear_keeps_other_queues(m: Map<u128, Job>, queue: Seq<char>, id: u128)
    requires
        m.contains_key(id),
        m[id].queue@ != queue,
    ensures
        stored_job(without_queue(m, queue), id) == stored_job(m, id),
{
}

/// A listing of all jobs has one entry per stored job.
pub proof fn law_all_jobs_counts_store(m: Map<u128, Job>, v: Seq<Job>)
    requires
        m.dom().finite(),
        lists_jobs(v, m, any_job()),
    ensures
        v.len() == m.dom().len(),
{
    lemma_listing_len(m, v, any_job());
    assert(m.dom().filter(|id: u128| any_job()(m[id])) =~= m.dom());
}

/// Filtering the listing of all jobs by queue gives the listing of that
/// queue: the same jobs, each once, possibly in another order.
pub proof fn law_queue_listing_filters_all_jobs(
    m: Map<u128, Job>,
    queue: Seq<char>,
    all: Seq<Job>,
    v: Seq<Job>,
)
    requires
        m.dom().finite(),
        lists_jobs(all, m, any_job()),
        lists_jobs(v, m, in_queue(queue)),
    ensures
        lists_jobs(all.filter(in_queue(queue)), m, in_queue(queue)),
        all.filter(in_queue(queue)).len() == v.len(),
        forall|j: Job| #[trigger] all.filter(in_queue(queue)).contains(j) <==> v.contains(j),
{
    broadcast use vstd::seq_lib::group_filter_ensures;

    let keep = in_queue(queue);
    let f = all.filter(keep);
    assert forall|i: int| 0 <= i < f.len() implies m.contains_key(#[trigger] f[i].id) && m[f[i].id]
        == f[i] && keep(f[i]) by {
        assert(f.contains(f[i]));
        all.lemma_filter_contains_rev(keep, f[i]);
        let k = choose|k: int| 0 <= k < all.len() && all[k] == f[i];
        assert(m.contains_key(all[k].id));
    }
    assert forall|id: u128| #[trigger] m.contains_key(id) && keep(m[id]) implies exists|i: int|
        0 <= i < f.len() && #[trigger] f[i].id == id by {
        assert(any_job()(m[id]));
        let k = choose|k: int| 0 <= k < all.len() && #[trigger] all[k].id == id;
        assert(m[all[k].id] == all[k]);
        assert(f.contains(all[k]));
        let i = choose|i: int| 0 <= i < f.len() && f[i] == all[k];
        assert(f[i].id == id);
    }
    lemma_filter_keeps_ids_distinct(all, keep);
    lemma_listing_len(m, f, keep);
    lemma_listing_len(m, v, keep);
    assert forall|j: Job| #[trigger] f.contains(j) implies v.contains(j) by {
        let i = choose|i: int| 0 <= i < f.len() && f[i] == j;
        assert(m.contains_key(f[i].id));
        let k = choose|k: int| 0 <= k < v.len() && #[trigger] v[k].id == j.id;
        assert(v[k] == j);
    }
    assert forall|j: Job| #[trigger] v.contains(j) implies f.contains(j) by {
        let k = choose|k: int| 0 <= k < v.len() && v[k] == j;
        assert(m.contains_key(v[k].id));
        let i = choose|i: int| 0 <= i < f.len() && #[trigger] f[i].id == j.id;
        assert(f[i] == j);
    }
}

/// A listing has one entry per stored job that `keep` accepts.
proof fn lemma_listing_len(m: Map<u128, Job>, v: Seq<Job>, keep: spec_fn(Job) -> bool)
    requires
        m.dom().finite(),
        lists_jobs(v, m, keep),
    ensures
        v.len() == m.dom().filter(|id: u128| keep(m[id])).len(),
{
    let wanted = m.dom().filter(|id: u128| keep(m[id]));
    let ids = Seq::new(v.len(), |i: int| v[i].id);
    assert(ids.no_duplicates()) by {
        assert forall|i: int, j: int| 0 <= i < ids.len() && 0 <= j < ids.len() && i != j implies ids[i]
            != ids[j] by {
            if i < j {
                assert(v[i].id != v[j].id);
            } else {
                assert(v[j].id != v[i].id);
            }
        }
    }
    assert(ids.to_set() =~= wanted) by {
        assert forall|id: u128| ids.to_set().contains(id) implies wanted.contains(id) by {
            let i = choose|i: int| 0 <= i < ids.len() && ids[i] == id;
            assert(m.contains_key(v[i].id));
        }
        assert forall|id: u128| wanted.contains(id) implies ids.to_set().contains(id) by {
            let i = choose|i: int| 0 <= i < v.len() && #[trigger] v[i].id == id;
            assert(ids[i] == id);
        }
    }
    ids.unique_seq_to_set();
}

/// Filtering a sequence of jobs with distinct ids keeps the ids distinct.
proof fn lemma_filter_keeps_ids_distinct(s: Seq<Job>, keep: spec_fn(Job) -> bool)
    requires
        forall|i: int, j: int| 0 <= i < j < s.len() ==> s[i].id != s[j].id,
    ensures
        forall|i: int, j: int|
            0 <= i < j < s.filter(keep).len() ==> s.filter(keep)[i].id != s.filter(keep)[j].id,
    decreases s.len(),
{
    reveal(Seq::filter);
    if s.len() > 0 {
        let rest = s.drop_last();
        lemma_filter_keeps_ids_distinct(rest, keep);
        let fr = rest.filter(keep);
        let f = s.filter(keep);
        if keep(s.last()) {
            assert(f == fr.push(s.last()));
            assert forall|i: int, j: int| 0 <= i < j < f.len() implies f[i].id != f[j].id by {
                if j == f.len() - 1 {
                    assert(f[i] == fr[i]);
                    assert(fr.contains(fr[i]));
                    rest.lemma_filter_contains_rev(keep, fr[i]);
                    let k = choose|k: int| 0 <= k < rest.len() && rest[k] == fr[i];
                    assert(s[k] == rest[k]);
                    assert(s[k].id != s[s.len() - 1].id);
                } else {
                    assert(f[i] == fr[i] && f[j] == fr[j]);
                }
            }
        }
    }
}

} // verus!
