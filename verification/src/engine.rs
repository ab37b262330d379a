//! The transfer engine's bookkeeping: the job table, per-job controls
//! (run / pause / cancel), the sets of active and pending jobs, and the
//! job cap with its slot counter.
//!
//! The engine decides; the caller performs. Waiting for a slot, reading
//! files, talking to R2 and saving the queue happen around these calls.
use vstd::prelude::*;
use crate::error::{AppError, spec_message};
use crate::ids::{is_uuid_v4_text, new_uuid};
use crate::keyed::{keyed_map, keys_unique, lemma_keyed_dom, lemma_keyed_index, lemma_keyed_push, lemma_keyed_remove, lemma_keyed_update};
use crate::multipart::should_multipart;
use crate::paths::{spec_unique_dest, unique_dest_among};
use crate::text::{chars_eq, chars_of};
use crate::transfer::{
    can_dismiss, clamp_job_limit, copy_opt_string, make_progress, resume_bytes, resume_matches,
    spec_can_dismiss, spec_clamp_job_limit, spec_make_progress, spec_resume_bytes, spec_resume_matches,
    JobControl, ResumeState, RunEnd, TransferDirection, TransferEvent, TransferProgress, TransferStatus,
    DEFAULT_JOB_LIMIT, MAX_JOB_LIMIT, MIN_JOB_LIMIT,
};

verus! {

pub open spec fn job_key() -> spec_fn(TransferProgress) -> Seq<char> {
    |p: TransferProgress| p.transfer_id@
}

pub open spec fn job_val() -> spec_fn(TransferProgress) -> TransferProgress {
    |p: TransferProgress| p
}

pub open spec fn control_key() -> spec_fn((String, JobControl)) -> Seq<char> {
    |e: (String, JobControl)| e.0@
}

pub open spec fn control_val() -> spec_fn((String, JobControl)) -> JobControl {
    |e: (String, JobControl)| e.1
}

pub open spec fn name_key() -> spec_fn(String) -> Seq<char> {
    |s: String| s@
}

pub open spec fn name_val() -> spec_fn(String) -> () {
    |s: String| ()
}

/// The job table a sequence of records stands for.
pub open spec fn jobs_of(s: Seq<TransferProgress>) -> Map<Seq<char>, TransferProgress> {
    keyed_map(s, job_key(), job_val())
}

/// The set of names a sequence of strings stands for.
pub open spec fn names_of(s: Seq<String>) -> Set<Seq<char>> {
    keyed_map(s, name_key(), name_val()).dom()
}

/// The job with id `id`, if the table holds one.
pub open spec fn spec_get(jobs: Map<Seq<char>, TransferProgress>, id: Seq<char>) -> Option<TransferProgress> {
    if jobs.dom().contains(id) {
        Some(jobs[id])
    } else {
        None
    }
}

/// The table after writing `p` under its id.
pub open spec fn after_upsert(jobs: Map<Seq<char>, TransferProgress>, p: TransferProgress) -> Map<Seq<char>, TransferProgress> {
    jobs.insert(p.transfer_id@, p)
}

/// What the engine asks of job `id`: its recorded control, `Run` by default.
pub open spec fn spec_control(controls: Map<Seq<char>, JobControl>, id: Seq<char>) -> JobControl {
    if controls.dom().contains(id) {
        controls[id]
    } else {
        JobControl::Run
    }
}

/// Job `id` is cancelled: it was told to cancel or its record says so.
pub open spec fn spec_is_cancelled(
    jobs: Map<Seq<char>, TransferProgress>,
    controls: Map<Seq<char>, JobControl>,
    id: Seq<char>,
) -> bool {
    spec_control(controls, id) == JobControl::Cancel || (jobs.dom().contains(id) && jobs[id].status
        == TransferStatus::Cancelled)
}

/// The outcome of one attempt to take a job slot.
#[derive(Clone, Copy, Debug, PartialEq, Eq, Structural)]
pub enum SlotAttempt {
    /// The job was cancelled while it waited; it must not run.
    Cancelled,
    /// A slot was taken; the job may run.
    Acquired,
    /// All slots are in use; wait for a change and try again.
    Wait,
}

/// What a run finds once it holds a slot.
#[derive(Clone, Debug)]
pub enum RunStart {
    /// No job has that id.
    Missing,
    /// The job is already cancelled or completed; nothing to do.
    Skip,
    /// The job to run.
    Go(TransferProgress),
}

/// The state of the transfer engine.
pub struct TransferEngine {
    jobs: Vec<TransferProgress>,
    controls: Vec<(String, JobControl)>,
    active: Vec<String>,
    pending: Vec<String>,
    job_limit: usize,
    slots_used: usize,
    dir: String,
}

/// Position of the job with id `id` in `v`.
fn find_job(v: &Vec<TransferProgress>, id: &Vec<char>) -> (r: Option<usize>)
    requires
        keys_unique(v@, job_key()),
    ensures
        match r {
            Some(i) => i < v.len() && v@[i as int].transfer_id@ == id@,
            None => !jobs_of(v@).dom().contains(id@),
        },
{
    let mut i: usize = 0;
    while i < v.len()
        invariant
            i <= v.len(),
            forall|j: int| 0 <= j < i ==> v@[j].transfer_id@ != id@,
        decreases v.len() - i,
    {
        if chars_eq(&chars_of(v[i].transfer_id.as_str()), id) {
            return Some(i);
        }
        i = i + 1;
    }
    proof {
        lemma_keyed_dom(v@, job_key(), job_val(), id@);
    }
    None
}

/// Writes `p` into the table `v`, replacing the job with the same id.
fn put_job(v: &mut Vec<TransferProgress>, p: TransferProgress)
    requires
        keys_unique(old(v)@, job_key()),
    ensures
        keys_unique(final(v)@, job_key()),
        jobs_of(final(v)@) == after_upsert(jobs_of(old(v)@), p),
{
    let id = chars_of(p.transfer_id.as_str());
    match find_job(v, &id) {
        Some(i) => {
            proof {
                lemma_keyed_update(v@, job_key(), job_val(), i as int, p);
            }
            v.set(i, p);
        },
        None => {
            proof {
                lemma_keyed_push(v@, job_key(), job_val(), p);
            }
            v.push(p);
        },
    }
}

/// Drops the job with id `id` from the table `v`, if there is one.
fn drop_job(v: &mut Vec<TransferProgress>, id: &Vec<char>)
    requires
        keys_unique(old(v)@, job_key()),
    ensures
        keys_unique(final(v)@, job_key()),
        jobs_of(final(v)@) == jobs_of(old(v)@).remove(id@),
{
    match find_job(v, id) {
        Some(i) => {
            proof {
                lemma_keyed_remove(v@, job_key(), job_val(), i as int);
            }
            v.remove(i);
        },
        None => {
            assert(jobs_of(v@) =~= jobs_of(v@).remove(id@));
        },
    }
}

/// Position of the control of job `id` in `v`.
fn find_control(v: &Vec<(String, JobControl)>, id: &Vec<char>) -> (r: Option<usize>)
    requires
        keys_unique(v@, control_key()),
    ensures
        match r {
            Some(i) => i < v.len() && v@[i as int].0@ == id@,
            None => !keyed_map(v@, control_key(), control_val()).dom().contains(id@),
        },
{
    let mut i: usize = 0;
    while i < v.len()
        invariant
            i <= v.len(),
            forall|j: int| 0 <= j < i ==> v@[j].0@ != id@,
        decreases v.len() - i,
    {
        if chars_eq(&chars_of(v[i].0.as_str()), id) {
            return Some(i);
        }
        i = i + 1;
    }
    proof {
        lemma_keyed_dom(v@, control_key(), control_val(), id@);
    }
    None
}

/// Sets the control of job `id` to `c`.
fn put_control(v: &mut Vec<(String, JobControl)>, id: &str, c: JobControl)
    requires
        keys_unique(old(v)@, control_key()),
    ensures
        keys_unique(final(v)@, control_key()),
        keyed_map(final(v)@, control_key(), control_val()) == keyed_map(old(v)@, control_key(), control_val()).insert(id@, c),
{
    let ids = chars_of(id);
    let e = (id.to_owned(), c);
    match find_control(v, &ids) {
        Some(i) => {
            proof {
                lemma_keyed_update(v@, control_key(), control_val(), i as int, e);
            }
            v.set(i, e);
        },
        None => {
            proof {
                lemma_keyed_push(v@, control_key(), control_val(), e);
            }
            v.push(e);
        },
    }
}

/// Forgets the control of job `id`.
fn drop_control(v: &mut Vec<(String, JobControl)>, id: &Vec<char>)
    requires
        keys_unique(old(v)@, control_key()),
    ensures
        keys_unique(final(v)@, control_key()),
        keyed_map(final(v)@, control_key(), control_val()) == keyed_map(old(v)@, control_key(), control_val()).remove(id@),
{
    match find_control(v, id) {
        Some(i) => {
            proof {
                lemma_keyed_remove(v@, control_key(), control_val(), i as int);
            }
            v.remove(i);
        },
        None => {
            assert(keyed_map(v@, control_key(), control_val()) =~= keyed_map(v@, control_key(), control_val()).remove(id@));
        },
    }
}

/// Position of the name `id` in `v`.
fn find_name(v: &Vec<String>, id: &Vec<char>) -> (r: Option<usize>)
    requires
        keys_unique(v@, name_key()),
    ensures
        match r {
            Some(i) => i < v.len() && v@[i as int]@ == id@,
            None => !names_of(v@).contains(id@),
        },
{
    let mut i: usize = 0;
    while i < v.len()
        invariant
            i <= v.len(),
            forall|j: int| 0 <= j < i ==> v@[j]@ != id@,
        decreases v.len() - i,
    {
        if chars_eq(&chars_of(v[i].as_str()), id) {
            return Some(i);
        }
        i = i + 1;
    }
    proof {
        lemma_keyed_dom(v@, name_key(), name_val(), id@);
    }
    None
}

/// Whether `id` is one of the names in `v`.
fn has_name(v: &Vec<String>, id: &str) -> (r: bool)
    requires
        keys_unique(v@, name_key()),
    ensures
        r == names_of(v@).contains(id@),
{
    let ids = chars_of(id);
    match find_name(v, &ids) {
        Some(i) => {
            proof {
                lemma_keyed_index(v@, name_key(), name_val(), i as int);
            }
            true
        },
        None => false,
    }
}

/// Adds the name `id` to `v`.
fn add_name(v: &mut Vec<String>, id: &str)
    requires
        keys_unique(old(v)@, name_key()),
    ensures
        keys_unique(final(v)@, name_key()),
        names_of(final(v)@) == names_of(old(v)@).insert(id@),
{
    let ids = chars_of(id);
    match find_name(v, &ids) {
        Some(i) => {
            proof {
                lemma_keyed_index(v@, name_key(), name_val(), i as int);
                assert(names_of(v@) =~= names_of(v@).insert(id@));
            }
        },
        None => {
            let s = id.to_owned();
            proof {
                lemma_keyed_push(v@, name_key(), name_val(), s);
                assert(names_of(v@.push(s)) =~= names_of(v@).insert(id@));
            }
            v.push(s);
        },
    }
}

/// Removes the name `id` from `v`.
fn drop_name(v: &mut Vec<String>, id: &Vec<char>)
    requires
        keys_unique(old(v)@, name_key()),
    ensures
        keys_unique(final(v)@, name_key()),
        names_of(final(v)@) == names_of(old(v)@).remove(id@),
{
    match find_name(v, id) {
        Some(i) => {
            proof {
                lemma_keyed_remove(v@, name_key(), name_val(), i as int);
                assert(names_of(v@.remove(i as int)) =~= names_of(v@).remove(id@));
            }
            v.remove(i);
        },
        None => {
            assert(names_of(v@) =~= names_of(v@).remove(id@));
        },
    }
}

/// The non-empty paths of a sequence of jobs, in order.
pub open spec fn job_paths(s: Seq<TransferProgress>) -> Seq<String>
    decreases s.len(),
{
    if s.len() == 0 {
        Seq::empty()
    } else if s.last().path@.len() > 0 {
        job_paths(s.drop_last()).push(s.last().path)
    } else {
        job_paths(s.drop_last())
    }
}

/// A path is among `job_paths(s)` exactly when it is the non-empty path of
/// some job of `s`.
pub proof fn lemma_job_paths(s: Seq<TransferProgress>, p: Seq<char>)
    ensures
        crate::paths::texts(job_paths(s)).contains(p) <==> p.len() > 0 && exists|i: int| 0 <= i < s.len() && s[i].path@ == p,
    decreases s.len(),
{
    if s.len() == 0 {
        assert(crate::paths::texts(job_paths(s)) =~= Seq::<Seq<char>>::empty());
    } else {
        let t = s.drop_last();
        lemma_job_paths(t, p);
        let jp = job_paths(t);
        let tx = crate::paths::texts(jp);
        let lp = s.last().path;
        let left = crate::paths::texts(job_paths(s)).contains(p);
        let right_t = p.len() > 0 && exists|i: int| 0 <= i < t.len() && t[i].path@ == p;
        let right_s = p.len() > 0 && exists|i: int| 0 <= i < s.len() && s[i].path@ == p;
        assert(right_t ==> right_s) by {
            if right_t {
                let i = choose|i: int| 0 <= i < t.len() && t[i].path@ == p;
                assert(s[i] == t[i]);
            }
        }
        assert(right_s ==> right_t || (p == lp@ && lp@.len() > 0)) by {
            if right_s {
                let i = choose|i: int| 0 <= i < s.len() && s[i].path@ == p;
                if i < t.len() {
                    assert(t[i] == s[i]);
                } else {
                    assert(s[i] == s.last());
                }
            }
        }
        if lp@.len() > 0 {
            let u = jp.push(lp);
            assert(job_paths(s) == u);
            assert(crate::paths::texts(u) =~= tx.push(lp@));
            assert(left == (tx.contains(p) || p == lp@)) by {
                if tx.push(lp@).contains(p) {
                    let k = choose|k: int| 0 <= k < tx.push(lp@).len() && tx.push(lp@)[k] == p;
                    if k < tx.len() {
                        assert(tx[k] == p);
                    }
                }
                if tx.contains(p) {
                    let k = choose|k: int| 0 <= k < tx.len() && tx[k] == p;
                    assert(tx.push(lp@)[k] == p);
                }
                if p == lp@ {
                    assert(tx.push(lp@)[tx.len() as int] == p);
                }
            }
            if p == lp@ {
                assert(s[s.len() - 1].path@ == p);
            }
        } else {
            assert(job_paths(s) == jp);
        }
    }
}

/// Whether a cancelled download leaves a partial file to delete.
pub open spec fn spec_removes_partial(job: TransferProgress) -> bool {
    job.direction == TransferDirection::Download && job.status != TransferStatus::Completed && job.path@.len() > 0
}

/// Whether cancelling `job` deletes its partly written file.
pub fn removes_partial(job: &TransferProgress) -> (r: bool)
    ensures
        r == spec_removes_partial(*job),
        job.direction == TransferDirection::Upload ==> !r,
        job.status == TransferStatus::Completed ==> !r,
{
    job.direction == TransferDirection::Download && job.status != TransferStatus::Completed && job.path.unicode_len() > 0
}

/// Cancelling never deletes a user's file: not the source of an upload,
/// not a finished download, and nothing when the job names no path; only
/// the partial file of an unfinished download with a path is deleted.
pub proof fn lemma_cancel_deletes_only_partial_downloads(job: TransferProgress)
    ensures
        job.direction == TransferDirection::Upload ==> !spec_removes_partial(job),
        job.status == TransferStatus::Completed ==> !spec_removes_partial(job),
        job.path@.len() == 0 ==> !spec_removes_partial(job),
        job.direction == TransferDirection::Download && job.status != TransferStatus::Completed && job.path@.len() > 0
            ==> spec_removes_partial(job),
{
}

impl TransferEngine {
    /// The job table.
    pub closed spec fn jobs_view(&self) -> Map<Seq<char>, TransferProgress> {
        jobs_of(self.jobs@)
    }

    /// The recorded control of each job.
    pub closed spec fn controls_view(&self) -> Map<Seq<char>, JobControl> {
        keyed_map(self.controls@, control_key(), control_val())
    }

    /// Jobs that are running now.
    pub closed spec fn active_view(&self) -> Set<Seq<char>> {
        names_of(self.active@)
    }

    /// Jobs queued or waiting for a slot.
    pub closed spec fn pending_view(&self) -> Set<Seq<char>> {
        names_of(self.pending@)
    }

    /// How many jobs may run at once.
    pub closed spec fn limit(&self) -> nat {
        self.job_limit as nat
    }

    /// How many slots are taken.
    pub closed spec fn used(&self) -> nat {
        self.slots_used as nat
    }

    /// The directory of the queue and the sidecars.
    pub closed spec fn dir_view(&self) -> Seq<char> {
        self.dir@
    }

    /// The engine's tables are consistent and the cap is within bounds.
    #[verifier::type_invariant]
    pub closed spec fn wf(&self) -> bool {
        &&& keys_unique(self.jobs@, job_key())
        &&& keys_unique(self.controls@, control_key())
        &&& keys_unique(self.active@, name_key())
        &&& keys_unique(self.pending@, name_key())
        &&& MIN_JOB_LIMIT <= self.job_limit <= MAX_JOB_LIMIT
    }

    /// Every job is stored under its own id.
    pub proof fn lemma_stored_under_own_id(&self, k: Seq<char>)
        requires
            self.wf(),
            self.jobs_view().dom().contains(k),
        ensures
            self.jobs_view()[k].transfer_id@ == k,
    {
        lemma_keyed_dom(self.jobs@, job_key(), job_val(), k);
        let i = choose|i: int| 0 <= i < self.jobs@.len() && job_key()(self.jobs@[i]) == k;
        lemma_keyed_index(self.jobs@, job_key(), job_val(), i);
    }

    /// The job cap is always within `1..=16`.
    pub proof fn lemma_limit_bounds(&self)
        requires
            self.wf(),
        ensures
            MIN_JOB_LIMIT <= self.limit() <= MAX_JOB_LIMIT,
    {
    }

    /// An engine over `dir` holding the jobs saved there, later records
    /// winning over earlier ones with the same id; nothing runs yet.
    pub fn new(dir: String, saved: Vec<TransferProgress>) -> (r: TransferEngine)
        ensures
            r.jobs_view() == jobs_of(saved@),
            r.controls_view() == Map::<Seq<char>, JobControl>::empty(),
            r.active_view() == Set::<Seq<char>>::empty(),
            r.pending_view() == Set::<Seq<char>>::empty(),
            r.limit() == DEFAULT_JOB_LIMIT,
            r.used() == 0,
            r.dir_view() == dir@,
    {
        let mut jobs: Vec<TransferProgress> = Vec::new();
        let mut i: usize = 0;
        while i < saved.len()
            invariant
                i <= saved.len(),
                keys_unique(jobs@, job_key()),
                jobs_of(jobs@) == jobs_of(saved@.subrange(0, i as int)),
            decreases saved.len() - i,
        {
            let p = saved[i].copy();
            put_job(&mut jobs, p);
            assert(saved@.subrange(0, i + 1).drop_last() == saved@.subrange(0, i as int));
            i = i + 1;
        }
        assert(saved@.subrange(0, saved.len() as int) == saved@);
        let r = TransferEngine {
            jobs,
            controls: Vec::new(),
            active: Vec::new(),
            pending: Vec::new(),
            job_limit: DEFAULT_JOB_LIMIT,
            slots_used: 0,
            dir,
        };
        assert(r.controls_view() =~= Map::<Seq<char>, JobControl>::empty());
        assert(r.active_view() =~= Set::<Seq<char>>::empty());
        assert(r.pending_view() =~= Set::<Seq<char>>::empty());
        r
    }

    /// The directory of the queue and the sidecars.
    pub fn dir(&self) -> (r: String)
        ensures
            r@ == self.dir_view(),
    {
        self.dir.clone()
    }

    /// Every job, each once.
    pub fn list(&self) -> (r: Vec<TransferProgress>)
        ensures
            keys_unique(r@, job_key()),
            jobs_of(r@) == self.jobs_view(),
    {
        proof {
            use_type_invariant(&*self);
        }
        let mut r: Vec<TransferProgress> = Vec::new();
        let mut i: usize = 0;
        while i < self.jobs.len()
            invariant
                i <= self.jobs.len(),
                r@ == self.jobs@.subrange(0, i as int),
            decreases self.jobs.len() - i,
        {
            r.push(self.jobs[i].copy());
            i = i + 1;
        }
        assert(self.jobs@.subrange(0, self.jobs.len() as int) == self.jobs@);
        r
    }

    /// The job with id `id`.
    pub fn get(&self, id: &str) -> (r: Option<TransferProgress>)
        ensures
            r == spec_get(self.jobs_view(), id@),
    {
        proof {
            use_type_invariant(&*self);
        }
        let ids = chars_of(id);
        match find_job(&self.jobs, &ids) {
            Some(i) => {
                proof {
                    lemma_keyed_index(self.jobs@, job_key(), job_val(), i as int);
                }
                Some(self.jobs[i].copy())
            },
            None => None,
        }
    }

    /// Writes `p` into the job table under its id.
    pub fn upsert(&mut self, p: TransferProgress)
        ensures
            final(self).jobs_view() == after_upsert(old(self).jobs_view(), p),
            final(self).controls_view() == old(self).controls_view(),
            final(self).active_view() == old(self).active_view(),
            final(self).pending_view() == old(self).pending_view(),
            final(self).limit() == old(self).limit(),
            final(self).used() == old(self).used(),
            final(self).dir_view() == old(self).dir_view(),
    {
        proof {
            use_type_invariant(&*self);
        }
        let mut jobs = Vec::new();
        std::mem::swap(&mut jobs, &mut self.jobs);
        put_job(&mut jobs, p);
        self.jobs = jobs;
    }

    /// What the engine asks of job `id`.
    pub fn control(&self, id: &str) -> (r: JobControl)
        ensures
            r == spec_control(self.controls_view(), id@),
    {
        proof {
            use_type_invariant(&*self);
        }
        let ids = chars_of(id);
        match find_control(&self.controls, &ids) {
            Some(i) => {
                proof {
                    lemma_keyed_index(self.controls@, control_key(), control_val(), i as int);
                }
                self.controls[i].1
            },
            None => JobControl::Run,
        }
    }

    /// Whether job `id` is cancelled.
    pub fn is_cancelled(&self, id: &str) -> (r: bool)
        ensures
            r == spec_is_cancelled(self.jobs_view(), self.controls_view(), id@),
    {
        proof {
            use_type_invariant(&*self);
        }
        if self.control(id) == JobControl::Cancel {
            return true;
        }
        match self.get(id) {
            Some(job) => job.status == TransferStatus::Cancelled,
            None => false,
        }
    }

    /// Asks job `id` to pause at its next check.
    pub fn pause(&mut self, id: &str)
        ensures
            final(self).controls_view() == old(self).controls_view().insert(id@, JobControl::Pause),
            final(self).jobs_view() == old(self).jobs_view(),
            final(self).active_view() == old(self).active_view(),
            final(self).pending_view() == old(self).pending_view(),
            final(self).limit() == old(self).limit(),
            final(self).used() == old(self).used(),
            final(self).dir_view() == old(self).dir_view(),
    {
        proof {
            use_type_invariant(&*self);
        }
        let mut controls = Vec::new();
        std::mem::swap(&mut controls, &mut self.controls);
        put_control(&mut controls, id, JobControl::Pause);
        self.controls = controls;
    }

    /// Asks job `id` to run again. Returns whether a live task (running or
    /// waiting) will pick the request up, so that no new run is needed.
    pub fn resume_signal(&mut self, id: &str) -> (r: bool)
        ensures
            final(self).controls_view() == old(self).controls_view().insert(id@, JobControl::Run),
            r == (old(self).active_view().contains(id@) || old(self).pending_view().contains(id@)),
            final(self).jobs_view() == old(self).jobs_view(),
            final(self).active_view() == old(self).active_view(),
            final(self).pending_view() == old(self).pending_view(),
            final(self).limit() == old(self).limit(),
            final(self).used() == old(self).used(),
            final(self).dir_view() == old(self).dir_view(),
    {
        proof {
            use_type_invariant(&*self);
        }
        let mut controls = Vec::new();
        std::mem::swap(&mut controls, &mut self.controls);
        put_control(&mut controls, id, JobControl::Run);
        self.controls = controls;
        has_name(&self.active, id) || has_name(&self.pending, id)
    }

    /// Sets the job cap to `n`, brought into `1..=16`.
    pub fn set_job_limit(&mut self, n: usize)
        ensures
            final(self).limit() == spec_clamp_job_limit(n),
            final(self).jobs_view() == old(self).jobs_view(),
            final(self).controls_view() == old(self).controls_view(),
            final(self).active_view() == old(self).active_view(),
            final(self).pending_view() == old(self).pending_view(),
            final(self).used() == old(self).used(),
            final(self).dir_view() == old(self).dir_view(),
    {
        proof {
            use_type_invariant(&*self);
        }
        self.job_limit = clamp_job_limit(n);
    }

    /// One attempt of job `id` to take a slot: refused when the job is
    /// cancelled, taken when fewer slots than the cap are used, else wait.
    pub fn try_acquire_slot(&mut self, id: &str) -> (r: SlotAttempt)
        ensures
            spec_is_cancelled(old(self).jobs_view(), old(self).controls_view(), id@) ==> r == SlotAttempt::Cancelled
                && final(self).used() == old(self).used(),
            !spec_is_cancelled(old(self).jobs_view(), old(self).controls_view(), id@) && old(self).used() < old(self).limit()
                ==> r == SlotAttempt::Acquired && final(self).used() == old(self).used() + 1,
            !spec_is_cancelled(old(self).jobs_view(), old(self).controls_view(), id@) && old(self).used() >= old(self).limit()
                ==> r == SlotAttempt::Wait && final(self).used() == old(self).used(),
            final(self).jobs_view() == old(self).jobs_view(),
            final(self).controls_view() == old(self).controls_view(),
            final(self).active_view() == old(self).active_view(),
            final(self).pending_view() == old(self).pending_view(),
            final(self).limit() == old(self).limit(),
            final(self).dir_view() == old(self).dir_view(),
    {
        proof {
            use_type_invariant(&*self);
        }
        if self.is_cancelled(id) {
            return SlotAttempt::Cancelled;
        }
        if self.slots_used < self.job_limit {
            self.slots_used = self.slots_used + 1;
            SlotAttempt::Acquired
        } else {
            SlotAttempt::Wait
        }
    }

    /// Gives a slot back.
    pub fn release_slot(&mut self)
        ensures
            final(self).used() == if old(self).used() > 0 { old(self).used() - 1 } else { 0 },
            final(self).jobs_view() == old(self).jobs_view(),
            final(self).controls_view() == old(self).controls_view(),
            final(self).active_view() == old(self).active_view(),
            final(self).pending_view() == old(self).pending_view(),
            final(self).limit() == old(self).limit(),
            final(self).dir_view() == old(self).dir_view(),
    {
        proof {
            use_type_invariant(&*self);
        }
        self.slots_used = self.slots_used.saturating_sub(1);
    }

    /// Records that job `id` is running; it keeps any control it has, else
    /// it is told to run.
    pub fn mark_active(&mut self, id: &str)
        ensures
            final(self).active_view() == old(self).active_view().insert(id@),
            final(self).controls_view() == if old(self).controls_view().dom().contains(id@) {
                old(self).controls_view()
            } else {
                old(self).controls_view().insert(id@, JobControl::Run)
            },
            final(self).jobs_view() == old(self).jobs_view(),
            final(self).pending_view() == old(self).pending_view(),
            final(self).limit() == old(self).limit(),
            final(self).used() == old(self).used(),
            final(self).dir_view() == old(self).dir_view(),
    {
        proof {
            use_type_invariant(&*self);
        }
        let mut active = Vec::new();
        std::mem::swap(&mut active, &mut self.active);
        add_name(&mut active, id);
        self.active = active;
        let ids = chars_of(id);
        match find_control(&self.controls, &ids) {
            Some(i) => {
                proof {
                    lemma_keyed_index(self.controls@, control_key(), control_val(), i as int);
                }
            },
            None => {
                let mut controls = Vec::new();
                std::mem::swap(&mut controls, &mut self.controls);
                put_control(&mut controls, id, JobControl::Run);
                self.controls = controls;
            },
        }
    }

    /// Records that job `id` stopped running and forgets its control.
    pub fn mark_inactive(&mut self, id: &str)
        ensures
            final(self).active_view() == old(self).active_view().remove(id@),
            final(self).controls_view() == old(self).controls_view().remove(id@),
            final(self).jobs_view() == old(self).jobs_view(),
            final(self).pending_view() == old(self).pending_view(),
            final(self).limit() == old(self).limit(),
            final(self).used() == old(self).used(),
            final(self).dir_view() == old(self).dir_view(),
    {
        proof {
            use_type_invariant(&*self);
        }
        let ids = chars_of(id);
        let mut active = Vec::new();
        std::mem::swap(&mut active, &mut self.active);
        drop_name(&mut active, &ids);
        self.active = active;
        let mut controls = Vec::new();
        std::mem::swap(&mut controls, &mut self.controls);
        drop_control(&mut controls, &ids);
        self.controls = controls;
    }

    /// Records that job `id` waits to run.
    pub fn add_pending(&mut self, id: &str)
        ensures
            final(self).pending_view() == old(self).pending_view().insert(id@),
            final(self).jobs_view() == old(self).jobs_view(),
            final(self).controls_view() == old(self).controls_view(),
            final(self).active_view() == old(self).active_view(),
            final(self).limit() == old(self).limit(),
            final(self).used() == old(self).used(),
            final(self).dir_view() == old(self).dir_view(),
    {
        proof {
            use_type_invariant(&*self);
        }
        let mut pending = Vec::new();
        std::mem::swap(&mut pending, &mut self.pending);
        add_name(&mut pending, id);
        self.pending = pending;
    }

    /// Records that job `id` no longer waits.
    pub fn remove_pending(&mut self, id: &str)
        ensures
            final(self).pending_view() == old(self).pending_view().remove(id@),
            final(self).jobs_view() == old(self).jobs_view(),
            final(self).controls_view() == old(self).controls_view(),
            final(self).active_view() == old(self).active_view(),
            final(self).limit() == old(self).limit(),
            final(self).used() == old(self).used(),
            final(self).dir_view() == old(self).dir_view(),
    {
        proof {
            use_type_invariant(&*self);
        }
        let ids = chars_of(id);
        let mut pending = Vec::new();
        std::mem::swap(&mut pending, &mut self.pending);
        drop_name(&mut pending, &ids);
        self.pending = pending;
    }

    /// Drops the finished history row of job `id`.
    ///
    /// Unknown ids are ignored (`Ok(())`); a job that is not over is
    /// refused with `Other("transfer is still active")` and nothing changes;
    /// otherwise the row, its control and its active mark go (`Ok(())`,
    /// and the queue must be saved). Files and uploads are left alone.
    pub fn dismiss(&mut self, id: &str) -> (r: Result<(), AppError>)
        ensures
            !old(self).jobs_view().dom().contains(id@) ==> r == Ok::<(), AppError>(()) && *final(self) == *old(self),
            old(self).jobs_view().dom().contains(id@) && !spec_can_dismiss(old(self).jobs_view()[id@]) ==> *final(self)
                == *old(self) && (r matches Err(AppError::Other(m)) && m@ == "transfer is still active"@),
            old(self).jobs_view().dom().contains(id@) && spec_can_dismiss(old(self).jobs_view()[id@]) ==> {
                &&& r == Ok::<(), AppError>(())
                &&& final(self).jobs_view() == old(self).jobs_view().remove(id@)
                &&& final(self).controls_view() == old(self).controls_view().remove(id@)
                &&& final(self).active_view() == old(self).active_view().remove(id@)
                &&& final(self).pending_view() == old(self).pending_view()
                &&& final(self).limit() == old(self).limit()
                &&& final(self).used() == old(self).used()
                &&& final(self).dir_view() == old(self).dir_view()
            },
    {
        proof {
            use_type_invariant(&*self);
        }
        let ids = chars_of(id);
        match find_job(&self.jobs, &ids) {
            None => Ok(()),
            Some(i) => {
                proof {
                    lemma_keyed_index(self.jobs@, job_key(), job_val(), i as int);
                }
                if !can_dismiss(&self.jobs[i]) {
                    let m = "transfer is still active".to_owned();
                    return Err(AppError::Other(m));
                }
                let mut jobs = Vec::new();
                std::mem::swap(&mut jobs, &mut self.jobs);
                drop_job(&mut jobs, &ids);
                self.jobs = jobs;
                let mut controls = Vec::new();
                std::mem::swap(&mut controls, &mut self.controls);
                drop_control(&mut controls, &ids);
                self.controls = controls;
                let mut active = Vec::new();
                std::mem::swap(&mut active, &mut self.active);
                drop_name(&mut active, &ids);
                self.active = active;
                Ok(())
            },
        }
    }

    /// Tells job `id` to cancel and, when the job is known, marks its record
    /// `Cancelled` (keeping its byte count). Returns the record as it was
    /// before, so that the caller can abort its upload, drop its sidecar and,
    /// for an unfinished download, delete the partial file.
    pub fn cancel(&mut self, id: &str) -> (r: Option<TransferProgress>)
        ensures
            r == spec_get(old(self).jobs_view(), id@),
            r matches Some(j) ==> j.transfer_id@ == id@ && final(self).jobs_view()[id@] == spec_make_progress(
                j,
                j.bytes_done,
                TransferStatus::Cancelled,
                None,
            ),
            r is None ==> !final(self).jobs_view().dom().contains(id@),
            final(self).controls_view() == old(self).controls_view().insert(id@, JobControl::Cancel),
            final(self).jobs_view() == match r {
                Some(job) => after_upsert(
                    old(self).jobs_view(),
                    spec_make_progress(job, job.bytes_done, TransferStatus::Cancelled, None),
                ),
                None => old(self).jobs_view(),
            },
            final(self).active_view() == old(self).active_view(),
            final(self).pending_view() == old(self).pending_view(),
            final(self).limit() == old(self).limit(),
            final(self).used() == old(self).used(),
            final(self).dir_view() == old(self).dir_view(),
    {
        proof {
            use_type_invariant(&*self);
        }
        let mut controls = Vec::new();
        std::mem::swap(&mut controls, &mut self.controls);
        put_control(&mut controls, id, JobControl::Cancel);
        self.controls = controls;
        let job = self.get(id);
        proof {
            if self.jobs_view().dom().contains(id@) {
                self.lemma_stored_under_own_id(id@);
            }
        }
        match &job {
            Some(j) => {
                let p = make_progress(j, j.bytes_done, TransferStatus::Cancelled, None);
                self.upsert(p);
            },
            None => {},
        }
        job
    }

    /// Queues the upload of `path` (`size` bytes) to `bucket`/`key`.
    ///
    /// `loaded` is the sidecar found for that object, if any, and
    /// `path_is_file` whether the sidecar's file still exists. The job keeps
    /// `resume_id` when given, else the id of a matching sidecar, else a
    /// fresh one; its byte count starts at what a matching sidecar already
    /// uploaded. Multipart (and so pausable) uploads are those of at least
    /// the multipart threshold. Returns the queued record.
    pub fn enqueue_upload(
        &mut self,
        profile_id: &str,
        bucket: &str,
        key: &str,
        path: &str,
        size: u64,
        loaded: Option<ResumeState>,
        path_is_file: bool,
        resume_id: Option<String>,
    ) -> (r: TransferProgress)
        requires
            loaded matches Some(res) ==> spec_resume_bytes(res) <= u64::MAX,
        ensures
            ({
                let matching = match loaded {
                    Some(res) => spec_resume_matches(res, path@, size, path_is_file),
                    None => false,
                };
                &&& match resume_id {
                    Some(rid) => r.transfer_id == rid,
                    None => if matching {
                        r.transfer_id == loaded.unwrap().transfer_id
                    } else {
                        is_uuid_v4_text(r.transfer_id@)
                    },
                }
                &&& r.bytes_done == if matching { spec_resume_bytes(loaded.unwrap()) } else { 0 }
            }),
            r.key@ == key@,
            r.direction == TransferDirection::Upload,
            r.bytes_total == size,
            r.status == TransferStatus::Queued,
            r.error is None,
            r.profile_id@ == profile_id@,
            r.bucket@ == bucket@,
            r.path@ == path@,
            r.pausable == (size >= crate::multipart::MULTIPART_THRESHOLD),
            final(self).pending_view() == old(self).pending_view().insert(r.transfer_id@),
            final(self).jobs_view() == after_upsert(old(self).jobs_view(), r),
            final(self).controls_view() == old(self).controls_view(),
            final(self).active_view() == old(self).active_view(),
            final(self).limit() == old(self).limit(),
            final(self).used() == old(self).used(),
            final(self).dir_view() == old(self).dir_view(),
    {
        proof {
            use_type_invariant(&*self);
        }
        let matching: Option<ResumeState> = match loaded {
            Some(res) => if resume_matches(&res, path, size, path_is_file) {
                Some(res)
            } else {
                None
            },
            None => None,
        };
        let id = match resume_id {
            Some(rid) => rid,
            None => match &matching {
                Some(res) => res.transfer_id.clone(),
                None => new_uuid(),
            },
        };
        let bytes_done = match &matching {
            Some(res) => resume_bytes(res),
            None => 0,
        };
        let job = TransferProgress {
            transfer_id: id,
            key: key.to_owned(),
            direction: TransferDirection::Upload,
            bytes_done,
            bytes_total: size,
            status: TransferStatus::Queued,
            error: None,
            profile_id: profile_id.to_owned(),
            bucket: bucket.to_owned(),
            path: path.to_owned(),
            pausable: should_multipart(size),
        };
        self.add_pending(job.transfer_id.as_str());
        let r = job.copy();
        self.upsert(job);
        r
    }

    /// The paths that the engine's jobs already write to.
    pub closed spec fn taken_view(&self) -> Seq<String> {
        job_paths(self.jobs@)
    }

    /// The paths the engine counts as taken are exactly the non-empty paths
    /// of the jobs in its table.
    pub proof fn lemma_taken_view(&self, p: Seq<char>)
        requires
            self.wf(),
        ensures
            crate::paths::texts(self.taken_view()).contains(p) <==> p.len() > 0 && exists|k: Seq<char>|
                #[trigger] self.jobs_view().dom().contains(k) && self.jobs_view()[k].path@ == p,
    {
        lemma_job_paths(self.jobs@, p);
        if exists|i: int| 0 <= i < self.jobs@.len() && self.jobs@[i].path@ == p && p.len() > 0 {
            let i = choose|i: int| 0 <= i < self.jobs@.len() && self.jobs@[i].path@ == p && p.len() > 0;
            lemma_keyed_index(self.jobs@, job_key(), job_val(), i);
            assert(self.jobs_view().dom().contains(self.jobs@[i].transfer_id@));
        }
        if p.len() > 0 && exists|k: Seq<char>| #[trigger] self.jobs_view().dom().contains(k) && self.jobs_view()[k].path@ == p {
            let k = choose|k: Seq<char>| #[trigger] self.jobs_view().dom().contains(k) && self.jobs_view()[k].path@ == p;
            lemma_keyed_dom(self.jobs@, job_key(), job_val(), k);
            let i = choose|i: int| 0 <= i < self.jobs@.len() && job_key()(self.jobs@[i]) == k;
            lemma_keyed_index(self.jobs@, job_key(), job_val(), i);
        }
    }

    /// The paths that the engine's jobs already write to.
    fn taken_paths(&self) -> (r: Vec<String>)
        ensures
            r@ == self.taken_view(),
    {
        let mut r: Vec<String> = Vec::new();
        let mut i: usize = 0;
        while i < self.jobs.len()
            invariant
                i <= self.jobs.len(),
                r@ == job_paths(self.jobs@.subrange(0, i as int)),
            decreases self.jobs.len() - i,
        {
            assert(self.jobs@.subrange(0, i + 1).drop_last() == self.jobs@.subrange(0, i as int));
            if self.jobs[i].path.unicode_len() > 0 {
                r.push(self.jobs[i].path.clone());
            }
            i = i + 1;
        }
        assert(self.jobs@.subrange(0, self.jobs.len() as int) == self.jobs@);
        r
    }

    /// Where a download to `dest` goes: with `unique` and no job to resume,
    /// the first name that no job uses and that is not on disk (`on_disk`
    /// lists existing files); otherwise `dest` itself.
    pub fn plan_download_dest(&self, dest: &str, unique: bool, resuming: bool, on_disk: &Vec<String>) -> (r: String)
        ensures
            !(unique && !resuming) ==> r@ == dest@,
            unique && !resuming ==> r@ == spec_unique_dest(dest@, self.taken_view(), on_disk@),
    {
        proof {
            use_type_invariant(&*self);
        }
        if unique && !resuming {
            let taken = self.taken_paths();
            unique_dest_among(dest, &taken, on_disk)
        } else {
            dest.to_owned()
        }
    }

    /// Queues the download of `bucket`/`key` to `dest`, where `on_disk`
    /// bytes already are. The job keeps `resume_id` when given, else gets a
    /// fresh id; its total is the larger of the expected size and what is on
    /// disk. Returns the queued record.
    pub fn enqueue_download(
        &mut self,
        profile_id: &str,
        bucket: &str,
        key: &str,
        dest: &str,
        bytes_total: u64,
        on_disk: u64,
        resume_id: Option<String>,
    ) -> (r: TransferProgress)
        ensures
            resume_id matches Some(rid) ==> r.transfer_id == rid,
            resume_id is None ==> is_uuid_v4_text(r.transfer_id@),
            r.key@ == key@,
            r.direction == TransferDirection::Download,
            r.bytes_done == on_disk,
            r.bytes_total == if bytes_total >= on_disk { bytes_total } else { on_disk },
            r.status == TransferStatus::Queued,
            r.error is None,
            r.profile_id@ == profile_id@,
            r.bucket@ == bucket@,
            r.path@ == dest@,
            r.pausable,
            final(self).pending_view() == old(self).pending_view().insert(r.transfer_id@),
            final(self).jobs_view() == after_upsert(old(self).jobs_view(), r),
            final(self).controls_view() == old(self).controls_view(),
            final(self).active_view() == old(self).active_view(),
            final(self).limit() == old(self).limit(),
            final(self).used() == old(self).used(),
            final(self).dir_view() == old(self).dir_view(),
    {
        proof {
            use_type_invariant(&*self);
        }
        let id = match resume_id {
            Some(rid) => rid,
            None => new_uuid(),
        };
        let job = TransferProgress {
            transfer_id: id,
            key: key.to_owned(),
            direction: TransferDirection::Download,
            bytes_done: on_disk,
            bytes_total: if bytes_total >= on_disk { bytes_total } else { on_disk },
            status: TransferStatus::Queued,
            error: None,
            profile_id: profile_id.to_owned(),
            bucket: bucket.to_owned(),
            path: dest.to_owned(),
            pausable: true,
        };
        self.add_pending(job.transfer_id.as_str());
        let r = job.copy();
        self.upsert(job);
        r
    }

    /// What a run of job `id` finds once it holds a slot. A missing or
    /// already finished job gives its slot back and stops waiting.
    pub fn begin_run(&mut self, id: &str) -> (r: RunStart)
        ensures
            match spec_get(old(self).jobs_view(), id@) {
                None => r is Missing,
                Some(job) => if job.status == TransferStatus::Cancelled || job.status == TransferStatus::Completed {
                    r is Skip
                } else {
                    r == RunStart::Go(job)
                },
            },
            r is Go ==> *final(self) == *old(self),
            !(r is Go) ==> {
                &&& final(self).used() == if old(self).used() > 0 { old(self).used() - 1 } else { 0 }
                &&& final(self).pending_view() == old(self).pending_view().remove(id@)
                &&& final(self).jobs_view() == old(self).jobs_view()
                &&& final(self).controls_view() == old(self).controls_view()
                &&& final(self).active_view() == old(self).active_view()
                &&& final(self).limit() == old(self).limit()
                &&& final(self).dir_view() == old(self).dir_view()
            },
    {
        proof {
            use_type_invariant(&*self);
        }
        match self.get(id) {
            None => {
                self.release_slot();
                self.remove_pending(id);
                RunStart::Missing
            },
            Some(job) => {
                if job.status == TransferStatus::Cancelled || job.status == TransferStatus::Completed {
                    self.release_slot();
                    self.remove_pending(id);
                    RunStart::Skip
                } else {
                    RunStart::Go(job)
                }
            },
        }
    }

    /// Starts an upload: the job is marked `Running` without error, active,
    /// and written back. Returns the record as written.
    pub fn start_upload(&mut self, job: &TransferProgress) -> (r: TransferProgress)
        ensures
            r == (TransferProgress { status: TransferStatus::Running, error: None, ..*job }),
            final(self).jobs_view() == after_upsert(old(self).jobs_view(), r),
            final(self).active_view() == old(self).active_view().insert(job.transfer_id@),
            final(self).controls_view() == if old(self).controls_view().dom().contains(job.transfer_id@) {
                old(self).controls_view()
            } else {
                old(self).controls_view().insert(job.transfer_id@, JobControl::Run)
            },
            final(self).pending_view() == old(self).pending_view(),
            final(self).limit() == old(self).limit(),
            final(self).used() == old(self).used(),
            final(self).dir_view() == old(self).dir_view(),
    {
        proof {
            use_type_invariant(&*self);
        }
        let running = make_progress(job, job.bytes_done, TransferStatus::Running, None);
        self.mark_active(job.transfer_id.as_str());
        let r = running.copy();
        self.upsert(running);
        r
    }

    /// Ends a run of job `id`: no longer active, control forgotten, slot
    /// given back, no longer pending.
    pub fn finish_run(&mut self, id: &str)
        ensures
            final(self).active_view() == old(self).active_view().remove(id@),
            final(self).controls_view() == old(self).controls_view().remove(id@),
            final(self).pending_view() == old(self).pending_view().remove(id@),
            final(self).used() == if old(self).used() > 0 { old(self).used() - 1 } else { 0 },
            final(self).jobs_view() == old(self).jobs_view(),
            final(self).limit() == old(self).limit(),
            final(self).dir_view() == old(self).dir_view(),
    {
        proof {
            use_type_invariant(&*self);
        }
        self.mark_inactive(id);
        self.release_slot();
        self.remove_pending(id);
    }

    /// Records how an upload run ended, once `finish_run` was called.
    ///
    /// Done: the job is `Completed` with all `size` bytes. Cancelled: nothing
    /// is written. Failed: unless the job was told to cancel meanwhile, it is
    /// `Failed` with the error's text and the bytes its sidecar accounts for
    /// (`resume_done`, else its previous count). Returns the event to send
    /// and the run's result.
    pub fn conclude_upload(
        &mut self,
        job: &TransferProgress,
        size: u64,
        result: Result<RunEnd, AppError>,
        resume_done: Option<u64>,
    ) -> (r: (TransferEvent, Result<String, AppError>))
        ensures
            final(self).controls_view() == old(self).controls_view(),
            final(self).active_view() == old(self).active_view(),
            final(self).pending_view() == old(self).pending_view(),
            final(self).limit() == old(self).limit(),
            final(self).used() == old(self).used(),
            final(self).dir_view() == old(self).dir_view(),
            match result {
                Ok(RunEnd::Done) => {
                    &&& final(self).jobs_view() == after_upsert(
                        old(self).jobs_view(),
                        spec_make_progress(*job, size, TransferStatus::Completed, None),
                    )
                    &&& r.0 == TransferEvent::Finished { transfer_id: job.transfer_id }
                    &&& r.1 == Ok::<String, AppError>(job.transfer_id)
                },
                Ok(RunEnd::Cancelled) => {
                    &&& final(self).jobs_view() == old(self).jobs_view()
                    &&& r.0 == TransferEvent::Cancelled { transfer_id: job.transfer_id }
                    &&& r.1 == Ok::<String, AppError>(job.transfer_id)
                },
                Err(e) => if spec_control(old(self).controls_view(), job.transfer_id@) == JobControl::Cancel {
                    &&& final(self).jobs_view() == old(self).jobs_view()
                    &&& r.0 == TransferEvent::Cancelled { transfer_id: job.transfer_id }
                    &&& r.1 == Ok::<String, AppError>(job.transfer_id)
                } else {
                    let done = match resume_done {
                        Some(d) => d,
                        None => job.bytes_done,
                    };
                    &&& r.0 matches TransferEvent::Failed { transfer_id, message }
                    &&& r.0->Failed_transfer_id == job.transfer_id
                    &&& r.0->Failed_message@ == spec_message(e)
                    &&& final(self).jobs_view().dom() == old(self).jobs_view().dom().insert(job.transfer_id@)
                    &&& final(self).jobs_view()[job.transfer_id@].status == TransferStatus::Failed
                    &&& final(self).jobs_view()[job.transfer_id@].bytes_done == done
                    &&& final(self).jobs_view()[job.transfer_id@].error matches Some(m) && m@ == spec_message(e)
                    &&& final(self).jobs_view() == after_upsert(old(self).jobs_view(), final(self).jobs_view()[job.transfer_id@])
                    &&& final(self).jobs_view()[job.transfer_id@] == spec_make_progress(
                        *job,
                        done,
                        TransferStatus::Failed,
                        final(self).jobs_view()[job.transfer_id@].error,
                    )
                    &&& r.1 == Err::<String, AppError>(e)
                },
            },
    {
        proof {
            use_type_invariant(&*self);
        }
        let id = job.transfer_id.clone();
        match result {
            Ok(RunEnd::Done) => {
                let p = make_progress(job, size, TransferStatus::Completed, None);
                self.upsert(p);
                (TransferEvent::Finished { transfer_id: id.clone() }, Ok(id))
            },
            Ok(RunEnd::Cancelled) => (TransferEvent::Cancelled { transfer_id: id.clone() }, Ok(id)),
            Err(e) => {
                if self.control(id.as_str()) == JobControl::Cancel {
                    return (TransferEvent::Cancelled { transfer_id: id.clone() }, Ok(id));
                }
                let done = match resume_done {
                    Some(d) => d,
                    None => job.bytes_done,
                };
                let msg = e.message();
                let p = make_progress(job, done, TransferStatus::Failed, Some(msg.clone()));
                proof {
                    lemma_get_after_upsert(old(self).jobs_view(), p, p.transfer_id@);
                }
                self.upsert(p);
                (TransferEvent::Failed { transfer_id: id, message: msg }, Err(e))
            },
        }
    }

    /// Records how a download run ended, once `finish_run` was called.
    ///
    /// `offset` is the length of the file now; the job's total becomes the
    /// total the run learned (`known_total`, `total`) or else `offset`. Done:
    /// `Completed` with its whole total. Cancelled: nothing is written.
    /// Failed: unless told to cancel meanwhile, `Failed` with the error's
    /// text at `failed_len` bytes. Returns the event and the run's result.
    pub fn conclude_download(
        &mut self,
        job: &TransferProgress,
        known_total: bool,
        total: u64,
        offset: u64,
        failed_len: u64,
        result: Result<RunEnd, AppError>,
    ) -> (r: (TransferEvent, Result<String, AppError>))
        ensures
            final(self).controls_view() == old(self).controls_view(),
            final(self).active_view() == old(self).active_view(),
            final(self).pending_view() == old(self).pending_view(),
            final(self).limit() == old(self).limit(),
            final(self).used() == old(self).used(),
            final(self).dir_view() == old(self).dir_view(),
            ({
                let settled = TransferProgress {
                    bytes_done: offset,
                    bytes_total: if known_total { total } else { offset },
                    status: TransferStatus::Running,
                    error: None,
                    ..*job
                };
                match result {
                    Ok(RunEnd::Done) => {
                        &&& final(self).jobs_view() == after_upsert(
                            old(self).jobs_view(),
                            spec_make_progress(settled, settled.bytes_total, TransferStatus::Completed, None),
                        )
                        &&& r.0 == TransferEvent::Finished { transfer_id: job.transfer_id }
                        &&& r.1 == Ok::<String, AppError>(job.transfer_id)
                    },
                    Ok(RunEnd::Cancelled) => {
                        &&& final(self).jobs_view() == old(self).jobs_view()
                        &&& r.0 == TransferEvent::Cancelled { transfer_id: job.transfer_id }
                        &&& r.1 == Ok::<String, AppError>(job.transfer_id)
                    },
                    Err(e) => if spec_control(old(self).controls_view(), job.transfer_id@) == JobControl::Cancel {
                        &&& final(self).jobs_view() == old(self).jobs_view()
                        &&& r.0 == TransferEvent::Cancelled { transfer_id: job.transfer_id }
                        &&& r.1 == Ok::<String, AppError>(job.transfer_id)
                    } else {
                        &&& r.0 matches TransferEvent::Failed { transfer_id, message }
                        &&& r.0->Failed_transfer_id == job.transfer_id
                        &&& r.0->Failed_message@ == spec_message(e)
                        &&& final(self).jobs_view()[job.transfer_id@].error matches Some(m) && m@ == spec_message(e)
                        &&& final(self).jobs_view() == after_upsert(
                            old(self).jobs_view(),
                            spec_make_progress(
                                settled,
                                failed_len,
                                TransferStatus::Failed,
                                final(self).jobs_view()[job.transfer_id@].error,
                            ),
                        )
                        &&& r.1 == Err::<String, AppError>(e)
                    },
                }
            }),
    {
        proof {
            use_type_invariant(&*self);
        }
        let settled = TransferProgress {
            transfer_id: job.transfer_id.clone(),
            key: job.key.clone(),
            direction: job.direction,
            bytes_done: offset,
            bytes_total: if known_total { total } else { offset },
            status: TransferStatus::Running,
            error: None,
            profile_id: job.profile_id.clone(),
            bucket: job.bucket.clone(),
            path: job.path.clone(),
            pausable: job.pausable,
        };
        let id = job.transfer_id.clone();
        match result {
            Ok(RunEnd::Done) => {
                let p = make_progress(&settled, settled.bytes_total, TransferStatus::Completed, None);
                self.upsert(p);
                (TransferEvent::Finished { transfer_id: id.clone() }, Ok(id))
            },
            Ok(RunEnd::Cancelled) => (TransferEvent::Cancelled { transfer_id: id.clone() }, Ok(id)),
            Err(e) => {
                if self.control(id.as_str()) == JobControl::Cancel {
                    return (TransferEvent::Cancelled { transfer_id: id.clone() }, Ok(id));
                }
                let msg = e.message();
                let p = make_progress(&settled, failed_len, TransferStatus::Failed, Some(msg.clone()));
                proof {
                    lemma_get_after_upsert(old(self).jobs_view(), p, p.transfer_id@);
                }
                self.upsert(p);
                (TransferEvent::Failed { transfer_id: id, message: msg }, Err(e))
            },
        }
    }
}

/// Read after write: once `p` is written, looking up its id gives `p`, and
/// every other id gives what it gave before.
pub proof fn lemma_get_after_upsert(jobs: Map<Seq<char>, TransferProgress>, p: TransferProgress, id: Seq<char>)
    ensures
        spec_get(after_upsert(jobs, p), p.transfer_id@) == Some(p),
        id != p.transfer_id@ ==> spec_get(after_upsert(jobs, p), id) == spec_get(jobs, id),
{
}

/// Pausing, resuming and cancelling a job are what the job then sees as
/// its control, and a cancelled job counts as cancelled whatever its record
/// says.
pub proof fn lemma_controls_take_effect(
    jobs: Map<Seq<char>, TransferProgress>,
    controls: Map<Seq<char>, JobControl>,
    id: Seq<char>,
)
    ensures
        spec_control(controls.insert(id, JobControl::Pause), id) == JobControl::Pause,
        spec_control(controls.insert(id, JobControl::Run), id) == JobControl::Run,
        spec_control(controls.insert(id, JobControl::Cancel), id) == JobControl::Cancel,
        spec_is_cancelled(jobs, controls.insert(id, JobControl::Cancel), id),
        spec_control(controls.remove(id), id) == JobControl::Run,
{
}

/// A cancelled job's record says `Cancelled` and keeps its byte count.
pub proof fn lemma_cancel_marks_record(jobs: Map<Seq<char>, TransferProgress>, job: TransferProgress)
    ensures
        spec_get(
            after_upsert(jobs, spec_make_progress(job, job.bytes_done, TransferStatus::Cancelled, None)),
            job.transfer_id@,
        ) matches Some(p) && p.status == TransferStatus::Cancelled && p.bytes_done == job.bytes_done,
{
}

/// A dismissed job is gone from the table; the others stay as they were.
pub proof fn lemma_dismissed_is_gone(jobs: Map<Seq<char>, TransferProgress>, id: Seq<char>, other: Seq<char>)
    ensures
        spec_get(jobs.remove(id), id) is None,
        other != id ==> spec_get(jobs.remove(id), other) == spec_get(jobs, other),
{
}

/// Only finished jobs can be dismissed: a queued, running or paused job,
/// or a failed one that can still resume, never is.
pub proof fn lemma_active_jobs_stay(job: TransferProgress)
    ensures
        job.status == TransferStatus::Queued || job.status == TransferStatus::Running || job.status
            == TransferStatus::Paused ==> !spec_can_dismiss(job),
        job.status == TransferStatus::Failed && job.pausable ==> !spec_can_dismiss(job),
{
}

} // verus!
