//! The legacy transfer list: one task per upload or download started from
//! the file commands, with its progress and final state, and the payloads
//! of the events that report it.
use vstd::prelude::*;
use crate::clock::now;
use crate::error::AppError;
use crate::ids::{is_uuid_v4_text, new_uuid};
use crate::keyed::{keyed_map, keys_unique, lemma_keyed_dom, lemma_keyed_index, lemma_keyed_push, lemma_keyed_update};
use crate::models::{TransferStatus, TransferTask, TransferType};
use crate::text::{chars_eq, chars_of, rfind_char, string_of, sub_chars};

verus! {

pub open spec fn task_key() -> spec_fn(TransferTask) -> Seq<char> {
    |t: TransferTask| t.id@
}

pub open spec fn task_val() -> spec_fn(TransferTask) -> TransferTask {
    |t: TransferTask| t
}

/// The error for an unknown task id.
pub open spec fn is_task_not_found(e: AppError, id: Seq<char>) -> bool {
    e matches AppError::TransferNotFound(m) && m@ == id
}

/// A field-by-field copy of a task.
pub fn copy_task(t: &TransferTask) -> (r: TransferTask)
    ensures
        r == *t,
{
    TransferTask {
        id: t.id.clone(),
        transfer_type: t.transfer_type,
        status: t.status,
        bucket: t.bucket.clone(),
        key: t.key.clone(),
        local_path: t.local_path.clone(),
        bytes_total: t.bytes_total,
        bytes_transferred: t.bytes_transferred,
        created_at: t.created_at,
        updated_at: t.updated_at,
    }
}

/// The payload of the event that reports a finished task.
#[derive(Clone, Debug)]
pub struct TransferCompletedPayload {
    pub task_id: String,
    pub bucket: String,
    pub key: String,
    pub transfer_type: String,
}

/// The payload of the event that reports a failed task.
#[derive(Clone, Debug)]
pub struct TransferFailedPayload {
    pub task_id: String,
    pub error: String,
}

/// The tasks of the legacy transfer list.
pub struct TransferManager {
    tasks: Vec<TransferTask>,
}

impl TransferManager {
    /// The tasks by id.
    pub closed spec fn tasks_view(&self) -> Map<Seq<char>, TransferTask> {
        keyed_map(self.tasks@, task_key(), task_val())
    }

    /// No two tasks share an id.
    #[verifier::type_invariant]
    pub closed spec fn wf(&self) -> bool {
        keys_unique(self.tasks@, task_key())
    }

    /// An empty list.
    pub fn new() -> (r: TransferManager)
        ensures
            r.tasks_view() == Map::<Seq<char>, TransferTask>::empty(),
    {
        let r = TransferManager { tasks: Vec::new() };
        assert(r.tasks_view() =~= Map::<Seq<char>, TransferTask>::empty());
        r
    }

    fn position(&self, id: &str) -> (r: Option<usize>)
        requires
            self.wf(),
        ensures
            match r {
                Some(i) => i < self.tasks.len() && self.tasks@[i as int].id@ == id@,
                None => !self.tasks_view().dom().contains(id@),
            },
    {
        let ids = chars_of(id);
        let mut i: usize = 0;
        while i < self.tasks.len()
            invariant
                i <= self.tasks.len(),
                ids@ == id@,
                forall|j: int| 0 <= j < i ==> self.tasks@[j].id@ != id@,
            decreases self.tasks.len() - i,
        {
            if chars_eq(&chars_of(self.tasks[i].id.as_str()), &ids) {
                return Some(i);
            }
            i = i + 1;
        }
        proof {
            lemma_keyed_dom(self.tasks@, task_key(), task_val(), id@);
        }
        None
    }

    fn put(&mut self, t: TransferTask)
        requires
            old(self).wf(),
        ensures
            final(self).wf(),
            final(self).tasks_view() == old(self).tasks_view().insert(t.id@, t),
    {
        let found = self.position(t.id.as_str());
        let mut tasks: Vec<TransferTask> = Vec::new();
        std::mem::swap(&mut tasks, &mut self.tasks);
        match found {
            Some(i) => {
                proof {
                    lemma_keyed_update(tasks@, task_key(), task_val(), i as int, t);
                }
                tasks.set(i, t);
            },
            None => {
                proof {
                    lemma_keyed_push(tasks@, task_key(), task_val(), t);
                }
                tasks.push(t);
            },
        }
        self.tasks = tasks;
    }

    fn create_task(
        &mut self,
        transfer_type: TransferType,
        bucket: String,
        key: String,
        local_path: String,
        total_bytes: i64,
    ) -> (id: String)
        requires
            old(self).wf(),
        ensures
            final(self).wf(),
            is_uuid_v4_text(id@),
            final(self).tasks_view().dom() == old(self).tasks_view().dom().insert(id@),
            forall|k: Seq<char>| k != id@ && #[trigger] old(self).tasks_view().dom().contains(k) ==> final(self).tasks_view()[k]
                == old(self).tasks_view()[k],
            ({
                let t = final(self).tasks_view()[id@];
                &&& t.id@ == id@
                &&& t.transfer_type == transfer_type
                &&& t.status == TransferStatus::Pending
                &&& t.bucket == bucket
                &&& t.key == key
                &&& t.local_path == local_path
                &&& t.bytes_total == total_bytes
                &&& t.bytes_transferred == 0
                &&& t.created_at == t.updated_at
            }),
    {
        let id = new_uuid();
        let at = now();
        let task = TransferTask {
            id: id.clone(),
            transfer_type,
            status: TransferStatus::Pending,
            bucket,
            key,
            local_path,
            bytes_total: total_bytes,
            bytes_transferred: 0,
            created_at: at,
            updated_at: at,
        };
        self.put(task);
        id
    }

    /// Adds a pending upload task and returns its fresh id.
    pub fn create_upload_task(&mut self, bucket: String, key: String, local_path: String, total_bytes: i64) -> (id: String)
        ensures
            is_uuid_v4_text(id@),
            final(self).tasks_view().dom() == old(self).tasks_view().dom().insert(id@),
            forall|k: Seq<char>| k != id@ && #[trigger] old(self).tasks_view().dom().contains(k) ==> final(self).tasks_view()[k]
                == old(self).tasks_view()[k],
            ({
                let t = final(self).tasks_view()[id@];
                &&& t.id@ == id@
                &&& t.transfer_type == TransferType::Upload
                &&& t.status == TransferStatus::Pending
                &&& t.bucket == bucket
                &&& t.key == key
                &&& t.local_path == local_path
                &&& t.bytes_total == total_bytes
                &&& t.bytes_transferred == 0
                &&& t.created_at == t.updated_at
            }),
    {
        proof {
            use_type_invariant(&*self);
        }
        self.create_task(TransferType::Upload, bucket, key, local_path, total_bytes)
    }

    /// Adds a pending download task and returns its fresh id.
    pub fn create_download_task(&mut self, bucket: String, key: String, local_path: String, total_bytes: i64) -> (id: String)
        ensures
            is_uuid_v4_text(id@),
            final(self).tasks_view().dom() == old(self).tasks_view().dom().insert(id@),
            forall|k: Seq<char>| k != id@ && #[trigger] old(self).tasks_view().dom().contains(k) ==> final(self).tasks_view()[k]
                == old(self).tasks_view()[k],
            ({
                let t = final(self).tasks_view()[id@];
                &&& t.id@ == id@
                &&& t.transfer_type == TransferType::Download
                &&& t.status == TransferStatus::Pending
                &&& t.bucket == bucket
                &&& t.key == key
                &&& t.local_path == local_path
                &&& t.bytes_total == total_bytes
                &&& t.bytes_transferred == 0
                &&& t.created_at == t.updated_at
            }),
    {
        proof {
            use_type_invariant(&*self);
        }
        self.create_task(TransferType::Download, bucket, key, local_path, total_bytes)
    }

    /// The task `id`.
    pub fn get_task(&self, id: &str) -> (r: Option<TransferTask>)
        ensures
            self.tasks_view().dom().contains(id@) ==> r == Some(self.tasks_view()[id@]),
            !self.tasks_view().dom().contains(id@) ==> r is None,
    {
        proof {
            use_type_invariant(&*self);
        }
        match self.position(id) {
            Some(i) => {
                proof {
                    lemma_keyed_index(self.tasks@, task_key(), task_val(), i as int);
                }
                Some(copy_task(&self.tasks[i]))
            },
            None => None,
        }
    }

    /// Every task, each once.
    pub fn get_all_tasks(&self) -> (r: Vec<TransferTask>)
        ensures
            keys_unique(r@, task_key()),
            keyed_map(r@, task_key(), task_val()) == self.tasks_view(),
    {
        proof {
            use_type_invariant(&*self);
        }
        let mut r: Vec<TransferTask> = Vec::new();
        let mut i: usize = 0;
        while i < self.tasks.len()
            invariant
                i <= self.tasks.len(),
                r@ == self.tasks@.subrange(0, i as int),
            decreases self.tasks.len() - i,
        {
            r.push(copy_task(&self.tasks[i]));
            i = i + 1;
        }
        assert(self.tasks@.subrange(0, self.tasks.len() as int) == self.tasks@);
        r
    }

    /// Changes task `id` by `step`, stamping the current time; or reports
    /// `TransferNotFound(id)` with nothing changed.
    fn change(&mut self, id: &str, status: TransferStatus, bytes: Option<i64>, to_total: bool) -> (r: Result<(), AppError>)
        requires
            old(self).wf(),
        ensures
            final(self).wf(),
            !old(self).tasks_view().dom().contains(id@) ==> (r matches Err(e) && is_task_not_found(e, id@))
                && final(self).tasks_view() == old(self).tasks_view(),
            old(self).tasks_view().dom().contains(id@) ==> r is Ok && final(self).tasks_view().dom() == old(
                self,
            ).tasks_view().dom() && (forall|k: Seq<char>| k != id@ && #[trigger] old(self).tasks_view().dom().contains(k)
                ==> final(self).tasks_view()[k] == old(self).tasks_view()[k]) && ({
                let before = old(self).tasks_view()[id@];
                let after = final(self).tasks_view()[id@];
                &&& after.status == status
                &&& after.bytes_transferred == if to_total {
                    before.bytes_total
                } else {
                    match bytes {
                        Some(b) => b,
                        None => before.bytes_transferred,
                    }
                }
                &&& after == TransferTask {
                    status: after.status,
                    bytes_transferred: after.bytes_transferred,
                    updated_at: after.updated_at,
                    ..before
                }
            }),
    {
        match self.position(id) {
            Some(i) => {
                proof {
                    lemma_keyed_index(self.tasks@, task_key(), task_val(), i as int);
                }
                let mut t = copy_task(&self.tasks[i]);
                t.status = status;
                if to_total {
                    t.bytes_transferred = t.bytes_total;
                } else {
                    match bytes {
                        Some(b) => {
                            t.bytes_transferred = b;
                        },
                        None => {},
                    }
                }
                t.updated_at = now();
                let mut tasks: Vec<TransferTask> = Vec::new();
                std::mem::swap(&mut tasks, &mut self.tasks);
                proof {
                    lemma_keyed_update(tasks@, task_key(), task_val(), i as int, t);
                }
                tasks.set(i, t);
                self.tasks = tasks;
                Ok(())
            },
            None => Err(AppError::TransferNotFound(id.to_owned())),
        }
    }

    /// Records progress of task `id`: `bytes_transferred` bytes, in progress.
    pub fn update_progress(&mut self, id: &str, bytes_transferred: i64) -> (r: Result<(), AppError>)
        ensures
            !old(self).tasks_view().dom().contains(id@) ==> (r matches Err(e) && is_task_not_found(e, id@))
                && final(self).tasks_view() == old(self).tasks_view(),
            old(self).tasks_view().dom().contains(id@) ==> r is Ok && final(self).tasks_view().dom() == old(
                self,
            ).tasks_view().dom() && (forall|k: Seq<char>| k != id@ && #[trigger] old(self).tasks_view().dom().contains(k)
                ==> final(self).tasks_view()[k] == old(self).tasks_view()[k]) && ({
                let before = old(self).tasks_view()[id@];
                let after = final(self).tasks_view()[id@];
                after == TransferTask {
                    status: TransferStatus::InProgress,
                    bytes_transferred,
                    updated_at: after.updated_at,
                    ..before
                }
            }),
    {
        proof {
            use_type_invariant(&*self);
        }
        self.change(id, TransferStatus::InProgress, Some(bytes_transferred), false)
    }

    /// Marks task `id` completed with all its bytes transferred.
    pub fn complete_task(&mut self, id: &str) -> (r: Result<(), AppError>)
        ensures
            !old(self).tasks_view().dom().contains(id@) ==> (r matches Err(e) && is_task_not_found(e, id@))
                && final(self).tasks_view() == old(self).tasks_view(),
            old(self).tasks_view().dom().contains(id@) ==> r is Ok && final(self).tasks_view().dom() == old(
                self,
            ).tasks_view().dom() && (forall|k: Seq<char>| k != id@ && #[trigger] old(self).tasks_view().dom().contains(k)
                ==> final(self).tasks_view()[k] == old(self).tasks_view()[k]) && ({
                let before = old(self).tasks_view()[id@];
                let after = final(self).tasks_view()[id@];
                after == TransferTask {
                    status: TransferStatus::Completed,
                    bytes_transferred: before.bytes_total,
                    updated_at: after.updated_at,
                    ..before
                }
            }),
    {
        proof {
            use_type_invariant(&*self);
        }
        self.change(id, TransferStatus::Completed, None, true)
    }

    /// Marks task `id` failed.
    pub fn fail_task(&mut self, id: &str) -> (r: Result<(), AppError>)
        ensures
            !old(self).tasks_view().dom().contains(id@) ==> (r matches Err(e) && is_task_not_found(e, id@))
                && final(self).tasks_view() == old(self).tasks_view(),
            old(self).tasks_view().dom().contains(id@) ==> r is Ok && final(self).tasks_view().dom() == old(
                self,
            ).tasks_view().dom() && (forall|k: Seq<char>| k != id@ && #[trigger] old(self).tasks_view().dom().contains(k)
                ==> final(self).tasks_view()[k] == old(self).tasks_view()[k]) && ({
                let before = old(self).tasks_view()[id@];
                let after = final(self).tasks_view()[id@];
                after == TransferTask { status: TransferStatus::Failed, updated_at: after.updated_at, ..before }
            }),
    {
        proof {
            use_type_invariant(&*self);
        }
        self.change(id, TransferStatus::Failed, None, false)
    }

    /// Marks task `id` paused.
    pub fn pause_task(&mut self, id: &str) -> (r: Result<(), AppError>)
        ensures
            !old(self).tasks_view().dom().contains(id@) ==> (r matches Err(e) && is_task_not_found(e, id@))
                && final(self).tasks_view() == old(self).tasks_view(),
            old(self).tasks_view().dom().contains(id@) ==> r is Ok && final(self).tasks_view().dom() == old(
                self,
            ).tasks_view().dom() && (forall|k: Seq<char>| k != id@ && #[trigger] old(self).tasks_view().dom().contains(k)
                ==> final(self).tasks_view()[k] == old(self).tasks_view()[k]) && ({
                let before = old(self).tasks_view()[id@];
                let after = final(self).tasks_view()[id@];
                after == TransferTask { status: TransferStatus::Paused, updated_at: after.updated_at, ..before }
            }),
    {
        proof {
            use_type_invariant(&*self);
        }
        self.change(id, TransferStatus::Paused, None, false)
    }

    /// Marks task `id` in progress again.
    pub fn resume_task(&mut self, id: &str) -> (r: Result<(), AppError>)
        ensures
            !old(self).tasks_view().dom().contains(id@) ==> (r matches Err(e) && is_task_not_found(e, id@))
                && final(self).tasks_view() == old(self).tasks_view(),
            old(self).tasks_view().dom().contains(id@) ==> r is Ok && final(self).tasks_view().dom() == old(
                self,
            ).tasks_view().dom() && (forall|k: Seq<char>| k != id@ && #[trigger] old(self).tasks_view().dom().contains(k)
                ==> final(self).tasks_view()[k] == old(self).tasks_view()[k]) && ({
                let before = old(self).tasks_view()[id@];
                let after = final(self).tasks_view()[id@];
                after == TransferTask { status: TransferStatus::InProgress, updated_at: after.updated_at, ..before }
            }),
    {
        proof {
            use_type_invariant(&*self);
        }
        self.change(id, TransferStatus::InProgress, None, false)
    }
}

/// The file name shown for a key: what follows its last `/`.
pub open spec fn spec_file_name(key: Seq<char>) -> Seq<char> {
    if key.contains('/') {
        key.subrange(crate::transfer::last_index_of(key, '/') + 1, key.len() as int)
    } else {
        key
    }
}

/// The file name shown for a key.
pub fn file_name_of_key(key: &str) -> (r: String)
    ensures
        r@ == spec_file_name(key@),
{
    let k = chars_of(key);
    match rfind_char(&k, '/') {
        Some(i) => {
            proof {
                let w = crate::transfer::last_index_of(k@, '/');
                assert(k@.contains('/'));
                if w < i {
                    assert(k@[i as int] == '/');
                }
                if i < w {
                    assert(k@[w] == '/');
                }
            }
            string_of(&sub_chars(&k, i + 1, k.len()))
        },
        None => string_of(&k),
    }
}

/// The name of a direction in event payloads.
pub open spec fn spec_type_name(t: TransferType) -> Seq<char> {
    match t {
        TransferType::Upload => "upload"@,
        TransferType::Download => "download"@,
    }
}

/// The name of a direction in event payloads.
pub fn transfer_type_name(t: TransferType) -> (r: String)
    ensures
        r@ == spec_type_name(t),
{
    match t {
        TransferType::Upload => "upload".to_owned(),
        TransferType::Download => "download".to_owned(),
    }
}

/// The name of a state in event payloads.
pub open spec fn spec_status_name(s: TransferStatus) -> Seq<char> {
    match s {
        TransferStatus::Pending => "pending"@,
        TransferStatus::InProgress => "in_progress"@,
        TransferStatus::Paused => "paused"@,
        TransferStatus::Completed => "completed"@,
        TransferStatus::Failed => "failed"@,
    }
}

/// The name of a state in event payloads.
pub fn status_name(s: TransferStatus) -> (r: String)
    ensures
        r@ == spec_status_name(s),
{
    match s {
        TransferStatus::Pending => "pending".to_owned(),
        TransferStatus::InProgress => "in_progress".to_owned(),
        TransferStatus::Paused => "paused".to_owned(),
        TransferStatus::Completed => "completed".to_owned(),
        TransferStatus::Failed => "failed".to_owned(),
    }
}

/// The payload that reports `task` finished.
pub fn completed_payload(task: &TransferTask) -> (r: TransferCompletedPayload)
    ensures
        r.task_id == task.id,
        r.bucket == task.bucket,
        r.key == task.key,
        r.transfer_type@ == spec_type_name(task.transfer_type),
{
    TransferCompletedPayload {
        task_id: task.id.clone(),
        bucket: task.bucket.clone(),
        key: task.key.clone(),
        transfer_type: transfer_type_name(task.transfer_type),
    }
}

/// The payload that reports task `task_id` failed with `error`.
pub fn failed_payload(task_id: &str, error: &str) -> (r: TransferFailedPayload)
    ensures
        r.task_id@ == task_id@,
        r.error@ == error@,
{
    TransferFailedPayload { task_id: task_id.to_owned(), error: error.to_owned() }
}

} // verus!
