//! Transfer jobs: their records, events, resume sidecars and the pure rules
//! of the transfer engine (ranges, totals, file names, dismissal, job cap).
use vstd::prelude::*;
use crate::multipart::{part_len, part_range};
use crate::text::{all_digits, is_digit, lemma_decimal_digits, lemma_parse_decimal, chars_eq, chars_of, concat_chars, decimal, parse_u64, parse_u64_chars, rfind_char, string_of, str_eq, sub_chars, u64_to_decimal};
use crate::paths::path_join;

verus! {

/// Fewest jobs that may run at once.
pub const MIN_JOB_LIMIT: usize = 1;

/// Most jobs that may run at once.
pub const MAX_JOB_LIMIT: usize = 16;

/// Jobs that may run at once until the user changes it.
pub const DEFAULT_JOB_LIMIT: usize = 5;

/// Least time between two throttled progress events, in milliseconds.
pub const PROGRESS_INTERVAL_MS: u128 = 200;

/// Whether a job moves bytes up to R2 or down from it.
#[derive(Clone, Copy, Debug, PartialEq, Eq, Structural)]
pub enum TransferDirection {
    Upload,
    Download,
}

/// Where a job is in its life.
#[derive(Clone, Copy, Debug, PartialEq, Eq, Structural)]
pub enum TransferStatus {
    Queued,
    Running,
    Paused,
    Completed,
    Failed,
    Cancelled,
}

/// What the engine asks of a running job.
#[derive(Clone, Copy, Debug, PartialEq, Eq, Structural)]
pub enum JobControl {
    Run,
    Pause,
    Cancel,
}

/// How a run that did not fail ended.
#[derive(Clone, Copy, Debug, PartialEq, Eq, Structural)]
pub enum RunEnd {
    Done,
    Cancelled,
}

/// The saved record of one transfer job.
#[derive(Clone, Debug)]
pub struct TransferProgress {
    pub transfer_id: String,
    pub key: String,
    pub direction: TransferDirection,
    pub bytes_done: u64,
    pub bytes_total: u64,
    pub status: TransferStatus,
    pub error: Option<String>,
    pub profile_id: String,
    pub bucket: String,
    pub path: String,
    pub pausable: bool,
}

/// What the engine reports to the window about one job.
#[derive(Clone, Debug)]
pub enum TransferEvent {
    Started {
        transfer_id: String,
        key: String,
        bytes_total: u64,
        bytes_done: u64,
        direction: TransferDirection,
        bucket: String,
        path: String,
        pausable: bool,
        status: TransferStatus,
    },
    Progress { transfer_id: String, bytes_done: u64, bytes_total: u64 },
    Paused { transfer_id: String },
    Cancelled { transfer_id: String },
    Finished { transfer_id: String },
    Failed { transfer_id: String, message: String },
}

/// The sidecar of a multipart upload: enough to resume it after a restart.
#[derive(Clone, Debug)]
pub struct ResumeState {
    pub transfer_id: String,
    pub bucket: String,
    pub key: String,
    pub path: String,
    pub size: u64,
    pub chunk: u64,
    pub upload_id: String,
    pub completed: Vec<(i32, String)>,
}

/// `job` with its byte count, status and error replaced.
pub open spec fn spec_make_progress(
    job: TransferProgress,
    bytes_done: u64,
    status: TransferStatus,
    error: Option<String>,
) -> TransferProgress {
    TransferProgress { bytes_done, status, error, ..job }
}

/// A copy of `job` with its byte count, status and error replaced.
pub fn make_progress(
    job: &TransferProgress,
    bytes_done: u64,
    status: TransferStatus,
    error: Option<String>,
) -> (r: TransferProgress)
    ensures
        r == spec_make_progress(*job, bytes_done, status, error),
{
    TransferProgress {
        transfer_id: job.transfer_id.clone(),
        key: job.key.clone(),
        direction: job.direction,
        bytes_done,
        bytes_total: job.bytes_total,
        status,
        error,
        profile_id: job.profile_id.clone(),
        bucket: job.bucket.clone(),
        path: job.path.clone(),
        pausable: job.pausable,
    }
}

/// A copy of an optional string.
pub fn copy_opt_string(o: &Option<String>) -> (r: Option<String>)
    ensures
        r == *o,
{
    match o {
        Some(s) => Some(s.clone()),
        None => None,
    }
}

impl TransferProgress {
    /// A field-by-field copy of this record.
    pub fn copy(&self) -> (r: TransferProgress)
        ensures
            r == *self,
    {
        TransferProgress {
            transfer_id: self.transfer_id.clone(),
            key: self.key.clone(),
            direction: self.direction,
            bytes_done: self.bytes_done,
            bytes_total: self.bytes_total,
            status: self.status,
            error: copy_opt_string(&self.error),
            profile_id: self.profile_id.clone(),
            bucket: self.bucket.clone(),
            path: self.path.clone(),
            pausable: self.pausable,
        }
    }
}

/// The `Started` event that describes `job`.
pub open spec fn spec_started_event(job: TransferProgress) -> TransferEvent {
    TransferEvent::Started {
        transfer_id: job.transfer_id,
        key: job.key,
        bytes_total: job.bytes_total,
        bytes_done: job.bytes_done,
        direction: job.direction,
        bucket: job.bucket,
        path: job.path,
        pausable: job.pausable,
        status: job.status,
    }
}

/// The `Started` event that describes `job`.
pub fn started_event(job: &TransferProgress) -> (r: TransferEvent)
    ensures
        r == spec_started_event(*job),
{
    TransferEvent::Started {
        transfer_id: job.transfer_id.clone(),
        key: job.key.clone(),
        bytes_total: job.bytes_total,
        bytes_done: job.bytes_done,
        direction: job.direction,
        bucket: job.bucket.clone(),
        path: job.path.clone(),
        pausable: job.pausable,
        status: job.status,
    }
}

/// Bytes already uploaded by the finished parts listed in `completed`.
pub open spec fn completed_bytes(size: u64, chunk: u64, completed: Seq<(i32, String)>) -> nat
    decreases completed.len(),
{
    if completed.len() == 0 {
        0
    } else {
        completed_bytes(size, chunk, completed.drop_last()) + part_len(
            size as nat,
            chunk as nat,
            (completed.last().0 as u64) as nat,
        )
    }
}

/// Bytes of a resumable upload that are already on R2.
pub open spec fn spec_resume_bytes(resume: ResumeState) -> nat {
    completed_bytes(resume.size, resume.chunk, resume.completed@)
}

/// The bytes already uploaded by the parts a sidecar records.
pub fn resume_bytes(resume: &ResumeState) -> (r: u64)
    requires
        spec_resume_bytes(*resume) <= u64::MAX,
    ensures
        r == spec_resume_bytes(*resume),
{
    let mut sum: u64 = 0;
    let mut i: usize = 0;
    while i < resume.completed.len()
        invariant
            i <= resume.completed@.len(),
            completed_bytes(resume.size, resume.chunk, resume.completed@) <= u64::MAX,
            sum == completed_bytes(resume.size, resume.chunk, resume.completed@.subrange(0, i as int)),
        decreases resume.completed.len() - i,
    {
        let pn = resume.completed[i].0;
        let (start, end) = part_range(resume.size, resume.chunk, pn as u64);
        proof {
            let s = resume.completed@;
            assert(s.subrange(0, i + 1).drop_last() == s.subrange(0, i as int));
            lemma_completed_bytes_prefix(resume.size, resume.chunk, s, i + 1);
        }
        sum = sum + (end - start);
        i = i + 1;
    }
    assert(resume.completed@.subrange(0, resume.completed@.len() as int) == resume.completed@);
    sum
}

/// The bytes already uploaded by the parts a sidecar records, or none when
/// that count does not fit in 64 bits (a damaged sidecar).
pub fn checked_resume_bytes(resume: &ResumeState) -> (r: Option<u64>)
    ensures
        match r {
            Some(n) => n == spec_resume_bytes(*resume),
            None => spec_resume_bytes(*resume) > u64::MAX,
        },
{
    let mut sum: u64 = 0;
    let mut i: usize = 0;
    while i < resume.completed.len()
        invariant
            i <= resume.completed@.len(),
            sum == completed_bytes(resume.size, resume.chunk, resume.completed@.subrange(0, i as int)),
        decreases resume.completed.len() - i,
    {
        let pn = resume.completed[i].0;
        let (start, end) = part_range(resume.size, resume.chunk, pn as u64);
        proof {
            let s = resume.completed@;
            assert(s.subrange(0, i + 1).drop_last() == s.subrange(0, i as int));
            lemma_completed_bytes_prefix(resume.size, resume.chunk, s, i + 1);
        }
        match sum.checked_add(end - start) {
            Some(n) => {
                sum = n;
            },
            None => {
                return None;
            },
        }
        i = i + 1;
    }
    assert(resume.completed@.subrange(0, resume.completed@.len() as int) == resume.completed@);
    Some(sum)
}

/// A prefix of the finished parts never accounts for more bytes than all of them.
proof fn lemma_completed_bytes_prefix(size: u64, chunk: u64, s: Seq<(i32, String)>, k: int)
    requires
        0 <= k <= s.len(),
    ensures
        completed_bytes(size, chunk, s.subrange(0, k)) <= completed_bytes(size, chunk, s),
    decreases s.len() - k,
{
    if k < s.len() {
        lemma_completed_bytes_prefix(size, chunk, s, k + 1);
        assert(s.subrange(0, k + 1).drop_last() == s.subrange(0, k));
    } else {
        assert(s.subrange(0, k) == s);
    }
}

/// A sidecar belongs to the upload of `path` of `size` bytes when it names
/// that file and size and the file is still there (`path_is_file`).
pub open spec fn spec_resume_matches(resume: ResumeState, path: Seq<char>, size: u64, path_is_file: bool) -> bool {
    resume.size == size && resume.path@ == path && path_is_file
}

/// Whether the sidecar `resume` can continue the upload of `path`.
///
/// `path_is_file` tells whether the sidecar's file still exists as a file.
pub fn resume_matches(resume: &ResumeState, path: &str, size: u64, path_is_file: bool) -> (r: bool)
    ensures
        r == spec_resume_matches(*resume, path@, size, path_is_file),
{
    resume.size == size && str_eq(resume.path.as_str(), path) && path_is_file
}

/// The `Range` header that asks for the bytes from `offset` on.
pub open spec fn spec_range_header(offset: u64) -> Option<Seq<char>> {
    if offset == 0 {
        None
    } else {
        Some("bytes="@ + decimal(offset as nat) + "-"@)
    }
}

/// The `Range` header for a download resumed at `offset`; none from the start.
pub fn range_header(offset: u64) -> (r: Option<String>)
    ensures
        match r {
            Some(h) => spec_range_header(offset) == Some(h@),
            None => spec_range_header(offset) is None,
        },
{
    if offset == 0 {
        None
    } else {
        let head = chars_of("bytes=");
        let digits = u64_to_decimal(offset);
        let tail = chars_of("-");
        let all = concat_chars(&concat_chars(&head, &digits), &tail);
        Some(string_of(&all))
    }
}

/// The index of the last `c` in `s`.
pub open spec fn last_index_of(s: Seq<char>, c: char) -> int {
    choose|i: int| 0 <= i < s.len() && s[i] == c && forall|j: int| i < j < s.len() ==> s[j] != c
}

/// The object size a ranged GET reveals: the total after the last `/` of
/// `Content-Range` when it is a number, else `offset + content_length`
/// (saturating).
pub open spec fn spec_total_from_range(content_range: Option<Seq<char>>, content_length: u64, offset: u64) -> u64 {
    let fallback = if offset + content_length > u64::MAX {
        u64::MAX
    } else {
        (offset + content_length) as u64
    };
    match content_range {
        Some(r) => if r.contains('/') {
            let t = r.subrange(last_index_of(r, '/') + 1, r.len() as int);
            if t != "*"@ && parse_u64(t) is Some {
                parse_u64(t).unwrap()
            } else {
                fallback
            }
        } else {
            fallback
        },
        None => fallback,
    }
}

/// The total size of an object, from the `Content-Range` and
/// `Content-Length` of a (possibly ranged) GET that started at `offset`.
pub fn total_from_range(content_range: Option<&str>, content_length: u64, offset: u64) -> (r: u64)
    ensures
        r == spec_total_from_range(
            match content_range {
                Some(s) => Some(s@),
                None => None,
            },
            content_length,
            offset,
        ),
{
    let fallback = offset.saturating_add(content_length);
    match content_range {
        Some(range) => {
            let cs = chars_of(range);
            match rfind_char(&cs, '/') {
                Some(i) => {
                    proof {
                        let w = last_index_of(cs@, '/');
                        assert(cs@.contains('/'));
                        assert(0 <= w < cs@.len() && cs@[w] == '/' && forall|j: int| w < j < cs@.len() ==> cs@[j] != '/');
                        if w < i {
                            assert(cs@[i as int] != '/');
                        }
                        if i < w {
                            assert(cs@[w] != '/');
                        }
                    }
                    let star = chars_of("*");
                    let t = sub_chars(&cs, i + 1, cs.len());
                    if !chars_eq(&t, &star) {
                        if let Some(n) = parse_u64_chars(&cs, i + 1, cs.len()) {
                            return n;
                        }
                    }
                    fallback
                },
                None => fallback,
            }
        },
        None => fallback,
    }
}

/// Characters kept in sidecar file names; every other one becomes `_`.
pub open spec fn is_safe_char(c: char) -> bool {
    ('a' <= c && c <= 'z') || ('A' <= c && c <= 'Z') || ('0' <= c && c <= '9') || c == '.' || c == '-'
}

/// `c`, or `_` when it is not safe in a file name.
pub open spec fn safe_char(c: char) -> char {
    if is_safe_char(c) { c } else { '_' }
}

/// The file-name stem of the sidecar of `bucket`/`key`: `bucket:key` with
/// every unsafe character replaced by `_`.
pub open spec fn spec_resume_safe(bucket: Seq<char>, key: Seq<char>) -> Seq<char> {
    (bucket + seq![':'] + key).map_values(|c: char| safe_char(c))
}

/// The file-name stem of the sidecar of `bucket`/`key`.
pub fn resume_safe(bucket: &str, key: &str) -> (r: String)
    ensures
        r@ == spec_resume_safe(bucket@, key@),
{
    let b = chars_of(bucket);
    let k = chars_of(key);
    let mut colon: Vec<char> = Vec::new();
    colon.push(':');
    let joined = concat_chars(&concat_chars(&b, &colon), &k);
    assert(colon@ == seq![':']);
    let mut out: Vec<char> = Vec::new();
    let mut i: usize = 0;
    while i < joined.len()
        invariant
            i <= joined.len(),
            out@ == joined@.subrange(0, i as int).map_values(|c: char| safe_char(c)),
        decreases joined.len() - i,
    {
        let c = joined[i];
        let keep = ('a' <= c && c <= 'z') || ('A' <= c && c <= 'Z') || ('0' <= c && c <= '9') || c == '.' || c == '-';
        out.push(if keep { c } else { '_' });
        i = i + 1;
        assert(joined@.subrange(0, i as int).drop_last() == joined@.subrange(0, i - 1));
    }
    assert(joined@.subrange(0, joined.len() as int) == joined@);
    string_of(&out)
}

/// Sidecar names only ever hold safe characters.
pub proof fn lemma_resume_safe_chars(bucket: Seq<char>, key: Seq<char>)
    ensures
        forall|i: int| 0 <= i < spec_resume_safe(bucket, key).len() ==> is_safe_char(#[trigger] spec_resume_safe(bucket, key)[i]) || spec_resume_safe(bucket, key)[i] == '_',
        spec_resume_safe(bucket, key).len() == bucket.len() + key.len() + 1,
{
}

/// The file name of the sidecar of `bucket`/`key`.
pub open spec fn spec_resume_file_name(bucket: Seq<char>, key: Seq<char>) -> Seq<char> {
    spec_resume_safe(bucket, key) + ".resume.json"@
}

/// The file name of the sidecar of `bucket`/`key`.
pub fn resume_file_name(bucket: &str, key: &str) -> (r: String)
    ensures
        r@ == spec_resume_file_name(bucket@, key@),
{
    let stem = resume_safe(bucket, key);
    let s = chars_of(stem.as_str());
    let ext = chars_of(".resume.json");
    string_of(&concat_chars(&s, &ext))
}

/// The path of the sidecar of `bucket`/`key` in the engine directory `dir`.
pub fn resume_path(dir: &str, bucket: &str, key: &str) -> (r: String)
    ensures
        r@ == crate::paths::spec_path_join(dir@, spec_resume_file_name(bucket@, key@)),
{
    let name = resume_file_name(bucket, key);
    path_join(dir, name.as_str())
}

/// The path of the saved queue in the engine directory `dir`.
pub fn jobs_path(dir: &str) -> (r: String)
    ensures
        r@ == crate::paths::spec_path_join(dir@, "queue.json"@),
{
    path_join(dir, "queue.json")
}

/// A job's history row may be dropped once it is over: completed,
/// cancelled, or failed without a way to resume.
pub open spec fn spec_can_dismiss(job: TransferProgress) -> bool {
    job.status == TransferStatus::Completed || job.status == TransferStatus::Cancelled || (
    job.status == TransferStatus::Failed && !job.pausable)
}

/// Whether the history row of `job` may be dropped.
pub fn can_dismiss(job: &TransferProgress) -> (r: bool)
    ensures
        r == spec_can_dismiss(*job),
{
    match job.status {
        TransferStatus::Completed | TransferStatus::Cancelled => true,
        TransferStatus::Failed => !job.pausable,
        _ => false,
    }
}

/// `n` brought into `MIN_JOB_LIMIT..=MAX_JOB_LIMIT`.
pub open spec fn spec_clamp_job_limit(n: usize) -> usize {
    if n < MIN_JOB_LIMIT {
        MIN_JOB_LIMIT
    } else if n > MAX_JOB_LIMIT {
        MAX_JOB_LIMIT
    } else {
        n
    }
}

/// The job cap the user asked for, brought into `1..=16`.
pub fn clamp_job_limit(n: usize) -> (r: usize)
    ensures
        r == spec_clamp_job_limit(n),
        MIN_JOB_LIMIT <= r <= MAX_JOB_LIMIT,
{
    if n < MIN_JOB_LIMIT {
        MIN_JOB_LIMIT
    } else if n > MAX_JOB_LIMIT {
        MAX_JOB_LIMIT
    } else {
        n
    }
}

/// Whether a throttled progress event is due: enough time has passed since
/// the last one, or the transfer has just reached its end.
pub fn progress_due(elapsed_ms: u128, current: u64, size: u64) -> (r: bool)
    ensures
        r == (elapsed_ms >= PROGRESS_INTERVAL_MS || current == size),
{
    elapsed_ms >= PROGRESS_INTERVAL_MS || current == size
}

/// What a restart does to a job that was running when the app stopped.
///
/// `on_disk` is the length of the job's file; `resume_done` the bytes the
/// upload sidecar accounts for, when one could be read.
pub open spec fn spec_park_job(job: TransferProgress, on_disk: u64, resume_done: Option<u64>) -> TransferProgress {
    if job.status != TransferStatus::Running {
        job
    } else {
        let paused = TransferProgress { status: TransferStatus::Paused, ..job };
        let after_download = if job.direction == TransferDirection::Download && job.path@.len() > 0 {
            TransferProgress {
                bytes_done: if job.bytes_total > 0 && on_disk > job.bytes_total {
                    job.bytes_total
                } else {
                    on_disk
                },
                ..paused
            }
        } else {
            paused
        };
        if job.direction == TransferDirection::Upload && job.bucket@.len() > 0 && resume_done is Some {
            TransferProgress { bytes_done: resume_done.unwrap(), ..after_download }
        } else {
            after_download
        }
    }
}

/// Parks one job after a restart: a job left `Running` becomes `Paused`,
/// with its byte count taken from disk (downloads) or from its sidecar
/// (uploads). Returns whether the job changed.
pub fn park_job(job: &mut TransferProgress, on_disk: u64, resume_done: Option<u64>) -> (changed: bool)
    ensures
        *final(job) == spec_park_job(*old(job), on_disk, resume_done),
        changed == (old(job).status == TransferStatus::Running),
        old(job).status == TransferStatus::Running && old(job).direction == TransferDirection::Download
            && old(job).path@.len() > 0 ==> final(job).bytes_done <= on_disk && (old(job).bytes_total > 0
            ==> final(job).bytes_done <= old(job).bytes_total),
{
    if job.status != TransferStatus::Running {
        return false;
    }
    job.status = TransferStatus::Paused;
    if job.direction == TransferDirection::Download && job.path.unicode_len() > 0 {
        job.bytes_done = if job.bytes_total > 0 && on_disk > job.bytes_total {
            job.bytes_total
        } else {
            on_disk
        };
    }
    if job.direction == TransferDirection::Upload && job.bucket.unicode_len() > 0 {
        if let Some(done) = resume_done {
            job.bytes_done = done;
        }
    }
    true
}

/// Parks every job left running by a previous run of the app.
///
/// `on_disk[i]` and `resume_done[i]` are what the disk says about `jobs[i]`.
/// Returns whether any job changed (and the queue must be saved again).
pub fn park_orphans(jobs: &mut Vec<TransferProgress>, on_disk: &Vec<u64>, resume_done: &Vec<Option<u64>>) -> (dirty: bool)
    requires
        old(jobs).len() == on_disk.len(),
        old(jobs).len() == resume_done.len(),
    ensures
        final(jobs).len() == old(jobs).len(),
        forall|i: int| 0 <= i < old(jobs).len() ==> #[trigger] final(jobs)@[i] == spec_park_job(old(jobs)@[i], on_disk@[i], resume_done@[i]),
        dirty == exists|i: int| 0 <= i < old(jobs).len() && (#[trigger] old(jobs)@[i]).status == TransferStatus::Running,
{
    let ghost before = jobs@;
    let mut dirty = false;
    let mut i: usize = 0;
    while i < jobs.len()
        invariant
            jobs.len() == before.len(),
            before.len() == on_disk.len(),
            before.len() == resume_done.len(),
            i <= jobs.len(),
            forall|j: int| 0 <= j < i ==> #[trigger] jobs@[j] == spec_park_job(before[j], on_disk@[j], resume_done@[j]),
            forall|j: int| i <= j < jobs.len() ==> #[trigger] jobs@[j] == before[j],
            dirty == exists|j: int| 0 <= j < i && (#[trigger] before[j]).status == TransferStatus::Running,
        decreases jobs.len() - i,
    {
        let mut job = jobs[i].copy();
        let changed = park_job(&mut job, on_disk[i], resume_done[i]);
        jobs.set(i, job);
        dirty = dirty || changed;
        i = i + 1;
    }
    dirty
}

/// Whether part number `pn` is among the finished parts `done`.
pub open spec fn part_done(done: Seq<i32>, pn: u64) -> bool {
    exists|i: int| 0 <= i < done.len() && done[i] as int == pn as int
}

/// The next part to send, from part `from` on: the first part number
/// `p >= from` with `p > n` or not yet finished.
pub open spec fn spec_next_part(from: u64, n: u64, done: Seq<i32>) -> u64
    decreases n + 1 - from,
{
    if from > n || from == u64::MAX || !part_done(done, from) {
        from
    } else {
        spec_next_part((from + 1) as u64, n, done)
    }
}

/// The next part to send lies between `from` and one past the last part,
/// and every part skipped on the way is finished.
pub proof fn lemma_next_part(from: u64, n: u64, done: Seq<i32>)
    requires
        from <= n + 1,
        n < u64::MAX,
    ensures
        from <= spec_next_part(from, n, done) <= n + 1,
        forall|q: u64| from <= q < spec_next_part(from, n, done) ==> part_done(done, q),
    decreases n + 1 - from,
{
    if from > n || !part_done(done, from) {
    } else {
        lemma_next_part((from + 1) as u64, n, done);
    }
}

/// Whether `done` lists part `pn`.
fn lists_part(done: &Vec<i32>, pn: u64) -> (r: bool)
    ensures
        r == part_done(done@, pn),
{
    let mut i: usize = 0;
    while i < done.len()
        invariant
            i <= done.len(),
            forall|j: int| 0 <= j < i ==> done@[j] as int != pn as int,
        decreases done.len() - i,
    {
        if done[i] >= 0 && done[i] as u64 == pn {
            return true;
        }
        i = i + 1;
    }
    false
}

/// Skips the parts a resumed upload already sent: the first part number
/// from `from` on that still has to go up (or one past the last part).
pub fn next_part(from: u64, n: u64, done: &Vec<i32>) -> (r: u64)
    ensures
        r == spec_next_part(from, n, done@),
        r >= from,
        r <= n ==> !part_done(done@, r),
{
    let mut p = from;
    while p <= n && p < u64::MAX && lists_part(done, p)
        invariant
            from <= p,
            spec_next_part(from, n, done@) == spec_next_part(p, n, done@),
        decreases n + 1 - p,
    {
        p = p + 1;
    }
    p
}

/// The part numbers of finished parts.
pub fn part_numbers(completed: &Vec<(i32, String)>) -> (r: Vec<i32>)
    ensures
        r@ == completed@.map_values(|e: (i32, String)| e.0),
{
    let mut r: Vec<i32> = Vec::new();
    let mut i: usize = 0;
    while i < completed.len()
        invariant
            i <= completed.len(),
            r@ == completed@.subrange(0, i as int).map_values(|e: (i32, String)| e.0),
        decreases completed.len() - i,
    {
        r.push(completed[i].0);
        i = i + 1;
        assert(completed@.subrange(0, i as int).drop_last() == completed@.subrange(0, i - 1));
    }
    assert(completed@.subrange(0, completed.len() as int) == completed@);
    r
}

/// The part numbers of `s` never decrease.
pub open spec fn sorted_by_part(s: Seq<(i32, String)>) -> bool {
    forall|i: int, j: int| 0 <= i <= j < s.len() ==> s[i].0 <= s[j].0
}

/// The finished parts ordered by part number, as `CompleteMultipartUpload`
/// wants them: the same entries, sorted.
pub fn sort_parts(completed: Vec<(i32, String)>) -> (r: Vec<(i32, String)>)
    ensures
        sorted_by_part(r@),
        r@.to_multiset() == completed@.to_multiset(),
{
    let mut v = completed;
    let ghost orig = v@;
    let mut i: usize = 1;
    if v.len() == 0 {
        return v;
    }
    while i < v.len()
        invariant
            1 <= i <= v.len(),
            v.len() == orig.len(),
            v@.to_multiset() == orig.to_multiset(),
            forall|a: int, b: int| 0 <= a <= b < i ==> (#[trigger] v@[a]).0 <= (#[trigger] v@[b]).0,
        decreases v.len() - i,
    {
        let mut j: usize = i;
        while j > 0 && v[j - 1].0 > v[j].0
            invariant
                0 <= j <= i < v.len(),
                v.len() == orig.len(),
                v@.to_multiset() == orig.to_multiset(),
                forall|a: int, b: int| 0 <= a <= b <= i && a != j && b != j ==> (#[trigger] v@[a]).0 <= (#[trigger] v@[b]).0,
                forall|b: int| j < b <= i ==> v@[j as int].0 <= (#[trigger] v@[b]).0,
            decreases j,
        {
            let ghost before = v@;
            let a = (v[j - 1].0, v[j - 1].1.clone());
            let b = (v[j].0, v[j].1.clone());
            v.set(j - 1, b);
            v.set(j, a);
            proof {
                assert(v@ == before.update(j - 1, before[j as int]).update(j as int, before[j - 1]));
                lemma_swap_multiset(before, j - 1, j as int);
            }
            j = j - 1;
        }
        i = i + 1;
    }
    v
}

/// Swapping two entries keeps the multiset of entries.
proof fn lemma_swap_multiset<A>(s: Seq<A>, a: int, b: int)
    requires
        0 <= a < s.len(),
        0 <= b < s.len(),
    ensures
        s.update(a, s[b]).update(b, s[a]).to_multiset() == s.to_multiset(),
{
    broadcast use vstd::seq_lib::group_to_multiset_ensures;
    let t = s.update(a, s[b]);
    let u = t.update(b, s[a]);
    assert(t.to_multiset() == s.to_multiset().remove(s[a]).insert(s[b]));
    assert(u.to_multiset() == t.to_multiset().remove(t[b]).insert(s[a]));
    if a != b {
        assert(t[b] == s[b]);
    }
    assert(u.to_multiset() =~= s.to_multiset());
}

/// Where a download resumes: the length of its file, capped at the total
/// when that is known.
pub fn download_offset(file_len: u64, known_total: bool, total: u64) -> (r: u64)
    ensures
        r == if known_total && file_len > total { total } else { file_len },
{
    let cap = if known_total { total } else { u64::MAX };
    if file_len < cap { file_len } else { cap }
}

/// The record of a download that is receiving bytes from `offset` on.
pub fn running_download(
    transfer_id: &str,
    key: &str,
    profile_id: &str,
    bucket: &str,
    path: &str,
    offset: u64,
    total: u64,
) -> (r: TransferProgress)
    ensures
        r.transfer_id@ == transfer_id@,
        r.key@ == key@,
        r.direction == TransferDirection::Download,
        r.bytes_done == offset,
        r.bytes_total == total,
        r.status == TransferStatus::Running,
        r.error is None,
        r.profile_id@ == profile_id@,
        r.bucket@ == bucket@,
        r.path@ == path@,
        r.pausable,
{
    TransferProgress {
        transfer_id: transfer_id.to_owned(),
        key: key.to_owned(),
        direction: TransferDirection::Download,
        bytes_done: offset,
        bytes_total: total,
        status: TransferStatus::Running,
        error: None,
        profile_id: profile_id.to_owned(),
        bucket: bucket.to_owned(),
        path: path.to_owned(),
        pausable: true,
    }
}

/// Whether a job may be resumed by the user, and why not.
///
/// A missing job is `NotFound("transfer not found")`; a job that is not
/// paused, failed or queued is `Other("transfer is not resumable")`; a job
/// without profile or bucket is `Other("transfer is missing profile or
/// bucket")`. Otherwise the job is handed back.
pub fn resume_check(job: Option<TransferProgress>) -> (r: Result<TransferProgress, crate::error::AppError>)
    ensures
        match job {
            None => r matches Err(crate::error::AppError::NotFound(m)) && m@ == "transfer not found"@,
            Some(j) => if j.status != TransferStatus::Paused && j.status != TransferStatus::Failed && j.status
                != TransferStatus::Queued {
                r matches Err(crate::error::AppError::Other(m)) && m@ == "transfer is not resumable"@
            } else if j.profile_id@.len() == 0 || j.bucket@.len() == 0 {
                r matches Err(crate::error::AppError::Other(m)) && m@ == "transfer is missing profile or bucket"@
            } else {
                r == Ok::<TransferProgress, crate::error::AppError>(j)
            },
        },
{
    match job {
        None => Err(crate::error::AppError::NotFound("transfer not found".to_owned())),
        Some(j) => {
            if j.status != TransferStatus::Paused && j.status != TransferStatus::Failed && j.status
                != TransferStatus::Queued {
                return Err(crate::error::AppError::Other("transfer is not resumable".to_owned()));
            }
            if j.profile_id.unicode_len() == 0 || j.bucket.unicode_len() == 0 {
                return Err(crate::error::AppError::Other("transfer is missing profile or bucket".to_owned()));
            }
            Ok(j)
        },
    }
}

/// A `Content-Range` ending in `/<total>` gives that total, whatever comes
/// before the slash.
pub proof fn lemma_total_from_range_reads_total(head: Seq<char>, total: u64, content_length: u64, offset: u64)
    ensures
        spec_total_from_range(Some(head + "/"@ + decimal(total as nat)), content_length, offset) == total,
{
    reveal_strlit("/");
    reveal_strlit("*");
    let d = decimal(total as nat);
    let r = head + "/"@ + d;
    let k = head.len() as int;
    lemma_decimal_digits(total as nat);
    lemma_parse_decimal(total);
    assert(r[k] == '/');
    assert(r.contains('/'));
    assert forall|j: int| k < j < r.len() implies r[j] != '/' by {
        assert(r[j] == d[j - k - 1]);
        assert(is_digit(d[j - k - 1]));
    }
    let w = last_index_of(r, '/');
    if w < k {
        assert(r[k] != '/');
    }
    if w > k {
        assert(r[w] != '/');
    }
    assert(r.subrange(k + 1, r.len() as int) =~= d);
    assert(d != "*"@) by {
        assert(is_digit(d[0]));
    }
}

/// After a restart no job is left `Running`.
pub proof fn lemma_park_leaves_none_running(job: TransferProgress, on_disk: u64, resume_done: Option<u64>)
    ensures
        spec_park_job(job, on_disk, resume_done).status != TransferStatus::Running,
        job.status != TransferStatus::Running ==> spec_park_job(job, on_disk, resume_done) == job,
{
}

/// A download parked after a restart is paused at the bytes its file
/// really holds: never more than is on disk, never more than the total
/// when the total is known, and the smaller of the two; nothing else of
/// the job changes.
pub proof fn lemma_parked_download_counts_disk(job: TransferProgress, on_disk: u64, resume_done: Option<u64>)
    requires
        job.status == TransferStatus::Running,
        job.direction == TransferDirection::Download,
        job.path@.len() > 0,
    ensures
        ({
            let p = spec_park_job(job, on_disk, resume_done);
            &&& p.status == TransferStatus::Paused
            &&& p.bytes_done <= on_disk
            &&& job.bytes_total > 0 ==> p.bytes_done <= job.bytes_total
            &&& p.bytes_done == on_disk || (job.bytes_total > 0 && p.bytes_done == job.bytes_total)
            &&& p == TransferProgress { status: p.status, bytes_done: p.bytes_done, ..job }
        }),
{
}

/// An upload parked after a restart is paused at the bytes its sidecar
/// accounts for, when it has a bucket and a sidecar could be read, and
/// keeps its count otherwise; nothing else of the job changes.
pub proof fn lemma_parked_upload_counts_sidecar(job: TransferProgress, on_disk: u64, resume_done: Option<u64>)
    requires
        job.status == TransferStatus::Running,
        job.direction == TransferDirection::Upload,
    ensures
        ({
            let p = spec_park_job(job, on_disk, resume_done);
            &&& p.status == TransferStatus::Paused
            &&& p.bytes_done == if job.bucket@.len() > 0 && resume_done is Some {
                resume_done.unwrap()
            } else {
                job.bytes_done
            }
            &&& p == TransferProgress { status: p.status, bytes_done: p.bytes_done, ..job }
        }),
{
}

/// The job cap is a fixpoint of clamping, and clamping lands in `1..=16`.
pub proof fn lemma_clamp_job_limit(n: usize)
    ensures
        MIN_JOB_LIMIT <= spec_clamp_job_limit(n) <= MAX_JOB_LIMIT,
        spec_clamp_job_limit(spec_clamp_job_limit(n)) == spec_clamp_job_limit(n),
        MIN_JOB_LIMIT <= n <= MAX_JOB_LIMIT ==> spec_clamp_job_limit(n) == n,
{
}

} // verus!
