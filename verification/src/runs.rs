//! The transfer loops as state machines: what to do next, given the state of
//! a run and what just happened. The caller waits, reads and writes files
//! and talks to R2; each function here decides the next step.
use vstd::prelude::*;
use crate::error::AppError;
use crate::multipart::{part_end, part_range, part_start, spec_part_count};
use crate::text::{chars_of, concat_chars, decimal, string_of, u64_to_decimal};
use crate::transfer::{
    download_offset, range_header, spec_range_header, spec_total_from_range, total_from_range,
    lemma_next_part, next_part, part_done, part_numbers, progress_due, sort_parts, sorted_by_part, spec_next_part,
    JobControl, PROGRESS_INTERVAL_MS,
};

verus! {

broadcast use vstd::seq_lib::group_to_multiset_ensures;

/// Parts of one multipart upload sent at the same time.
pub const PART_CONCURRENCY: usize = 4;

/// The part numbers of finished parts.
pub open spec fn done_nums(c: Seq<(i32, String)>) -> Seq<i32> {
    c.map_values(|e: (i32, String)| e.0)
}

/// Where a multipart upload run stands.
#[derive(Clone, Copy, Debug, PartialEq, Eq, Structural)]
pub enum MultipartPhase {
    /// Sending parts.
    Sending,
    /// Told to pause: waiting for the parts in flight.
    DrainPause,
    /// Told to cancel: waiting for the parts in flight.
    DrainCancel,
    /// Paused, nothing in flight.
    Paused,
    /// Every part was handed out: waiting for the last ones.
    Finishing,
    /// The run ended.
    Over,
}

/// A multipart upload in progress.
pub struct MultipartRun {
    /// Size of the file.
    pub size: u64,
    /// Part size.
    pub chunk: u64,
    /// Number of parts.
    pub n: u64,
    /// No part below this number is left to hand out.
    pub next: u64,
    /// Finished parts with their ETags (those of the sidecar first).
    pub completed: Vec<(i32, String)>,
    /// Parts sent and not yet answered.
    pub in_flight: Vec<u64>,
    /// Bytes of the finished parts.
    pub bytes_done: u64,
    /// The first failure of a part, if any.
    pub failed: Option<AppError>,
    /// When (ms on the caller's clock, from the start of the run) the last
    /// progress report went out.
    pub last_report_ms: u128,
    pub phase: MultipartPhase,
}

/// What happened since the last step.
pub enum PartEvent {
    /// The loop is ready to go on; the job is told `control`.
    Tick(JobControl),
    /// Part `part` went up with ETag `etag`, at `now_ms`.
    PartDone { part: u64, etag: String, now_ms: u128 },
    /// Part `part` failed.
    PartFailed { part: u64, error: AppError },
}

/// What the loop does next.
pub enum PartAction {
    /// Upload bytes `start..end` of the file as part `part`.
    Send { part: u64, start: u64, end: u64 },
    /// Wait for a part in flight to answer.
    Wait,
    /// Save `completed` as the sidecar's parts; report `progress` bytes when given.
    Record { completed: Vec<(i32, String)>, progress: Option<u64> },
    /// Record the job as paused at `bytes_done` and wait for a new control.
    Pause { bytes_done: u64 },
    /// Record the job as running again at `bytes_done`.
    Resume { bytes_done: u64 },
    /// The run ends cancelled.
    Cancelled,
    /// The run ends with this error.
    Failed(AppError),
    /// Complete the upload with these parts.
    Complete(Vec<(i32, String)>),
}

/// The kind of step a tick leads to.
#[derive(Clone, Copy, Debug, PartialEq, Eq, Structural)]
pub enum Decision {
    Send(u64),
    Wait,
    Pause,
    Resume,
    Cancelled,
    Failed,
    Complete,
}

impl MultipartRun {
    /// The part-number of the next part to hand out (or past the last).
    pub open spec fn upcoming(&self) -> u64 {
        spec_next_part(self.next, self.n, done_nums(self.completed@))
    }

    /// The run is consistent: every part below `next` is finished or in
    /// flight, parts in flight are distinct and unfinished.
    pub open spec fn wf(&self) -> bool {
        &&& self.chunk > 0
        &&& self.n == spec_part_count(self.size as nat, self.chunk as nat)
        &&& self.n <= 0x7fff_ffff
        &&& 1 <= self.next <= self.n + 1
        &&& self.in_flight.len() <= PART_CONCURRENCY
        &&& forall|i: int|
            0 <= i < self.in_flight.len() ==> 1 <= #[trigger] self.in_flight@[i] < self.next && !part_done(
                done_nums(self.completed@),
                self.in_flight@[i],
            )
        &&& forall|i: int, j: int|
            0 <= i < self.in_flight.len() && 0 <= j < self.in_flight.len() && i != j ==> self.in_flight@[i]
                != self.in_flight@[j]
        &&& forall|p: u64|
            1 <= p < self.next ==> part_done(done_nums(self.completed@), p) || self.in_flight@.contains(p)
                || self.failed is Some || self.phase == MultipartPhase::Over
        &&& (self.phase == MultipartPhase::Paused ==> self.in_flight.len() == 0)
        &&& (self.phase == MultipartPhase::Finishing ==> self.next == self.n + 1)
    }
}

/// What a tick with control `c` leads to from `run`.
pub open spec fn tick_decision(run: MultipartRun, c: JobControl) -> Decision {
    let drained = run.in_flight.len() == 0;
    match run.phase {
        MultipartPhase::Sending => {
            let p = run.upcoming();
            if p > run.n {
                finishing_decision(run, c)
            } else {
                match c {
                    JobControl::Cancel => if drained { Decision::Cancelled } else { Decision::Wait },
                    JobControl::Pause => pause_decision(run),
                    JobControl::Run => if run.in_flight.len() < PART_CONCURRENCY {
                        Decision::Send(p)
                    } else {
                        Decision::Wait
                    },
                }
            }
        },
        MultipartPhase::DrainCancel => if drained { Decision::Cancelled } else { Decision::Wait },
        MultipartPhase::DrainPause => pause_decision(run),
        MultipartPhase::Finishing => finishing_decision(run, c),
        MultipartPhase::Paused => match c {
            JobControl::Cancel => Decision::Cancelled,
            JobControl::Pause => Decision::Pause,
            JobControl::Run => Decision::Resume,
        },
        MultipartPhase::Over => Decision::Wait,
    }
}

/// Pausing: wait for the parts in flight, then fail with the first error or pause.
pub open spec fn pause_decision(run: MultipartRun) -> Decision {
    if run.in_flight.len() > 0 {
        Decision::Wait
    } else if run.failed is Some {
        Decision::Failed
    } else {
        Decision::Pause
    }
}

/// Every part handed out: wait for the last ones, then fail with the first
/// error, end cancelled when told so, or complete.
pub open spec fn finishing_decision(run: MultipartRun, c: JobControl) -> Decision {
    if run.in_flight.len() > 0 {
        Decision::Wait
    } else if run.failed is Some {
        Decision::Failed
    } else if c == JobControl::Cancel {
        Decision::Cancelled
    } else {
        Decision::Complete
    }
}

/// The phase after a tick with control `c` that led to `d`.
pub open spec fn tick_phase(run: MultipartRun, c: JobControl, d: Decision) -> MultipartPhase {
    match d {
        Decision::Cancelled | Decision::Failed | Decision::Complete => MultipartPhase::Over,
        Decision::Pause => MultipartPhase::Paused,
        Decision::Resume => MultipartPhase::Sending,
        Decision::Send(_) => MultipartPhase::Sending,
        Decision::Wait => match run.phase {
            MultipartPhase::Sending => if run.upcoming() > run.n {
                MultipartPhase::Finishing
            } else {
                match c {
                    JobControl::Cancel => MultipartPhase::DrainCancel,
                    JobControl::Pause => MultipartPhase::DrainPause,
                    JobControl::Run => MultipartPhase::Sending,
                }
            },
            other => other,
        },
    }
}

/// The decision an action stands for.
pub open spec fn decision_of(a: PartAction) -> Decision {
    match a {
        PartAction::Send { part, .. } => Decision::Send(part),
        PartAction::Wait => Decision::Wait,
        PartAction::Record { .. } => Decision::Wait,
        PartAction::Pause { .. } => Decision::Pause,
        PartAction::Resume { .. } => Decision::Resume,
        PartAction::Cancelled => Decision::Cancelled,
        PartAction::Failed(_) => Decision::Failed,
        PartAction::Complete(_) => Decision::Complete,
    }
}

/// A fresh run over a file of `size` bytes in parts of `chunk`, resuming
/// from the finished parts `completed` worth `bytes_done` bytes.
pub fn new_multipart_run(size: u64, chunk: u64, completed: Vec<(i32, String)>, bytes_done: u64) -> (r: MultipartRun)
    requires
        chunk > 0,
        spec_part_count(size as nat, chunk as nat) <= 0x7fff_ffff,
    ensures
        r.wf(),
        r.size == size,
        r.chunk == chunk,
        r.next == 1,
        r.completed@ == completed@,
        r.in_flight@ == Seq::<u64>::empty(),
        r.bytes_done == bytes_done,
        r.failed is None,
        r.last_report_ms == 0,
        r.phase == MultipartPhase::Sending,
{
    let n = crate::multipart::part_count(size, chunk);
    MultipartRun {
        size,
        chunk,
        n,
        next: 1,
        completed,
        in_flight: Vec::new(),
        bytes_done,
        failed: None,
        last_report_ms: 0,
        phase: MultipartPhase::Sending,
    }
}

/// A copy of the finished parts.
fn copy_parts(v: &Vec<(i32, String)>) -> (r: Vec<(i32, String)>)
    ensures
        r@ == v@,
{
    let mut r: Vec<(i32, String)> = Vec::new();
    let mut i: usize = 0;
    while i < v.len()
        invariant
            i <= v.len(),
            r@ == v@.subrange(0, i as int),
        decreases v.len() - i,
    {
        r.push((v[i].0, v[i].1.clone()));
        i = i + 1;
    }
    r
}

/// The position of `p` in `v`.
fn position_of(v: &Vec<u64>, p: u64) -> (r: Option<usize>)
    ensures
        match r {
            Some(i) => i < v.len() && v@[i as int] == p,
            None => !v@.contains(p),
        },
{
    let mut i: usize = 0;
    while i < v.len()
        invariant
            i <= v.len(),
            forall|j: int| 0 <= j < i ==> v@[j] != p,
        decreases v.len() - i,
    {
        if v[i] == p {
            return Some(i);
        }
        i = i + 1;
    }
    None
}

/// What a multipart step promises of its progress reports: the time of the
/// last report never goes back, and a report comes with an answered part,
/// becomes the last report, and is either `PROGRESS_INTERVAL_MS` after the
/// previous one or the report of the whole file.
pub open spec fn part_reports_throttled(run: MultipartRun, event: PartEvent, next: MultipartRun, action: PartAction) -> bool {
    &&& next.last_report_ms >= run.last_report_ms
    &&& action matches PartAction::Record { progress: Some(b), .. } ==> (event matches PartEvent::PartDone { now_ms, .. }
        && next.last_report_ms == now_ms && (now_ms - run.last_report_ms >= PROGRESS_INTERVAL_MS || b == run.size))
}

/// One step of a multipart upload.
///
/// A tick hands out the next unfinished part (with its byte range) while
/// fewer than `PART_CONCURRENCY` parts are in flight; told to pause or
/// cancel, it waits for the parts in flight and then pauses (or fails with
/// the first error of a part) or ends cancelled; once every part was handed
/// out and answered it fails with the first error, ends cancelled when told
/// so, or completes with the finished parts in ascending order. An answered
/// part is recorded in the sidecar list, with a progress report when one is
/// due.
pub fn multipart_step(run: MultipartRun, event: PartEvent) -> (r: (MultipartRun, PartAction))
    requires
        run.wf(),
        event matches PartEvent::PartDone { now_ms, .. } ==> now_ms >= run.last_report_ms,
    ensures
        r.0.wf(),
        !(event is PartDone) ==> r.0.last_report_ms == run.last_report_ms,
        part_reports_throttled(run, event, r.0, r.1),
        r.0.size == run.size,
        r.0.chunk == run.chunk,
        r.0.n == run.n,
        match event {
            PartEvent::Tick(c) => {
                let d = tick_decision(run, c);
                &&& decision_of(r.1) == d
                &&& r.0.phase == tick_phase(run, c, d)
                &&& r.0.completed@ == run.completed@
                &&& r.0.bytes_done == run.bytes_done
                &&& match d {
                    Decision::Send(p) => {
                        &&& 1 <= p <= run.n
                        &&& !part_done(done_nums(run.completed@), p)
                        &&& !run.in_flight@.contains(p)
                        &&& r.1 matches PartAction::Send { part, start, end } && start == part_start(
                            run.size as nat,
                            run.chunk as nat,
                            p as nat,
                        ) && end == part_end(run.size as nat, run.chunk as nat, p as nat)
                        &&& r.0.in_flight@ == run.in_flight@.push(p)
                        &&& r.0.next == p + 1
                    },
                    Decision::Pause => r.1 == (PartAction::Pause { bytes_done: run.bytes_done }),
                    Decision::Resume => r.1 == (PartAction::Resume { bytes_done: run.bytes_done }),
                    Decision::Failed => r.1 == PartAction::Failed(run.failed.unwrap()),
                    Decision::Complete => r.1 matches PartAction::Complete(parts) && {
                        &&& sorted_by_part(parts@)
                        &&& parts@.to_multiset() == run.completed@.to_multiset()
                        &&& forall|i: u64|
                            1 <= i <= run.n ==> part_done(done_nums(parts@), i)
                    },
                    _ => r.0.in_flight@ == run.in_flight@,
                }
            },
            PartEvent::PartDone { part, etag, now_ms } => if run.in_flight@.contains(part) {
                let len = part_end(run.size as nat, run.chunk as nat, part as nat) - part_start(
                    run.size as nat,
                    run.chunk as nat,
                    part as nat,
                );
                let bytes = if run.bytes_done + len > u64::MAX { u64::MAX as int } else { run.bytes_done + len };
                &&& r.0.completed@ == run.completed@.push((part as i32, etag))
                &&& part as i32 as int == part as int
                &&& r.0.bytes_done == bytes
                &&& forall|q: u64| r.0.in_flight@.contains(q) <==> run.in_flight@.contains(q) && q != part
                &&& r.0.phase == run.phase
                &&& r.0.failed == run.failed
                &&& r.1 matches PartAction::Record { completed, progress } && completed@ == r.0.completed@
                    && progress == if now_ms - run.last_report_ms >= PROGRESS_INTERVAL_MS || bytes == run.size {
                    Some(bytes as u64)
                } else {
                    None
                }
                &&& r.0.last_report_ms == if now_ms - run.last_report_ms >= PROGRESS_INTERVAL_MS || bytes == run.size {
                    now_ms
                } else {
                    run.last_report_ms
                }
            } else {
                r.1 is Wait && r.0 == run
            },
            PartEvent::PartFailed { part, error } => if run.in_flight@.contains(part) {
                &&& r.0.completed@ == run.completed@
                &&& r.0.bytes_done == run.bytes_done
                &&& forall|q: u64| r.0.in_flight@.contains(q) <==> run.in_flight@.contains(q) && q != part
                &&& r.0.phase == run.phase
                &&& r.0.failed == if run.failed is Some { run.failed } else { Some(error) }
                &&& r.1 is Wait
            } else {
                r.1 is Wait && r.0 == run
            },
        },
{
    match event {
        PartEvent::Tick(c) => tick_step(run, c),
        PartEvent::PartDone { part, etag, now_ms } => answered_step(run, part, etag, now_ms),
        PartEvent::PartFailed { part, error } => failed_step(run, part, error),
    }
}

/// The parts in flight after the one at `i` answered.
proof fn lemma_drop_in_flight(old: Seq<u64>, i: int)
    requires
        0 <= i < old.len(),
        forall|a: int, b: int| 0 <= a < old.len() && 0 <= b < old.len() && a != b ==> old[a] != old[b],
    ensures
        forall|q: u64| old.remove(i).contains(q) <==> old.contains(q) && q != old[i],
        forall|a: int, b: int|
            0 <= a < old.remove(i).len() && 0 <= b < old.remove(i).len() && a != b ==> old.remove(i)[a] != old.remove(i)[b],
        forall|k: int| 0 <= k < old.remove(i).len() ==> old.contains(#[trigger] old.remove(i)[k]),
{
    let new = old.remove(i);
    assert forall|q: u64| new.contains(q) <==> old.contains(q) && q != old[i] by {
        if new.contains(q) {
            let k = choose|k: int| 0 <= k < new.len() && new[k] == q;
            if k < i {
                assert(old[k] == q);
            } else {
                assert(old[k + 1] == q);
            }
        }
        if old.contains(q) && q != old[i] {
            let k = choose|k: int| 0 <= k < old.len() && old[k] == q;
            if k < i {
                assert(new[k] == q);
            } else {
                assert(new[k - 1] == q);
            }
        }
    }
    assert forall|a: int, b: int| 0 <= a < new.len() && 0 <= b < new.len() && a != b implies new[a] != new[b] by {
        let a0 = if a < i { a } else { a + 1 };
        let b0 = if b < i { b } else { b + 1 };
        assert(new[a] == old[a0]);
        assert(new[b] == old[b0]);
    }
    assert forall|k: int| 0 <= k < new.len() implies old.contains(#[trigger] new[k]) by {
        let k0 = if k < i { k } else { k + 1 };
        assert(new[k] == old[k0]);
    }
}

/// A tick of the loop.
fn tick_step(run: MultipartRun, c: JobControl) -> (r: (MultipartRun, PartAction))
    requires
        run.wf(),
    ensures
        r.0.wf(),
        r.0.last_report_ms == run.last_report_ms,
        !(r.1 is Record),
        r.0.size == run.size,
        r.0.chunk == run.chunk,
        r.0.n == run.n,
        ({
            let d = tick_decision(run, c);
            &&& decision_of(r.1) == d
            &&& r.0.phase == tick_phase(run, c, d)
            &&& r.0.completed@ == run.completed@
            &&& r.0.bytes_done == run.bytes_done
            &&& match d {
                Decision::Send(p) => {
                    &&& 1 <= p <= run.n
                    &&& !part_done(done_nums(run.completed@), p)
                    &&& !run.in_flight@.contains(p)
                    &&& r.1 matches PartAction::Send { part, start, end } && start == part_start(
                        run.size as nat,
                        run.chunk as nat,
                        p as nat,
                    ) && end == part_end(run.size as nat, run.chunk as nat, p as nat)
                    &&& r.0.in_flight@ == run.in_flight@.push(p)
                    &&& r.0.next == p + 1
                },
                Decision::Pause => r.1 == (PartAction::Pause { bytes_done: run.bytes_done }),
                Decision::Resume => r.1 == (PartAction::Resume { bytes_done: run.bytes_done }),
                Decision::Failed => r.1 == PartAction::Failed(run.failed.unwrap()),
                Decision::Complete => r.1 matches PartAction::Complete(parts) && {
                    &&& sorted_by_part(parts@)
                    &&& parts@.to_multiset() == run.completed@.to_multiset()
                    &&& forall|i: u64| 1 <= i <= run.n ==> part_done(done_nums(parts@), i)
                },
                _ => r.0.in_flight@ == run.in_flight@,
            }
        }),
{
    let mut run = run;
    let drained = run.in_flight.len() == 0;
    match run.phase {
        MultipartPhase::Sending => sending_step(run, c),
        MultipartPhase::DrainCancel => {
            if drained {
                run.phase = MultipartPhase::Over;
                (run, PartAction::Cancelled)
            } else {
                (run, PartAction::Wait)
            }
        },
        MultipartPhase::DrainPause => drain_pause(run),
        MultipartPhase::Finishing => finish(run, c),
        MultipartPhase::Paused => {
            match c {
                JobControl::Cancel => {
                    run.phase = MultipartPhase::Over;
                    (run, PartAction::Cancelled)
                },
                JobControl::Pause => {
                    let b = run.bytes_done;
                    (run, PartAction::Pause { bytes_done: b })
                },
                JobControl::Run => {
                    run.phase = MultipartPhase::Sending;
                    let b = run.bytes_done;
                    (run, PartAction::Resume { bytes_done: b })
                },
            }
        },
        MultipartPhase::Over => (run, PartAction::Wait),
    }
}

/// A tick while sending parts.
fn sending_step(run: MultipartRun, c: JobControl) -> (r: (MultipartRun, PartAction))
    requires
        run.wf(),
        run.phase == MultipartPhase::Sending,
    ensures
        r.0.wf(),
        r.0.last_report_ms == run.last_report_ms,
        !(r.1 is Record),
        r.0.size == run.size,
        r.0.chunk == run.chunk,
        r.0.n == run.n,
        ({
            let d = tick_decision(run, c);
            &&& decision_of(r.1) == d
            &&& r.0.phase == tick_phase(run, c, d)
            &&& r.0.completed@ == run.completed@
            &&& r.0.bytes_done == run.bytes_done
            &&& match d {
                Decision::Send(p) => {
                    &&& 1 <= p <= run.n
                    &&& !part_done(done_nums(run.completed@), p)
                    &&& !run.in_flight@.contains(p)
                    &&& r.1 matches PartAction::Send { part, start, end } && start == part_start(
                        run.size as nat,
                        run.chunk as nat,
                        p as nat,
                    ) && end == part_end(run.size as nat, run.chunk as nat, p as nat)
                    &&& r.0.in_flight@ == run.in_flight@.push(p)
                    &&& r.0.next == p + 1
                },
                Decision::Pause => r.1 == (PartAction::Pause { bytes_done: run.bytes_done }),
                Decision::Failed => r.1 == PartAction::Failed(run.failed.unwrap()),
                Decision::Complete => r.1 matches PartAction::Complete(parts) && {
                    &&& sorted_by_part(parts@)
                    &&& parts@.to_multiset() == run.completed@.to_multiset()
                    &&& forall|i: u64| 1 <= i <= run.n ==> part_done(done_nums(parts@), i)
                },
                _ => r.0.in_flight@ == run.in_flight@,
            }
        }),
{
    let ghost old_run = run;
    let mut run = run;
    let drained = run.in_flight.len() == 0;
    let nums = part_numbers(&run.completed);
    proof {
        assert(nums@ =~= done_nums(run.completed@));
        lemma_next_part(run.next, run.n, nums@);
    }
    let p = next_part(run.next, run.n, &nums);
    if p > run.n {
        run.next = p;
        run.phase = MultipartPhase::Finishing;
        proof {
            assert forall|q: u64| 1 <= q < run.next implies part_done(done_nums(run.completed@), q)
                || run.in_flight@.contains(q) || run.failed is Some || run.phase == MultipartPhase::Over by {
                if q >= old_run.next {
                    assert(part_done(nums@, q));
                }
            }
        }
        return finish(run, c);
    }
    match c {
        JobControl::Cancel => {
            if drained {
                run.phase = MultipartPhase::Over;
                (run, PartAction::Cancelled)
            } else {
                run.phase = MultipartPhase::DrainCancel;
                (run, PartAction::Wait)
            }
        },
        JobControl::Pause => {
            run.phase = MultipartPhase::DrainPause;
            drain_pause(run)
        },
        JobControl::Run => {
            if run.in_flight.len() < PART_CONCURRENCY {
                let (start, end) = part_range(run.size, run.chunk, p);
                proof {
                    if run.in_flight@.contains(p) {
                        let i = choose|i: int| 0 <= i < run.in_flight.len() && run.in_flight@[i] == p;
                        assert(run.in_flight@[i] < run.next);
                    }
                }
                run.in_flight.push(p);
                run.next = p + 1;
                proof {
                    assert forall|q: u64| 1 <= q < run.next implies part_done(done_nums(run.completed@), q)
                        || run.in_flight@.contains(q) || run.failed is Some || run.phase == MultipartPhase::Over by {
                        if q < old_run.next {
                            if old_run.in_flight@.contains(q) {
                                let i = choose|i: int| 0 <= i < old_run.in_flight.len() && old_run.in_flight@[i] == q;
                                assert(run.in_flight@[i] == q);
                            }
                        } else if q < p {
                            assert(part_done(nums@, q));
                        } else {
                            assert(run.in_flight@[run.in_flight.len() - 1] == q);
                        }
                    }
                    assert forall|a: int, b: int|
                        0 <= a < run.in_flight.len() && 0 <= b < run.in_flight.len() && a != b implies run.in_flight@[a]
                        != run.in_flight@[b] by {
                        if a < old_run.in_flight.len() && b < old_run.in_flight.len() {
                            assert(run.in_flight@[a] == old_run.in_flight@[a]);
                            assert(run.in_flight@[b] == old_run.in_flight@[b]);
                        } else if a < old_run.in_flight.len() {
                            assert(run.in_flight@[a] == old_run.in_flight@[a]);
                        } else {
                            assert(run.in_flight@[b] == old_run.in_flight@[b]);
                        }
                    }
                }
                (run, PartAction::Send { part: p, start, end })
            } else {
                (run, PartAction::Wait)
            }
        },
    }
}

/// Part `part` answered with its ETag.
fn answered_step(run: MultipartRun, part: u64, etag: String, now_ms: u128) -> (r: (MultipartRun, PartAction))
    requires
        run.wf(),
        now_ms >= run.last_report_ms,
    ensures
        r.0.wf(),
        r.0.size == run.size,
        r.0.chunk == run.chunk,
        r.0.n == run.n,
        if run.in_flight@.contains(part) {
            let len = part_end(run.size as nat, run.chunk as nat, part as nat) - part_start(
                run.size as nat,
                run.chunk as nat,
                part as nat,
            );
            let bytes = if run.bytes_done + len > u64::MAX { u64::MAX as int } else { run.bytes_done + len };
            &&& r.0.completed@ == run.completed@.push((part as i32, etag))
            &&& part as i32 as int == part as int
            &&& r.0.bytes_done == bytes
            &&& forall|q: u64| r.0.in_flight@.contains(q) <==> run.in_flight@.contains(q) && q != part
            &&& r.0.phase == run.phase
            &&& r.0.failed == run.failed
            &&& r.1 matches PartAction::Record { completed, progress } && completed@ == r.0.completed@
                && progress == if now_ms - run.last_report_ms >= PROGRESS_INTERVAL_MS || bytes == run.size {
                Some(bytes as u64)
            } else {
                None
            }
            &&& r.0.last_report_ms == if now_ms - run.last_report_ms >= PROGRESS_INTERVAL_MS || bytes == run.size {
                now_ms
            } else {
                run.last_report_ms
            }
        } else {
            r.1 is Wait && r.0 == run
        },
{
    let ghost old_run = run;
    let mut run = run;
    match position_of(&run.in_flight, part) {
        None => (run, PartAction::Wait),
        Some(i) => {
            let (start, end) = part_range(run.size, run.chunk, part);
            let pn = part as i32;
            proof {
                lemma_drop_in_flight(run.in_flight@, i as int);
            }
            run.in_flight.remove(i);
            run.completed.push((pn, etag));
            run.bytes_done = run.bytes_done.saturating_add(end - start);
            proof {
                assert(done_nums(run.completed@) =~= done_nums(old_run.completed@).push(pn));
                lemma_done_grows(old_run.completed@, (pn, etag));
                assert forall|k: int| 0 <= k < run.in_flight.len() implies 1 <= #[trigger] run.in_flight@[k] < run.next
                    && !part_done(done_nums(run.completed@), run.in_flight@[k]) by {
                    let q = run.in_flight@[k];
                    assert(old_run.in_flight@.contains(q));
                    let k0 = choose|k0: int| 0 <= k0 < old_run.in_flight.len() && old_run.in_flight@[k0] == q;
                    assert(!part_done(done_nums(old_run.completed@), old_run.in_flight@[k0]));
                    assert(q != part);
                    if part_done(done_nums(run.completed@), q) {
                        let w = choose|w: int|
                            0 <= w < done_nums(run.completed@).len() && done_nums(run.completed@)[w] as int == q as int;
                        if w < old_run.completed.len() {
                            assert(done_nums(old_run.completed@)[w] == done_nums(run.completed@)[w]);
                        }
                    }
                }
                assert forall|q: u64| 1 <= q < run.next implies part_done(done_nums(run.completed@), q)
                    || run.in_flight@.contains(q) || run.failed is Some || run.phase == MultipartPhase::Over by {
                    if q == part {
                        let w = done_nums(run.completed@).len() - 1;
                        assert(done_nums(run.completed@)[w] as int == q as int);
                    } else if part_done(done_nums(old_run.completed@), q) {
                        assert(part_done(done_nums(run.completed@), q));
                    } else if old_run.in_flight@.contains(q) {
                        assert(run.in_flight@ == old_run.in_flight@.remove(i as int));
                        assert(run.in_flight@.contains(q));
                    }
                }
            }
            let progress = if progress_due(now_ms - run.last_report_ms, run.bytes_done, run.size) {
                run.last_report_ms = now_ms;
                Some(run.bytes_done)
            } else {
                None
            };
            let completed = copy_parts(&run.completed);
            (run, PartAction::Record { completed, progress })
        },
    }
}

/// Part `part` failed.
fn failed_step(run: MultipartRun, part: u64, error: AppError) -> (r: (MultipartRun, PartAction))
    requires
        run.wf(),
    ensures
        r.0.wf(),
        r.0.last_report_ms == run.last_report_ms,
        r.0.size == run.size,
        r.0.chunk == run.chunk,
        r.0.n == run.n,
        if run.in_flight@.contains(part) {
            &&& r.0.completed@ == run.completed@
            &&& r.0.bytes_done == run.bytes_done
            &&& forall|q: u64| r.0.in_flight@.contains(q) <==> run.in_flight@.contains(q) && q != part
            &&& r.0.phase == run.phase
            &&& r.0.failed == if run.failed is Some { run.failed } else { Some(error) }
            &&& r.1 is Wait
        } else {
            r.1 is Wait && r.0 == run
        },
{
    let ghost old_run = run;
    let mut run = run;
    match position_of(&run.in_flight, part) {
        None => (run, PartAction::Wait),
        Some(i) => {
            proof {
                lemma_drop_in_flight(run.in_flight@, i as int);
            }
            run.in_flight.remove(i);
            if run.failed.is_none() {
                run.failed = Some(error);
            }
            proof {
                assert forall|k: int| 0 <= k < run.in_flight.len() implies 1 <= #[trigger] run.in_flight@[k] < run.next
                    && !part_done(done_nums(run.completed@), run.in_flight@[k]) by {
                    let q = run.in_flight@[k];
                    assert(old_run.in_flight@.contains(q));
                }
                assert(run.failed is Some);
            }
            (run, PartAction::Wait)
        },
    }
}

/// Finished parts stay finished when one more is added.
proof fn lemma_done_grows(c: Seq<(i32, String)>, e: (i32, String))
    ensures
        forall|q: u64| part_done(done_nums(c), q) ==> part_done(done_nums(c.push(e)), q),
{
    assert forall|q: u64| part_done(done_nums(c), q) implies part_done(done_nums(c.push(e)), q) by {
        let w = choose|w: int| 0 <= w < done_nums(c).len() && done_nums(c)[w] as int == q as int;
        assert(done_nums(c.push(e))[w] == done_nums(c)[w]);
    }
}

/// Waiting for the parts in flight before pausing.
fn drain_pause(run: MultipartRun) -> (r: (MultipartRun, PartAction))
    requires
        run.wf(),
        run.phase == MultipartPhase::DrainPause,
    ensures
        r.0.wf(),
        r.0.last_report_ms == run.last_report_ms,
        !(r.1 is Record),
        r.0.size == run.size && r.0.chunk == run.chunk && r.0.n == run.n,
        r.0.completed@ == run.completed@,
        r.0.in_flight@ == run.in_flight@,
        r.0.bytes_done == run.bytes_done,
        decision_of(r.1) == pause_decision(run),
        r.0.phase == match pause_decision(run) {
            Decision::Wait => MultipartPhase::DrainPause,
            Decision::Pause => MultipartPhase::Paused,
            _ => MultipartPhase::Over,
        },
        pause_decision(run) == Decision::Pause ==> r.1 == (PartAction::Pause { bytes_done: run.bytes_done }),
        pause_decision(run) == Decision::Failed ==> r.1 == PartAction::Failed(run.failed.unwrap()),
{
    let mut run = run;
    if run.in_flight.len() > 0 {
        return (run, PartAction::Wait);
    }
    match run.failed.take() {
        Some(e) => {
            run.phase = MultipartPhase::Over;
            (run, PartAction::Failed(e))
        },
        None => {
            run.phase = MultipartPhase::Paused;
            let b = run.bytes_done;
            (run, PartAction::Pause { bytes_done: b })
        },
    }
}

/// Every part handed out: what follows once the last ones answered.
fn finish(run: MultipartRun, c: JobControl) -> (r: (MultipartRun, PartAction))
    requires
        run.wf(),
        run.phase == MultipartPhase::Finishing,
    ensures
        r.0.wf(),
        r.0.last_report_ms == run.last_report_ms,
        !(r.1 is Record),
        r.0.size == run.size && r.0.chunk == run.chunk && r.0.n == run.n,
        r.0.completed@ == run.completed@,
        r.0.in_flight@ == run.in_flight@,
        r.0.bytes_done == run.bytes_done,
        decision_of(r.1) == finishing_decision(run, c),
        r.0.phase == if finishing_decision(run, c) == Decision::Wait {
            MultipartPhase::Finishing
        } else {
            MultipartPhase::Over
        },
        finishing_decision(run, c) == Decision::Failed ==> r.1 == PartAction::Failed(run.failed.unwrap()),
        finishing_decision(run, c) == Decision::Complete ==> (r.1 matches PartAction::Complete(parts) && {
            &&& sorted_by_part(parts@)
            &&& parts@.to_multiset() == run.completed@.to_multiset()
            &&& forall|i: u64| 1 <= i <= run.n ==> part_done(done_nums(parts@), i)
        }),
{
    let mut run = run;
    if run.in_flight.len() > 0 {
        return (run, PartAction::Wait);
    }
    match run.failed.take() {
        Some(e) => {
            run.phase = MultipartPhase::Over;
            return (run, PartAction::Failed(e));
        },
        None => {},
    }
    if c == JobControl::Cancel {
        run.phase = MultipartPhase::Over;
        return (run, PartAction::Cancelled);
    }
    let parts = sort_parts(copy_parts(&run.completed));
    proof {
        assert forall|i: u64| 1 <= i <= run.n implies part_done(done_nums(parts@), i) by {
            assert(part_done(done_nums(run.completed@), i) || run.in_flight@.contains(i));
            assert(!run.in_flight@.contains(i));
            let w = choose|w: int| 0 <= w < done_nums(run.completed@).len() && done_nums(run.completed@)[w] as int == i as int;
            let e = run.completed@[w];
            assert(run.completed@.contains(e));
            assert(run.completed@.to_multiset().count(e) > 0);
            assert(parts@.to_multiset().count(e) > 0);
            assert(parts@.contains(e));
            let k = choose|k: int| 0 <= k < parts.len() && parts@[k] == e;
            assert(done_nums(parts@)[k] as int == i as int);
        }
    }
    run.phase = MultipartPhase::Over;
    (run, PartAction::Complete(parts))
}

/// The time a `PartDone` event carries.
pub open spec fn done_at(e: PartEvent) -> u128 {
    match e {
        PartEvent::PartDone { now_ms, .. } => now_ms,
        _ => 0,
    }
}

/// The bytes a progress report of a multipart step carries.
pub open spec fn reported_bytes(a: PartAction) -> u64 {
    match a {
        PartAction::Record { progress: Some(b), .. } => b,
        _ => 0,
    }
}

/// `runs`, `events` and `actions` form a multipart run: step `k` took
/// `runs[k]` and `events[k]` to `runs[k + 1]` and `actions[k]`, keeping the
/// promise of `multipart_step` on reports.
pub open spec fn part_reports_along(runs: Seq<MultipartRun>, events: Seq<PartEvent>, actions: Seq<PartAction>) -> bool {
    &&& runs.len() == events.len() + 1
    &&& actions.len() == events.len()
    &&& forall|k: int| 0 <= k < events.len() ==> #[trigger] part_reports_throttled(runs[k], events[k], runs[k + 1], actions[k])
}

proof fn lemma_part_last_report_grows(
    runs: Seq<MultipartRun>,
    events: Seq<PartEvent>,
    actions: Seq<PartAction>,
    a: int,
    b: int,
)
    requires
        part_reports_along(runs, events, actions),
        0 <= a <= b <= events.len(),
    ensures
        runs[b].last_report_ms >= runs[a].last_report_ms,
    decreases b - a,
{
    if a < b {
        lemma_part_last_report_grows(runs, events, actions, a, b - 1);
        let k = b - 1;
        assert(part_reports_throttled(runs[k], events[k], runs[k + 1], actions[k]));
    }
}

/// Along a multipart run, a progress report that is not the report of the
/// whole file comes at least `PROGRESS_INTERVAL_MS` after any earlier
/// report: each comes with an answered part, and the later part was
/// answered that long after the earlier.
pub proof fn lemma_part_reports_spaced(
    runs: Seq<MultipartRun>,
    events: Seq<PartEvent>,
    actions: Seq<PartAction>,
    i: int,
    j: int,
)
    requires
        part_reports_along(runs, events, actions),
        0 <= i < j < events.len(),
        actions[i] matches PartAction::Record { progress: Some(_), .. },
        actions[j] matches PartAction::Record { progress: Some(_), .. },
        reported_bytes(actions[j]) != runs[j].size,
    ensures
        events[i] is PartDone,
        events[j] is PartDone,
        done_at(events[j]) - done_at(events[i]) >= PROGRESS_INTERVAL_MS,
{
    assert(part_reports_throttled(runs[i], events[i], runs[i + 1], actions[i]));
    assert(part_reports_throttled(runs[j], events[j], runs[j + 1], actions[j]));
    lemma_part_last_report_grows(runs, events, actions, i + 1, j);
}

/// Where a ranged download stands.
#[derive(Clone, Copy, Debug, PartialEq, Eq, Structural)]
pub enum DownloadPhase {
    /// At the top of the loop: about to ask for the rest of the object.
    Ready,
    /// The GET was sent.
    Requested,
    /// Writing the body to the file.
    Streaming,
    /// The run ended.
    Over,
}

/// A download in progress.
#[derive(Clone, Copy, Debug, PartialEq, Eq, Structural)]
pub struct DownloadRun {
    /// Bytes of the object in the file.
    pub offset: u64,
    /// Size of the object, when known.
    pub total: u64,
    pub known_total: bool,
    /// When (ms on the caller's clock) the last progress report went out,
    /// or the file was opened.
    pub last_report_ms: u128,
    pub phase: DownloadPhase,
}

/// What happened since the last step of a download.
pub enum DownloadEvent {
    /// The job is no longer paused: its control, and the length of its file.
    Ready { control: JobControl, file_len: u64 },
    /// The GET answered with these headers at `now_ms`.
    Answered { content_range: Option<String>, content_length: u64, now_ms: u128 },
    /// Before the next read: the job's control.
    Poll(JobControl),
    /// `n` more bytes were written (none: the body ended), at `now_ms`.
    Wrote { n: u64, now_ms: u128 },
}

/// What the download loop does next.
pub enum DownloadAction {
    /// Wait until the job is told to run or cancel.
    Hold,
    /// The run ends cancelled (flush the file first).
    Cancelled,
    /// The run ends done (flush the file first).
    Done,
    /// Send a GET with this `Range` header (none: the whole object).
    Request { range: Option<String> },
    /// Record the job running at `offset` of `total`, announce it, and open
    /// the file: created anew when `create`, else appended to. Progress
    /// reports are spaced from now on.
    Open { offset: u64, total: u64, create: bool },
    /// Record and announce the job at `offset` of `total`; it is done.
    AnnounceDone { offset: u64, total: u64 },
    /// Read the next piece of the body.
    Read,
    /// Flush, record the job paused at `done`, announce it, and go back to
    /// the top of the loop.
    Paused { done: u64 },
    /// Record the job running at `done` of `total` and report progress.
    Progress { done: u64, total: u64 },
    /// Go on.
    Continue,
}

/// A fresh download of an object whose size is `total` (0: unknown).
pub fn new_download_run(total: u64) -> (r: DownloadRun)
    ensures
        r == (DownloadRun { offset: 0, total, known_total: total > 0, last_report_ms: 0, phase: DownloadPhase::Ready }),
{
    DownloadRun { offset: 0, total, known_total: total > 0, last_report_ms: 0, phase: DownloadPhase::Ready }
}

/// The text of an optional string.
pub open spec fn opt_string_view(o: Option<String>) -> Option<Seq<char>> {
    match o {
        Some(s) => Some(s@),
        None => None,
    }
}

/// What a download step promises of its progress reports: the time of the
/// last report never goes back, and a report comes with written bytes at
/// least `PROGRESS_INTERVAL_MS` after the previous report (or the opening
/// of the file), and becomes the last report.
pub open spec fn download_throttled(run: DownloadRun, event: DownloadEvent, next: DownloadRun, action: DownloadAction) -> bool {
    &&& next.last_report_ms >= run.last_report_ms
    &&& action is Progress ==> (event matches DownloadEvent::Wrote { now_ms, .. } && now_ms - run.last_report_ms
        >= PROGRESS_INTERVAL_MS && next.last_report_ms == now_ms)
}

/// One step of a ranged download.
///
/// At the top it ends cancelled when told so, holds while paused, is done
/// once the file holds the known total, and otherwise asks for the bytes
/// from the file's length on. The answer fixes the total (from
/// `Content-Range`, else offset plus length); the file is created when the
/// download starts from 0 and appended to otherwise. While streaming, a
/// cancel ends the run, a pause records the bytes written and goes back to
/// the top, and progress is reported only once `PROGRESS_INTERVAL_MS` have
/// passed since the last report (or since the file was opened): two
/// reports of a run are always at least that far apart.
pub fn download_step(run: DownloadRun, event: DownloadEvent) -> (r: (DownloadRun, DownloadAction))
    requires
        event matches DownloadEvent::Wrote { n, .. } ==> run.offset + n <= u64::MAX,
        event matches DownloadEvent::Wrote { now_ms, .. } ==> now_ms >= run.last_report_ms,
        event matches DownloadEvent::Answered { now_ms, .. } ==> now_ms >= run.last_report_ms,
    ensures
        download_throttled(run, event, r.0, r.1),
        match event {
            DownloadEvent::Ready { control, file_len } => if run.phase != DownloadPhase::Ready {
                r.0 == run && r.1 is Hold
            } else {
                match control {
                    JobControl::Cancel => r.0 == (DownloadRun { phase: DownloadPhase::Over, ..run }) && r.1 is Cancelled,
                    JobControl::Pause => r.0 == run && r.1 is Hold,
                    JobControl::Run => {
                        let offset = if run.known_total && file_len > run.total { run.total } else { file_len };
                        if run.known_total && offset >= run.total {
                            r.0 == (DownloadRun { offset, phase: DownloadPhase::Over, ..run }) && r.1 is Done
                        } else {
                            &&& r.0 == (DownloadRun { offset, phase: DownloadPhase::Requested, ..run })
                            &&& r.1 matches DownloadAction::Request { range } && opt_string_view(range)
                                == spec_range_header(offset)
                        }
                    },
                }
            },
            DownloadEvent::Answered { content_range, content_length, now_ms } => if run.phase != DownloadPhase::Requested {
                r.0 == run && r.1 is Hold
            } else {
                let total = spec_total_from_range(opt_string_view(content_range), content_length, run.offset);
                if run.offset >= total {
                    &&& r.0 == (DownloadRun { total, known_total: true, phase: DownloadPhase::Over, ..run })
                    &&& r.1 == (DownloadAction::AnnounceDone { offset: run.offset, total })
                } else {
                    &&& r.0 == (DownloadRun {
                        total,
                        known_total: true,
                        last_report_ms: now_ms,
                        phase: DownloadPhase::Streaming,
                        ..run
                    })
                    &&& r.1 == (DownloadAction::Open { offset: run.offset, total, create: run.offset == 0 })
                }
            },
            DownloadEvent::Poll(control) => if run.phase != DownloadPhase::Streaming {
                r.0 == run && r.1 is Hold
            } else {
                match control {
                    JobControl::Cancel => r.0 == (DownloadRun { phase: DownloadPhase::Over, ..run }) && r.1 is Cancelled,
                    JobControl::Pause => r.0 == (DownloadRun { phase: DownloadPhase::Ready, ..run }) && r.1 == (
                    DownloadAction::Paused { done: run.offset }),
                    JobControl::Run => r.0 == run && r.1 is Read,
                }
            },
            DownloadEvent::Wrote { n, now_ms } => if run.phase != DownloadPhase::Streaming {
                r.0 == run && r.1 is Hold
            } else if n == 0 {
                r.0 == (DownloadRun { phase: DownloadPhase::Over, ..run }) && r.1 is Done
            } else if now_ms - run.last_report_ms >= PROGRESS_INTERVAL_MS {
                &&& r.0 == (DownloadRun { offset: (run.offset + n) as u64, last_report_ms: now_ms, ..run })
                &&& r.1 == (DownloadAction::Progress { done: (run.offset + n) as u64, total: run.total })
            } else {
                r.0 == (DownloadRun { offset: (run.offset + n) as u64, ..run }) && r.1 is Continue
            },
        },
{
    let mut run = run;
    match event {
        DownloadEvent::Ready { control, file_len } => {
            if run.phase != DownloadPhase::Ready {
                return (run, DownloadAction::Hold);
            }
            match control {
                JobControl::Cancel => {
                    run.phase = DownloadPhase::Over;
                    (run, DownloadAction::Cancelled)
                },
                JobControl::Pause => (run, DownloadAction::Hold),
                JobControl::Run => {
                    let offset = download_offset(file_len, run.known_total, run.total);
                    run.offset = offset;
                    if run.known_total && offset >= run.total {
                        run.phase = DownloadPhase::Over;
                        (run, DownloadAction::Done)
                    } else {
                        run.phase = DownloadPhase::Requested;
                        let range = range_header(offset);
                        (run, DownloadAction::Request { range })
                    }
                },
            }
        },
        DownloadEvent::Answered { content_range, content_length, now_ms } => {
            if run.phase != DownloadPhase::Requested {
                return (run, DownloadAction::Hold);
            }
            let total = match &content_range {
                Some(c) => total_from_range(Some(c.as_str()), content_length, run.offset),
                None => total_from_range(None, content_length, run.offset),
            };
            run.total = total;
            run.known_total = true;
            if run.offset >= total {
                run.phase = DownloadPhase::Over;
                (run, DownloadAction::AnnounceDone { offset: run.offset, total })
            } else {
                run.phase = DownloadPhase::Streaming;
                run.last_report_ms = now_ms;
                (run, DownloadAction::Open { offset: run.offset, total, create: run.offset == 0 })
            }
        },
        DownloadEvent::Poll(control) => {
            if run.phase != DownloadPhase::Streaming {
                return (run, DownloadAction::Hold);
            }
            match control {
                JobControl::Cancel => {
                    run.phase = DownloadPhase::Over;
                    (run, DownloadAction::Cancelled)
                },
                JobControl::Pause => {
                    run.phase = DownloadPhase::Ready;
                    (run, DownloadAction::Paused { done: run.offset })
                },
                JobControl::Run => (run, DownloadAction::Read),
            }
        },
        DownloadEvent::Wrote { n, now_ms } => {
            if run.phase != DownloadPhase::Streaming {
                return (run, DownloadAction::Hold);
            }
            if n == 0 {
                run.phase = DownloadPhase::Over;
                return (run, DownloadAction::Done);
            }
            run.offset = run.offset + n;
            if now_ms - run.last_report_ms >= PROGRESS_INTERVAL_MS {
                run.last_report_ms = now_ms;
                (run, DownloadAction::Progress { done: run.offset, total: run.total })
            } else {
                (run, DownloadAction::Continue)
            }
        },
    }
}

/// The time a `Wrote` event carries.
pub open spec fn wrote_at(e: DownloadEvent) -> u128 {
    match e {
        DownloadEvent::Wrote { now_ms, .. } => now_ms,
        _ => 0,
    }
}

/// `runs`, `events` and `actions` form a download run: step `k` took
/// `runs[k]` and `events[k]` to `runs[k + 1]` and `actions[k]`, keeping the
/// promise of `download_step` on reports.
pub open spec fn download_reports_along(runs: Seq<DownloadRun>, events: Seq<DownloadEvent>, actions: Seq<DownloadAction>) -> bool {
    &&& runs.len() == events.len() + 1
    &&& actions.len() == events.len()
    &&& forall|k: int| 0 <= k < events.len() ==> #[trigger] download_throttled(runs[k], events[k], runs[k + 1], actions[k])
}

proof fn lemma_download_last_report_grows(
    runs: Seq<DownloadRun>,
    events: Seq<DownloadEvent>,
    actions: Seq<DownloadAction>,
    a: int,
    b: int,
)
    requires
        download_reports_along(runs, events, actions),
        0 <= a <= b <= events.len(),
    ensures
        runs[b].last_report_ms >= runs[a].last_report_ms,
    decreases b - a,
{
    if a < b {
        lemma_download_last_report_grows(runs, events, actions, a, b - 1);
        let k = b - 1;
        assert(download_throttled(runs[k], events[k], runs[k + 1], actions[k]));
    }
}

/// Along a download run, any two progress reports are at least
/// `PROGRESS_INTERVAL_MS` apart: each comes with written bytes, and the
/// later was written that long after the earlier.
pub proof fn lemma_download_reports_spaced(
    runs: Seq<DownloadRun>,
    events: Seq<DownloadEvent>,
    actions: Seq<DownloadAction>,
    i: int,
    j: int,
)
    requires
        download_reports_along(runs, events, actions),
        0 <= i < j < events.len(),
        actions[i] is Progress,
        actions[j] is Progress,
    ensures
        events[i] is Wrote,
        events[j] is Wrote,
        wrote_at(events[j]) - wrote_at(events[i]) >= PROGRESS_INTERVAL_MS,
{
    assert(download_throttled(runs[i], events[i], runs[i + 1], actions[i]));
    assert(download_throttled(runs[j], events[j], runs[j + 1], actions[j]));
    lemma_download_last_report_grows(runs, events, actions, i + 1, j);
}

/// Where the streaming upload of the legacy transfer list stands.
#[derive(Clone, Copy, Debug, PartialEq, Eq, Structural)]
pub enum LegacyPhase {
    /// Reading the file into the buffer.
    Reading,
    /// A full part (not the last) is on its way.
    Sending,
    /// The last part is on its way.
    LastPart,
    /// Every part went up: complete the upload.
    Finishing,
    /// The run ended.
    Over,
}

/// A streaming multipart upload of the legacy transfer list.
#[derive(Clone, Copy, Debug, PartialEq, Eq, Structural)]
pub struct LegacyUpload {
    /// The part size: every part but the last has exactly this length.
    pub chunk: usize,
    /// Bytes read and not yet sent.
    pub buffered: usize,
    /// Bytes of the part on its way.
    pub sending: usize,
    /// Number of the next part (of the part on its way, while sending).
    pub part_number: i32,
    /// Bytes sent.
    pub uploaded: i64,
    /// Parts sent.
    pub parts: usize,
    pub phase: LegacyPhase,
}

/// What happened since the last step of a legacy upload.
pub enum LegacyEvent {
    /// `n` bytes were read (none: the file ended).
    Read(usize),
    /// Reading the file failed with this message.
    ReadFailed(String),
    /// Go on after a report.
    Next,
    /// The part on its way went up.
    PartSent,
    /// The part on its way failed with this message.
    PartFailed(String),
    /// Completing the upload failed, with the error's text and its details.
    CompleteFailed { text: String, details: String },
}

/// What the legacy upload does next.
pub enum LegacyAction {
    /// Read more of the file.
    ReadMore,
    /// Send the first `len` buffered bytes as part `part_number`.
    Send { part_number: i32, len: usize },
    /// Report `uploaded` bytes sent, then go on.
    Report { uploaded: i64 },
    /// Abort the multipart upload and fail with this error.
    AbortWith(AppError),
    /// Nothing was sent: abort the multipart upload and put an empty object.
    AbortAndPutEmpty,
    /// Complete the upload with the parts sent.
    Complete,
    /// Nothing to do.
    Idle,
}

/// A legacy streaming upload in parts of `chunk` bytes that has not read
/// anything yet.
pub fn new_legacy_upload(chunk: usize) -> (r: LegacyUpload)
    requires
        chunk > 0,
    ensures
        r == (LegacyUpload {
            chunk,
            buffered: 0,
            sending: 0,
            part_number: 1,
            uploaded: 0,
            parts: 0,
            phase: LegacyPhase::Reading,
        }),
{
    LegacyUpload { chunk, buffered: 0, sending: 0, part_number: 1, uploaded: 0, parts: 0, phase: LegacyPhase::Reading }
}

/// The message of a failed part `pn` (`last`: the final one) with the SDK's text `m`.
pub open spec fn part_failure_message(pn: i32, last: bool, m: Seq<char>) -> Seq<char> {
    (if last { "上传最后一个分片 "@ } else { "上传分片 "@ }) + decimal(pn as nat) + " 失败: "@ + m
}

/// The message of a failed completion.
pub open spec fn complete_failure_message(text: Seq<char>, details: Seq<char>) -> Seq<char> {
    "Failed to complete multipart upload: "@ + text + " (Details: "@ + details + ")"@
}

/// `s` sending a full part.
pub open spec fn sending_full(s: LegacyUpload) -> LegacyUpload {
    LegacyUpload { sending: s.chunk, phase: LegacyPhase::Sending, ..s }
}

fn part_failure(pn: i32, last: bool, m: String) -> (r: AppError)
    requires
        pn >= 0,
    ensures
        r matches AppError::S3Error(t) && t@ == part_failure_message(pn, last, m@),
{
    let head = if last { chars_of("上传最后一个分片 ") } else { chars_of("上传分片 ") };
    let a = concat_chars(&head, &u64_to_decimal(pn as u64));
    let b = concat_chars(&a, &chars_of(" 失败: "));
    AppError::S3Error(string_of(&concat_chars(&b, &chars_of(m.as_str()))))
}

/// A full part goes when the buffer holds one; else more must be read.
fn send_or_read(s: LegacyUpload) -> (r: (LegacyUpload, LegacyAction))
    requires
        s.phase == LegacyPhase::Reading,
    ensures
        s.buffered >= s.chunk ==> r.0 == sending_full(s) && r.1 == (LegacyAction::Send {
            part_number: s.part_number,
            len: s.chunk,
        }),
        s.buffered < s.chunk ==> r.0 == s && r.1 is ReadMore,
{
    let mut s = s;
    if s.buffered >= s.chunk {
        s.sending = s.chunk;
        s.phase = LegacyPhase::Sending;
        (s, LegacyAction::Send { part_number: s.part_number, len: s.chunk })
    } else {
        (s, LegacyAction::ReadMore)
    }
}

/// The legacy upload sent its last part or ended.
pub open spec fn legacy_ended(p: LegacyPhase) -> bool {
    p == LegacyPhase::LastPart || p == LegacyPhase::Finishing || p == LegacyPhase::Over
}

/// What a legacy step promises of its parts: the part size never changes,
/// a part shorter than it is the last one, and once the last part went
/// out (or the run ended) no part goes out any more.
pub open spec fn legacy_parts_kept(s: LegacyUpload, next: LegacyUpload, action: LegacyAction) -> bool {
    &&& next.chunk == s.chunk
    &&& action matches LegacyAction::Send { len, .. } ==> len == s.chunk || legacy_ended(next.phase)
    &&& legacy_ended(s.phase) ==> legacy_ended(next.phase) && !(action is Send)
}

/// One step of the legacy streaming upload.
///
/// Read bytes are buffered; each time a full part of `chunk` bytes is
/// buffered it goes up, so every part but the last has exactly `chunk`
/// bytes, and at the end of the file the rest (1 to `chunk` bytes) goes as
/// the last part. Parts are numbered from 1 in order. Any failure (reading,
/// a part, completing) aborts the upload with its message. A file that gave
/// no part at all is put as an empty object after the upload is aborted.
pub fn legacy_upload_step(s: LegacyUpload, e: LegacyEvent) -> (r: (LegacyUpload, LegacyAction))
    requires
        e matches LegacyEvent::Read(n) ==> s.buffered + n <= usize::MAX,
        e is PartSent ==> s.uploaded + s.sending <= i64::MAX && s.part_number < i32::MAX && s.parts < usize::MAX,
        s.part_number >= 1,
        s.sending <= s.buffered,
        s.uploaded >= 0,
        s.chunk > 0,
    ensures
        legacy_parts_kept(s, r.0, r.1),
        r.0.part_number >= 1,
        r.0.sending <= r.0.buffered,
        r.0.uploaded >= 0,
        r.1 matches LegacyAction::Send { len, .. } ==> (r.0.phase == LegacyPhase::Sending && len == s.chunk) || (
        r.0.phase == LegacyPhase::LastPart && 0 < len < s.chunk),
        match e {
            LegacyEvent::Read(n) => if s.phase != LegacyPhase::Reading {
                r.0 == s && r.1 is Idle
            } else if n > 0 {
                let t = LegacyUpload { buffered: (s.buffered + n) as usize, ..s };
                if t.buffered >= s.chunk {
                    r.0 == sending_full(t) && r.1 == (LegacyAction::Send { part_number: s.part_number, len: s.chunk })
                } else {
                    r.0 == t && r.1 is ReadMore
                }
            } else if s.buffered >= s.chunk {
                r.0 == sending_full(s) && r.1 == (LegacyAction::Send { part_number: s.part_number, len: s.chunk })
            } else if s.buffered > 0 {
                r.0 == (LegacyUpload { sending: s.buffered, phase: LegacyPhase::LastPart, ..s }) && r.1 == (
                LegacyAction::Send { part_number: s.part_number, len: s.buffered })
            } else if s.parts == 0 {
                r.0 == (LegacyUpload { phase: LegacyPhase::Over, ..s }) && r.1 is AbortAndPutEmpty
            } else {
                r.0 == (LegacyUpload { phase: LegacyPhase::Over, ..s }) && r.1 is Complete
            },
            LegacyEvent::ReadFailed(m) => r.0 == (LegacyUpload { phase: LegacyPhase::Over, ..s }) && (
            r.1 matches LegacyAction::AbortWith(AppError::Io(t)) && t@ == m@),
            LegacyEvent::Next => match s.phase {
                LegacyPhase::Reading => if s.buffered >= s.chunk {
                    r.0 == sending_full(s) && r.1 == (LegacyAction::Send { part_number: s.part_number, len: s.chunk })
                } else {
                    r.0 == s && r.1 is ReadMore
                },
                LegacyPhase::Finishing => r.0 == (LegacyUpload { phase: LegacyPhase::Over, ..s }) && r.1 is Complete,
                _ => r.0 == s && r.1 is Idle,
            },
            LegacyEvent::PartSent => if s.phase == LegacyPhase::Sending || s.phase == LegacyPhase::LastPart {
                &&& r.0 == (LegacyUpload {
                    chunk: s.chunk,
                    buffered: (s.buffered - s.sending) as usize,
                    sending: 0,
                    part_number: (s.part_number + 1) as i32,
                    uploaded: (s.uploaded + s.sending) as i64,
                    parts: (s.parts + 1) as usize,
                    phase: if s.phase == LegacyPhase::Sending { LegacyPhase::Reading } else { LegacyPhase::Finishing },
                })
                &&& r.1 == (LegacyAction::Report { uploaded: (s.uploaded + s.sending) as i64 })
            } else {
                r.0 == s && r.1 is Idle
            },
            LegacyEvent::PartFailed(m) => if s.phase == LegacyPhase::Sending || s.phase == LegacyPhase::LastPart {
                r.0 == (LegacyUpload { phase: LegacyPhase::Over, ..s }) && (r.1 matches LegacyAction::AbortWith(
                    AppError::S3Error(t),
                ) && t@ == part_failure_message(s.part_number, s.phase == LegacyPhase::LastPart, m@))
            } else {
                r.0 == s && r.1 is Idle
            },
            LegacyEvent::CompleteFailed { text, details } => r.0 == (LegacyUpload { phase: LegacyPhase::Over, ..s }) && (
            r.1 matches LegacyAction::AbortWith(AppError::S3Error(t)) && t@ == complete_failure_message(text@, details@)),
        },
{
    let mut s = s;
    match e {
        LegacyEvent::Read(n) => {
            if s.phase != LegacyPhase::Reading {
                return (s, LegacyAction::Idle);
            }
            if n > 0 {
                s.buffered = s.buffered + n;
                return send_or_read(s);
            }
            if s.buffered >= s.chunk {
                send_or_read(s)
            } else if s.buffered > 0 {
                s.sending = s.buffered;
                s.phase = LegacyPhase::LastPart;
                (s, LegacyAction::Send { part_number: s.part_number, len: s.buffered })
            } else if s.parts == 0 {
                s.phase = LegacyPhase::Over;
                (s, LegacyAction::AbortAndPutEmpty)
            } else {
                s.phase = LegacyPhase::Over;
                (s, LegacyAction::Complete)
            }
        },
        LegacyEvent::ReadFailed(m) => {
            s.phase = LegacyPhase::Over;
            (s, LegacyAction::AbortWith(AppError::Io(m)))
        },
        LegacyEvent::Next => {
            match s.phase {
                LegacyPhase::Reading => send_or_read(s),
                LegacyPhase::Finishing => {
                    s.phase = LegacyPhase::Over;
                    (s, LegacyAction::Complete)
                },
                _ => (s, LegacyAction::Idle),
            }
        },
        LegacyEvent::PartSent => {
            if s.phase == LegacyPhase::Sending || s.phase == LegacyPhase::LastPart {
                s.buffered = s.buffered - s.sending;
                s.uploaded = s.uploaded + s.sending as i64;
                s.sending = 0;
                s.part_number = s.part_number + 1;
                s.parts = s.parts + 1;
                s.phase = if s.phase == LegacyPhase::Sending { LegacyPhase::Reading } else { LegacyPhase::Finishing };
                (s, LegacyAction::Report { uploaded: s.uploaded })
            } else {
                (s, LegacyAction::Idle)
            }
        },
        LegacyEvent::PartFailed(m) => {
            if s.phase == LegacyPhase::Sending || s.phase == LegacyPhase::LastPart {
                let last = s.phase == LegacyPhase::LastPart;
                let err = part_failure(s.part_number, last, m);
                s.phase = LegacyPhase::Over;
                (s, LegacyAction::AbortWith(err))
            } else {
                (s, LegacyAction::Idle)
            }
        },
        LegacyEvent::CompleteFailed { text, details } => {
            let a = concat_chars(&chars_of("Failed to complete multipart upload: "), &chars_of(text.as_str()));
            let b = concat_chars(&concat_chars(&a, &chars_of(" (Details: ")), &chars_of(details.as_str()));
            let t = string_of(&concat_chars(&b, &chars_of(")")));
            s.phase = LegacyPhase::Over;
            (s, LegacyAction::AbortWith(AppError::S3Error(t)))
        },
    }
}


/// `states`, `events` and `actions` form a legacy upload: step `k` took
/// `states[k]` and `events[k]` to `states[k + 1]` and `actions[k]`, keeping
/// the promise of `legacy_upload_step` on parts.
pub open spec fn legacy_parts_along(states: Seq<LegacyUpload>, events: Seq<LegacyEvent>, actions: Seq<LegacyAction>) -> bool {
    &&& states.len() == events.len() + 1
    &&& actions.len() == events.len()
    &&& forall|k: int| 0 <= k < events.len() ==> #[trigger] legacy_parts_kept(states[k], states[k + 1], actions[k])
}

proof fn lemma_legacy_stays_ended(
    states: Seq<LegacyUpload>,
    events: Seq<LegacyEvent>,
    actions: Seq<LegacyAction>,
    a: int,
    b: int,
)
    requires
        legacy_parts_along(states, events, actions),
        0 <= a <= b <= events.len(),
        legacy_ended(states[a].phase),
    ensures
        legacy_ended(states[b].phase),
        b < events.len() ==> !(actions[b] is Send),
    decreases b - a,
{
    if a < b {
        lemma_legacy_stays_ended(states, events, actions, a, b - 1);
        let k = b - 1;
        assert(legacy_parts_kept(states[k], states[k + 1], actions[k]));
    }
    if b < events.len() {
        assert(legacy_parts_kept(states[b], states[b + 1], actions[b]));
    }
}

/// Along a legacy upload, every part but the last has exactly the part
/// size the upload started with: a part followed by another one is never
/// shorter.
pub proof fn lemma_legacy_parts_equal(
    states: Seq<LegacyUpload>,
    events: Seq<LegacyEvent>,
    actions: Seq<LegacyAction>,
    i: int,
    j: int,
)
    requires
        legacy_parts_along(states, events, actions),
        0 <= i < j < events.len(),
        actions[i] is Send,
        actions[j] is Send,
    ensures
        actions[i]->Send_len == states[0].chunk,
{
    lemma_legacy_chunk_kept(states, events, actions, i);
    assert(legacy_parts_kept(states[i], states[i + 1], actions[i]));
    if actions[i]->Send_len != states[i].chunk {
        lemma_legacy_stays_ended(states, events, actions, i + 1, j);
    }
}

proof fn lemma_legacy_chunk_kept(
    states: Seq<LegacyUpload>,
    events: Seq<LegacyEvent>,
    actions: Seq<LegacyAction>,
    k: int,
)
    requires
        legacy_parts_along(states, events, actions),
        0 <= k <= events.len(),
    ensures
        states[k].chunk == states[0].chunk,
    decreases k,
{
    if k > 0 {
        lemma_legacy_chunk_kept(states, events, actions, k - 1);
        let m = k - 1;
        assert(legacy_parts_kept(states[m], states[m + 1], actions[m]));
    }
}

} // verus!
