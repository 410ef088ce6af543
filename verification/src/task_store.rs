//! The download tasks of the application, by id, and the updates that
//! the downloads report. A task's progress, of type `P`, is carried along.
use vstd::prelude::*;
use crate::home::DownloadOutcome;
use crate::tasks::TaskState;
use std::collections::HashMap;

verus! {

broadcast use {vstd::string::group_string_axioms, vstd::std_specs::hash::group_hash_axioms};

/// A download task.
pub struct TaskRecord<P> {
    pub id: u128,
    pub url: String,
    pub title: Option<String>,
    pub state: TaskState,
    pub progress: P,
    pub downloaded_bytes: u64,
    pub total_bytes: Option<u64>,
    /// Bytes per second
    pub speed: Option<u64>,
    /// Seconds left
    pub eta: Option<u64>,
    pub output_path: Option<String>,
    /// When the download started and ended (seconds since the epoch)
    pub started_at: Option<i64>,
    pub completed_at: Option<i64>,
}

/// What a download reports of a task.
pub enum TaskUpdate<P> {
    Created(TaskRecord<P>),
    /// Progress, bytes downloaded, total, speed, seconds left
    Progress(u128, P, u64, Option<u64>, Option<u64>, Option<u64>),
    StateChanged(u128, TaskState),
    SpeedUpdate(u128, u64),
    /// Finished, into the file named
    Completed(u128, String),
    Failed(u128, String),
}

/// The tasks, by id.
pub struct TaskStore<P> {
    records: HashMap<u128, TaskRecord<P>>,
}

/// `m` with the task `id`, where present, changed by `f`.
pub open spec fn modify<P>(
    m: Map<u128, TaskRecord<P>>,
    id: u128,
    f: spec_fn(TaskRecord<P>) -> TaskRecord<P>,
) -> Map<u128, TaskRecord<P>> {
    if m.contains_key(id) {
        m.insert(id, f(m[id]))
    } else {
        m
    }
}

/// The tasks after an update: a new task is stored under its id (in place
/// of one with the same id); progress, state and speed are set on the task
/// named; a finished task is completed with full progress, its file and
/// its end time; a failed task fails with the error and its end time.
/// Updates for a task that is not stored change nothing.
pub open spec fn updated<P>(
    m: Map<u128, TaskRecord<P>>,
    u: TaskUpdate<P>,
    now: i64,
    full: P,
) -> Map<u128, TaskRecord<P>> {
    match u {
        TaskUpdate::Created(t) => m.insert(t.id, t),
        TaskUpdate::Progress(id, p, d, t, s, e) => modify(
            m,
            id,
            |r: TaskRecord<P>|
                TaskRecord { progress: p, downloaded_bytes: d, total_bytes: t, speed: s, eta: e, ..r },
        ),
        TaskUpdate::StateChanged(id, st) => modify(m, id, |r: TaskRecord<P>| TaskRecord { state: st, ..r }),
        TaskUpdate::SpeedUpdate(id, s) => modify(m, id, |r: TaskRecord<P>| TaskRecord { speed: Some(s), ..r }),
        TaskUpdate::Completed(id, path) => modify(
            m,
            id,
            |r: TaskRecord<P>|
                TaskRecord {
                    state: TaskState::Completed,
                    progress: full,
                    output_path: Some(path),
                    completed_at: Some(now),
                    ..r
                },
        ),
        TaskUpdate::Failed(id, e) => modify(
            m,
            id,
            |r: TaskRecord<P>| TaskRecord { state: TaskState::Failed(e), completed_at: Some(now), ..r },
        ),
    }
}

impl<P> TaskStore<P> {
    /// The tasks, by id.
    pub closed spec fn tasks(&self) -> Map<u128, TaskRecord<P>> {
        self.records@
    }

    /// No task.
    pub fn new() -> (s: Self)
        ensures
            s.tasks() == Map::<u128, TaskRecord<P>>::empty(),
    {
        TaskStore { records: HashMap::new() }
    }

    /// Whether a task with id `id` is stored.
    pub fn contains(&self, id: u128) -> (b: bool)
        ensures
            b == self.tasks().contains_key(id),
    {
        self.records.contains_key(&id)
    }

    /// The task with id `id`.
    pub fn get(&self, id: u128) -> (r: Option<&TaskRecord<P>>)
        ensures
            match r {
                Some(t) => self.tasks().contains_key(id) && *t == self.tasks()[id],
                None => !self.tasks().contains_key(id),
            },
    {
        self.records.get(&id)
    }

    /// Stores `t` under its id, in place of a task with the same id.
    pub fn insert(&mut self, t: TaskRecord<P>)
        ensures
            final(self).tasks() == old(self).tasks().insert(t.id, t),
    {
        let id = t.id;
        let _ = self.records.insert(id, t);
    }

    /// Removes the task with id `id`.
    pub fn remove(&mut self, id: u128)
        ensures
            final(self).tasks() == old(self).tasks().remove(id),
    {
        let _ = self.records.remove(&id);
    }

    /// Applies what a download reported (see `updated`); `now` is the
    /// current time, `full` the progress of a finished download.
    pub fn update_task(&mut self, u: TaskUpdate<P>, now: i64, full: P)
        ensures
            final(self).tasks() == updated(old(self).tasks(), u, now, full),
    {
        let ghost m = self.tasks();
        let ghost u0 = u;
        match u {
            TaskUpdate::Created(t) => {
                self.insert(t);
            },
            TaskUpdate::Progress(id, p, d, t, s, e) => {
                if let Some(mut r) = self.records.remove(&id) {
                    r.progress = p;
                    r.downloaded_bytes = d;
                    r.total_bytes = t;
                    r.speed = s;
                    r.eta = e;
                    let _ = self.records.insert(id, r);
                }
            },
            TaskUpdate::StateChanged(id, st) => {
                if let Some(mut r) = self.records.remove(&id) {
                    r.state = st;
                    let _ = self.records.insert(id, r);
                }
            },
            TaskUpdate::SpeedUpdate(id, s) => {
                if let Some(mut r) = self.records.remove(&id) {
                    r.speed = Some(s);
                    let _ = self.records.insert(id, r);
                }
            },
            TaskUpdate::Completed(id, path) => {
                if let Some(mut r) = self.records.remove(&id) {
                    r.state = TaskState::Completed;
                    r.progress = full;
                    r.output_path = Some(path);
                    r.completed_at = Some(now);
                    let _ = self.records.insert(id, r);
                }
            },
            TaskUpdate::Failed(id, e) => {
                if let Some(mut r) = self.records.remove(&id) {
                    r.state = TaskState::Failed(e);
                    r.completed_at = Some(now);
                    let _ = self.records.insert(id, r);
                }
            },
        }
        proof {
            assert(self.tasks() =~= updated(m, u0, now, full));
        }
    }
}

/// The task after its download returned: completed, with full progress,
/// its file, its end time and its size where known; paused or cancelled
/// where the error says so; failed otherwise, with its end time.
pub open spec fn finished<P>(
    r: TaskRecord<P>,
    outcome: DownloadOutcome,
    path: Option<String>,
    size: Option<u64>,
    now: i64,
    full: P,
) -> TaskRecord<P> {
    match outcome {
        DownloadOutcome::Completed => {
            let done = TaskRecord {
                state: TaskState::Completed,
                progress: full,
                output_path: path,
                completed_at: Some(now),
                ..r
            };
            match size {
                Some(n) => TaskRecord { total_bytes: Some(n), downloaded_bytes: n, ..done },
                None => done,
            }
        },
        DownloadOutcome::Paused => TaskRecord { state: TaskState::Paused, ..r },
        DownloadOutcome::Cancelled => TaskRecord { state: TaskState::Cancelled, ..r },
        DownloadOutcome::Failed(e) => TaskRecord { state: TaskState::Failed(e), completed_at: Some(now), ..r },
    }
}

/// The task with the progress a download reported: zero speed and zero
/// total stand for unknown.
pub open spec fn with_progress<P>(r: TaskRecord<P>, percent: P, speed: u64, downloaded: u64, total: u64) -> TaskRecord<P> {
    TaskRecord {
        progress: percent,
        speed: if speed > 0 { Some(speed) } else { None },
        downloaded_bytes: downloaded,
        total_bytes: if total > 0 { Some(total) } else { None },
        ..r
    }
}

impl<P> TaskRecord<P> {
    /// Records the progress a download reported (see `with_progress`).
    pub fn record_progress(&mut self, percent: P, speed: u64, downloaded: u64, total: u64)
        ensures
            *final(self) == with_progress(*old(self), percent, speed, downloaded, total),
    {
        self.progress = percent;
        self.speed = if speed > 0 { Some(speed) } else { None };
        self.downloaded_bytes = downloaded;
        self.total_bytes = if total > 0 { Some(total) } else { None };
    }

    /// Marks the task as downloading from `now`.
    pub fn start(&mut self, now: i64)
        ensures
            *final(self) == (TaskRecord { state: TaskState::Downloading, started_at: Some(now), ..*old(self) }),
    {
        self.state = TaskState::Downloading;
        self.started_at = Some(now);
    }

    /// Records how the download ended (see `finished`); `path` is the file
    /// written and `size` its size, for a completed download.
    pub fn finish(&mut self, outcome: DownloadOutcome, path: Option<String>, size: Option<u64>, now: i64, full: P)
        ensures
            *final(self) == finished(*old(self), outcome, path, size, now, full),
    {
        match outcome {
            DownloadOutcome::Completed => {
                self.state = TaskState::Completed;
                self.progress = full;
                self.output_path = path;
                self.completed_at = Some(now);
                match size {
                    Some(n) => {
                        self.total_bytes = Some(n);
                        self.downloaded_bytes = n;
                    },
                    None => {},
                }
            },
            DownloadOutcome::Paused => {
                self.state = TaskState::Paused;
            },
            DownloadOutcome::Cancelled => {
                self.state = TaskState::Cancelled;
            },
            DownloadOutcome::Failed(e) => {
                self.state = TaskState::Failed(e);
                self.completed_at = Some(now);
            },
        }
    }
}

} // verus!
