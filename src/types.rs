//! The task store's data: tasks, their status, and the shared application state.
use vstd::prelude::*;

verus! {

/// Milliseconds in one hour.
pub const HOUR_MS: i64 = 3_600_000;

/// Milliseconds in one day.
pub const DAY_MS: i64 = 86_400_000;

/// Where a task stands. Among the tasks that are not done, at most one is `Active`.
#[derive(Debug, Clone, Copy, PartialEq, Eq, Structural)]
pub enum Status {
    Active,
    Parked,
    Blocked,
    Archived,
    Deleted,
}

impl Default for Status {
    fn default() -> (r: Self)
        ensures
            r == Status::Parked,
    {
        Status::Parked
    }
}

/// A unit of work.
#[derive(Debug)]
pub struct Task {
    pub id: u64,
    pub title: String,
    pub notes: Option<String>,
    pub done: bool,
    /// The first tag is the task's batching tag.
    pub tags: Vec<String>,
    pub due_ts: Option<i64>,
    pub est_min: Option<u32>,
    pub last_touched_ms: i64,
    pub status: Status,
}

/// The mathematical model of a task: strings as character sequences.
pub struct TaskV {
    pub id: u64,
    pub title: Seq<char>,
    pub notes: Option<Seq<char>>,
    pub done: bool,
    pub tags: Seq<Seq<char>>,
    pub due_ts: Option<i64>,
    pub est_min: Option<u32>,
    pub last_touched_ms: i64,
    pub status: Status,
}

pub open spec fn opt_str_view(o: Option<String>) -> Option<Seq<char>> {
    match o {
        Some(s) => Some(s@),
        None => None,
    }
}

pub open spec fn tags_view(tags: Seq<String>) -> Seq<Seq<char>> {
    tags.map_values(|s: String| s@)
}

impl View for Task {
    type V = TaskV;

    open spec fn view(&self) -> TaskV {
        TaskV {
            id: self.id,
            title: self.title@,
            notes: opt_str_view(self.notes),
            done: self.done,
            tags: tags_view(self.tags@),
            due_ts: self.due_ts,
            est_min: self.est_min,
            last_touched_ms: self.last_touched_ms,
            status: self.status,
        }
    }
}

/// The tasks of a sequence, each by its model.
pub open spec fn tasks_view(ts: Seq<Task>) -> Seq<TaskV> {
    ts.map_values(|t: Task| t@)
}

/// The first tag of a task, or the empty string where it has none.
pub open spec fn first_tag(t: TaskV) -> Seq<char> {
    if t.tags.len() > 0 {
        t.tags[0]
    } else {
        Seq::empty()
    }
}

impl Task {
    /// A copy of the task, equal to it in every field.
    pub fn duplicate(&self) -> (r: Task)
        ensures
            r@ == self@,
    {
        let tags = self.tags.clone();
        proof {
            assert(tags_view(tags@) =~= tags_view(self.tags@));
        }
        Task {
            id: self.id,
            title: self.title.clone(),
            notes: self.notes.clone(),
            done: self.done,
            tags,
            due_ts: self.due_ts,
            est_min: self.est_min,
            last_touched_ms: self.last_touched_ms,
            status: self.status,
        }
    }
}

/// A copy of each task of `ts`, in order.
pub fn copy_tasks(ts: &Vec<Task>) -> (r: Vec<Task>)
    ensures
        tasks_view(r@) == tasks_view(ts@),
{
    let mut out: Vec<Task> = Vec::new();
    let mut k: usize = 0;
    while k < ts.len()
        invariant
            0 <= k <= ts@.len(),
            tasks_view(out@) =~= tasks_view(ts@).subrange(0, k as int),
        decreases ts@.len() - k,
    {
        let t = ts[k].duplicate();
        let ghost prev = out@;
        out.push(t);
        proof {
            assert(tasks_view(out@) =~= tasks_view(prev).push(t@));
        }
        k = k + 1;
    }
    proof {
        assert(tasks_view(ts@).subrange(0, k as int) =~= tasks_view(ts@));
    }
    out
}

/// The process-wide state: every task, the next identifier to hand out, and
/// the batching context (the focused tag and when focus began).
pub struct AppState {
    pub tasks: Vec<Task>,
    pub next_id: u64,
    pub current_tag: Option<String>,
    pub context_started_ms: Option<i64>,
}

impl Default for AppState {
    fn default() -> (r: Self)
        ensures
            r.tasks@.len() == 0,
            r.next_id == 0,
            r.current_tag.is_none(),
            r.context_started_ms.is_none(),
    {
        AppState { tasks: Vec::new(), next_id: 0, current_tag: None, context_started_ms: None }
    }
}

/// Relies on std's `SystemTime::now`, `SystemTime::duration_since` and
/// `Duration::as_millis`: the milliseconds since the Unix epoch, none where
/// the clock reads before it.
#[verifier::external_body]
pub(crate) fn clock_ms() -> (r: Option<u128>) {
    match std::time::SystemTime::now().duration_since(std::time::UNIX_EPOCH) {
        Ok(d) => Some(d.as_millis()),
        Err(_) => None,
    }
}

/// A clock reading as a timestamp: zero where the clock had none, capped at
/// the largest `i64`.
pub fn clock_or_zero(t: Option<u128>) -> (r: i64)
    ensures
        r == match t {
            Some(v) => if v > i64::MAX as u128 {
                i64::MAX as int
            } else {
                v as int
            },
            None => 0,
        },
{
    match t {
        Some(v) => if v > i64::MAX as u128 {
            i64::MAX
        } else {
            v as i64
        },
        None => 0,
    }
}

/// The wall clock in milliseconds since the Unix epoch; a clock set before
/// the epoch reads as zero.
pub fn now_ms() -> (r: i64)
    ensures
        r >= 0,
{
    clock_or_zero(clock_ms())
}

} // verus!
