//! The operations callers invoke on the store: changes to tasks under the
//! single-active-task rule, and the views that sweep before they read.
use vstd::prelude::*;
use crate::types::{AppState, Status, Task, tags_view, tasks_view, opt_str_view, now_ms, copy_tasks};
use crate::score::Recommendation;
use crate::domain::{
    compute_recommendation, compute_scored_tasks, compute_sorted_tasks, eligible_next, best_next,
    arranged, scored_listing,
};
use crate::housekeeping::{sweep_archive_for_today, sweep_hard_delete, archive_sweep, purged};

verus! {

/// A task after another task became active: parked unless done.
pub open spec fn park_one(t: Task) -> Task {
    if !t.done {
        Task { status: Status::Parked, ..t }
    } else {
        t
    }
}

/// At most one task that is not done is active.
pub open spec fn single_active(ts: Seq<Task>) -> bool {
    forall|i: int, j: int|
        0 <= i < ts.len() && 0 <= j < ts.len() && !ts[i].done && ts[i].status == Status::Active
            && !ts[j].done && ts[j].status == Status::Active ==> i == j
}

/// The index of the first task with identifier `id`, if any.
pub open spec fn first_with_id(ts: Seq<Task>, id: u64, i: int) -> bool {
    0 <= i < ts.len() && ts[i].id == id && forall|j: int| 0 <= j < i ==> ts[j].id != id
}

/// Whether some task has identifier `id`.
pub open spec fn has_id(ts: Seq<Task>, id: u64) -> bool {
    exists|i: int| 0 <= i < ts.len() && ts[i].id == id
}

fn find_index(tasks: &Vec<Task>, id: u64) -> (r: Option<usize>)
    ensures
        r.is_none() <==> !has_id(tasks@, id),
        r matches Some(i) ==> first_with_id(tasks@, id, i as int),
{
    let mut i: usize = 0;
    while i < tasks.len()
        invariant
            0 <= i <= tasks@.len(),
            forall|j: int| 0 <= j < i ==> tasks@[j].id != id,
        decreases tasks@.len() - i,
    {
        if tasks[i].id == id {
            return Some(i);
        }
        i = i + 1;
    }
    None
}

/// Parks every task that is not done, except the one at `keep` (pass the
/// length to except none).
fn park_pending(s: &mut AppState, keep: usize)
    ensures
        final(s).tasks@.len() == old(s).tasks@.len(),
        forall|k: int|
            0 <= k < old(s).tasks@.len() ==> #[trigger] final(s).tasks@[k] == if k == keep {
                old(s).tasks@[k]
            } else {
                park_one(old(s).tasks@[k])
            },
        final(s).next_id == old(s).next_id,
        final(s).current_tag == old(s).current_tag,
        final(s).context_started_ms == old(s).context_started_ms,
{
    let ghost ts = s.tasks@;
    let mut i: usize = 0;
    while i < s.tasks.len()
        invariant
            0 <= i <= s.tasks@.len(),
            s.tasks@.len() == ts.len(),
            forall|k: int|
                0 <= k < i ==> #[trigger] s.tasks@[k] == if k == keep {
                    ts[k]
                } else {
                    park_one(ts[k])
                },
            forall|k: int| i <= k < ts.len() ==> s.tasks@[k] == ts[k],
            s.next_id == old(s).next_id,
            s.current_tag == old(s).current_tag,
            s.context_started_ms == old(s).context_started_ms,
        decreases ts.len() - i,
    {
        if i != keep && !s.tasks[i].done {
            s.tasks[i].status = Status::Parked;
        }
        i = i + 1;
    }
}

/// Points the batching context at the first of `tags`, from `now`; leaves it
/// as it is where there is no tag.
fn focus_on(s: &mut AppState, tags: &Vec<String>, now: i64)
    ensures
        final(s).tasks == old(s).tasks,
        final(s).next_id == old(s).next_id,
        tags@.len() > 0 ==> opt_str_view(final(s).current_tag) == Some(tags@[0]@)
            && final(s).context_started_ms == Some(now),
        tags@.len() == 0 ==> final(s).current_tag == old(s).current_tag
            && final(s).context_started_ms == old(s).context_started_ms,
{
    if tags.len() > 0 {
        s.current_tag = Some(tags[0].clone());
        s.context_started_ms = Some(now);
    }
}

/// Adds a new active task touched at `now` with the next identifier, parks
/// every other task that is not done, and focuses the batching context on
/// the new task's first tag.
pub fn add_task(
    s: &mut AppState,
    now: i64,
    title: String,
    notes: Option<String>,
    tags: Option<Vec<String>>,
    due_ts: Option<i64>,
    est_min: Option<u32>,
) -> (r: Task)
    requires
        old(s).next_id < u64::MAX,
    ensures
        r.id == old(s).next_id + 1,
        r@.title == title@,
        r@.notes == opt_str_view(notes),
        !r.done,
        r@.tags == match tags {
            Some(v) => tags_view(v@),
            None => Seq::<Seq<char>>::empty(),
        },
        r.due_ts == due_ts,
        r.est_min == est_min,
        r.last_touched_ms == now,
        r.status == Status::Active,
        final(s).next_id == r.id,
        final(s).tasks@.len() == old(s).tasks@.len() + 1,
        forall|k: int|
            0 <= k < old(s).tasks@.len() ==> #[trigger] final(s).tasks@[k] == park_one(
                old(s).tasks@[k],
            ),
        final(s).tasks@[old(s).tasks@.len() as int]@ == r@,
        r@.tags.len() > 0 ==> crate::score::ctx_tag(final(s)) == Some(r@.tags[0])
            && final(s).context_started_ms == Some(now),
        r@.tags.len() == 0 ==> final(s).current_tag == old(s).current_tag
            && final(s).context_started_ms == old(s).context_started_ms,
        single_active(final(s).tasks@),
{
    let len = s.tasks.len();
    park_pending(s, len);
    let tags = match tags {
        Some(v) => v,
        None => Vec::new(),
    };
    s.next_id = s.next_id + 1;
    focus_on(s, &tags, now);
    let task = Task {
        id: s.next_id,
        title,
        notes,
        done: false,
        tags,
        due_ts,
        est_min,
        last_touched_ms: now,
        status: Status::Active,
    };
    let r = task.duplicate();
    s.tasks.push(task);
    proof {
        let ts = s.tasks@;
        assert forall|i: int, j: int|
            0 <= i < ts.len() && 0 <= j < ts.len() && !ts[i].done && ts[i].status == Status::Active
                && !ts[j].done && ts[j].status == Status::Active implies i == j by {
            if i < len {
                assert(ts[i] == park_one(old(s).tasks@[i]));
            }
            if j < len {
                assert(ts[j] == park_one(old(s).tasks@[j]));
            }
        }
    }
    r
}

/// Removes every task with identifier `id`; true where one was there.
pub fn remove_task(s: &mut AppState, id: u64) -> (r: bool)
    ensures
        final(s).tasks@ == old(s).tasks@.filter(|t: Task| t.id != id),
        r == has_id(old(s).tasks@, id),
        final(s).next_id == old(s).next_id,
        final(s).current_tag == old(s).current_tag,
        final(s).context_started_ms == old(s).context_started_ms,
{
    let ghost ts = s.tasks@;
    let ghost keep = |t: Task| t.id != id;
    let mut found = false;
    let mut i: usize = 0;
    let ghost mut j: int = 0;
    while i < s.tasks.len()
        invariant
            0 <= j <= ts.len(),
            0 <= i <= s.tasks@.len(),
            keep == (|t: Task| t.id != id),
            i == ts.subrange(0, j).filter(keep).len(),
            s.tasks@ == ts.subrange(0, j).filter(keep) + ts.subrange(j, ts.len() as int),
            found == exists|k: int| 0 <= k < j && ts[k].id == id,
            s.next_id == old(s).next_id,
            s.current_tag == old(s).current_tag,
            s.context_started_ms == old(s).context_started_ms,
        decreases s.tasks@.len() - i,
    {
        let ghost pre = ts.subrange(0, j).filter(keep);
        proof {
            reveal(Seq::filter);
            assert(ts.subrange(0, j + 1).drop_last() =~= ts.subrange(0, j));
            assert(s.tasks@[i as int] == ts[j]);
        }
        if s.tasks[i].id == id {
            s.tasks.remove(i);
            found = true;
            proof {
                assert(ts.subrange(0, j + 1).filter(keep) == pre);
                assert(s.tasks@ =~= pre + ts.subrange(j + 1, ts.len() as int));
            }
        } else {
            proof {
                assert(ts.subrange(0, j + 1).filter(keep) == pre.push(ts[j]));
                assert(s.tasks@ =~= pre.push(ts[j]) + ts.subrange(j + 1, ts.len() as int));
            }
            i = i + 1;
        }
        proof {
            j = j + 1;
        }
    }
    proof {
        assert(ts.subrange(0, j) =~= ts);
    }
    found
}

/// Flips the done flag of the first task with identifier `id` and marks it
/// touched at `now`; none where no task has that identifier.
pub fn toggle_task(s: &mut AppState, now: i64, id: u64) -> (r: Option<Task>)
    ensures
        r.is_none() <==> !has_id(old(s).tasks@, id),
        r.is_none() ==> *final(s) == *old(s),
        r matches Some(t) ==> exists|i: int|
            first_with_id(old(s).tasks@, id, i) && final(s).tasks@ == old(s).tasks@.update(
                i,
                Task { done: !old(s).tasks@[i].done, last_touched_ms: now, ..old(s).tasks@[i] },
            ) && t@ == final(s).tasks@[i]@,
        final(s).next_id == old(s).next_id,
        final(s).current_tag == old(s).current_tag,
        final(s).context_started_ms == old(s).context_started_ms,
{
    match find_index(&s.tasks, id) {
        Some(i) => {
            s.tasks[i].done = !s.tasks[i].done;
            s.tasks[i].last_touched_ms = now;
            Some(s.tasks[i].duplicate())
        },
        None => None,
    }
}

proof fn lemma_single_after_status(ts: Seq<Task>, fs: Seq<Task>, i: int, status: Status)
    requires
        0 <= i < ts.len(),
        fs.len() == ts.len(),
        fs[i].status == status,
        forall|k: int|
            0 <= k < ts.len() && k != i ==> #[trigger] fs[k] == if status == Status::Active {
                park_one(ts[k])
            } else {
                ts[k]
            },
    ensures
        status == Status::Active ==> single_active(fs),
        single_active(ts) ==> single_active(fs),
{
    assert forall|a: int, b: int|
        0 <= a < fs.len() && 0 <= b < fs.len() && !fs[a].done && fs[a].status == Status::Active
            && !fs[b].done && fs[b].status == Status::Active && (status == Status::Active
            || single_active(ts)) implies a == b by {
        if a != i {
            assert(fs[a] == if status == Status::Active { park_one(ts[a]) } else { ts[a] });
        }
        if b != i {
            assert(fs[b] == if status == Status::Active { park_one(ts[b]) } else { ts[b] });
        }
    }
}

/// Sets the status of the first task with identifier `id` and marks it
/// touched at `now`. Making it active parks every other task that is not
/// done and focuses the batching context on its first tag. None where no
/// task has that identifier.
#[verifier::rlimit(40)]
pub fn set_task_status(s: &mut AppState, now: i64, id: u64, status: Status) -> (r: Option<Task>)
    ensures
        r.is_none() <==> !has_id(old(s).tasks@, id),
        r.is_none() ==> *final(s) == *old(s),
        r matches Some(t) ==> exists|i: int|
            {
                &&& first_with_id(old(s).tasks@, id, i)
                &&& final(s).tasks@.len() == old(s).tasks@.len()
                &&& final(s).tasks@[i] == (Task {
                    status,
                    last_touched_ms: now,
                    ..old(s).tasks@[i]
                })
                &&& forall|k: int|
                    0 <= k < old(s).tasks@.len() && k != i ==> #[trigger] final(s).tasks@[k]
                        == if status == Status::Active {
                        park_one(old(s).tasks@[k])
                    } else {
                        old(s).tasks@[k]
                    }
                &&& t@ == final(s).tasks@[i]@
                &&& if status == Status::Active && old(s).tasks@[i]@.tags.len() > 0 {
                    crate::score::ctx_tag(final(s)) == Some(old(s).tasks@[i]@.tags[0])
                        && final(s).context_started_ms == Some(now)
                } else {
                    final(s).current_tag == old(s).current_tag
                        && final(s).context_started_ms == old(s).context_started_ms
                }
            },
        final(s).next_id == old(s).next_id,
        status == Status::Active && r.is_some() ==> single_active(final(s).tasks@),
        single_active(old(s).tasks@) ==> single_active(final(s).tasks@),
{
    let i = match find_index(&s.tasks, id) {
        Some(i) => i,
        None => {
            return None;
        },
    };
    let ghost ts = s.tasks@;
    if status == Status::Active {
        park_pending(s, i);
        let tags = s.tasks[i].tags.clone();
        proof {
            assert(tags_view(tags@) =~= tags_view(s.tasks@[i as int].tags@));
        }
        focus_on(s, &tags, now);
    }
    s.tasks[i].status = status;
    s.tasks[i].last_touched_ms = now;
    proof {
        lemma_single_after_status(ts, s.tasks@, i as int, status);
    }
    Some(s.tasks[i].duplicate())
}

/// Marks the first task with identifier `id` soft-deleted, touched at `now`;
/// none where no task has that identifier.
pub fn soft_delete_task(s: &mut AppState, now: i64, id: u64) -> (r: Option<Task>)
    ensures
        r.is_none() <==> !has_id(old(s).tasks@, id),
        r.is_none() ==> *final(s) == *old(s),
        r matches Some(t) ==> exists|i: int|
            first_with_id(old(s).tasks@, id, i) && final(s).tasks@ == old(s).tasks@.update(
                i,
                Task { status: Status::Deleted, last_touched_ms: now, ..old(s).tasks@[i] },
            ) && t@ == final(s).tasks@[i]@,
        final(s).next_id == old(s).next_id,
        final(s).current_tag == old(s).current_tag,
        final(s).context_started_ms == old(s).context_started_ms,
{
    match find_index(&s.tasks, id) {
        Some(i) => {
            s.tasks[i].status = Status::Deleted;
            s.tasks[i].last_touched_ms = now;
            Some(s.tasks[i].duplicate())
        },
        None => None,
    }
}

/// `after` is `before` once the archive sweep has run (at some clock reading,
/// on some local day) and then the purge at some time from the epoch on.
pub open spec fn swept(before: Seq<Task>, after: Seq<Task>) -> bool {
    exists|mid: Seq<Task>, count: nat, now: i64, today: i32, days: Seq<Option<i32>>, later: i64|
        #![trigger archive_sweep(before, mid, count, now, today, days), purged(mid, later)]
        archive_sweep(before, mid, count, now, today, days) && later >= 0 && after == purged(
            mid,
            later,
        )
}

/// Runs both sweeps.
fn sweep_all(s: &mut AppState)
    ensures
        swept(old(s).tasks@, final(s).tasks@),
        final(s).next_id == old(s).next_id,
        final(s).current_tag == old(s).current_tag,
        final(s).context_started_ms == old(s).context_started_ms,
{
    let ghost before = s.tasks@;
    let archived = sweep_archive_for_today(s);
    let ghost mid = s.tasks@;
    sweep_hard_delete(s);
    proof {
        let (now, today, days) = choose|now: i64, today: i32, days: Seq<Option<i32>>|
            #[trigger] archive_sweep(before, mid, archived as nat, now, today, days);
        let later = choose|later: i64| later >= 0 && s.tasks@ == purged(mid, later);
        assert(archive_sweep(before, mid, archived as nat, now, today, days) && later >= 0
            && s.tasks@ == purged(mid, later));
    }
}

/// Sweeps, then returns a copy of every task.
pub fn list_tasks(s: &mut AppState) -> (r: Vec<Task>)
    ensures
        swept(old(s).tasks@, final(s).tasks@),
        tasks_view(r@) == tasks_view(final(s).tasks@),
        final(s).next_id == old(s).next_id,
        final(s).current_tag == old(s).current_tag,
        final(s).context_started_ms == old(s).context_started_ms,
{
    sweep_all(s);
    copy_tasks(&s.tasks)
}

/// Sweeps, then recommends the best next task at the current time: never a
/// done, blocked or archived one; none only where no task is eligible.
pub fn recommend_next(s: &mut AppState) -> (r: Option<Recommendation>)
    ensures
        swept(old(s).tasks@, final(s).tasks@),
        r.is_none() <==> forall|j: int|
            0 <= j < final(s).tasks@.len() ==> !eligible_next(#[trigger] final(s).tasks@[j]@),
        r matches Some(rec) ==> !rec.task.done && rec.task.status != Status::Blocked
            && rec.task.status != Status::Archived && exists|now: i64|
            now >= 0 && best_next(now, final(s), rec),
        final(s).next_id == old(s).next_id,
        final(s).current_tag == old(s).current_tag,
        final(s).context_started_ms == old(s).context_started_ms,
{
    let now = now_ms();
    sweep_all(s);
    compute_recommendation(now, s)
}

/// Sweeps, then lists every task but the archived ones in listing order at
/// the current time: done tasks after all pending ones.
pub fn list_tasks_sorted(s: &mut AppState) -> (r: Vec<Task>)
    ensures
        swept(old(s).tasks@, final(s).tasks@),
        exists|now: i64, p: Seq<int>| now >= 0 && arranged(now, final(s), true, tasks_view(r@), p),
        forall|k: int| 0 <= k < r@.len() ==> (#[trigger] r@[k]).status != Status::Archived,
        forall|a: int, b: int| 0 <= a < b < r@.len() && r@[a].done ==> r@[b].done,
        final(s).next_id == old(s).next_id,
        final(s).current_tag == old(s).current_tag,
        final(s).context_started_ms == old(s).context_started_ms,
{
    let now = now_ms();
    sweep_all(s);
    compute_sorted_tasks(now, s)
}

/// Runs the archive sweep alone; returns how many tasks it archived.
pub fn sweep_archive(s: &mut AppState) -> (r: usize)
    ensures
        exists|now: i64, today: i32, days: Seq<Option<i32>>|
            #[trigger] archive_sweep(old(s).tasks@, final(s).tasks@, r as nat, now, today, days),
        final(s).next_id == old(s).next_id,
        final(s).current_tag == old(s).current_tag,
        final(s).context_started_ms == old(s).context_started_ms,
{
    sweep_archive_for_today(s)
}

/// Sweeps, then scores every task but the archived ones at the current time,
/// by descending score.
pub fn list_tasks_scored(s: &mut AppState) -> (r: Vec<Recommendation>)
    ensures
        swept(old(s).tasks@, final(s).tasks@),
        exists|now: i64, p: Seq<int>| now >= 0 && scored_listing(now, final(s), r@, p),
        final(s).next_id == old(s).next_id,
        final(s).current_tag == old(s).current_tag,
        final(s).context_started_ms == old(s).context_started_ms,
{
    let now = now_ms();
    sweep_all(s);
    compute_scored_tasks(now, s)
}

} // verus!
