//! What a session does to the store when it is saved and restored: the
//! encoding to and from storage belongs to the program around the library.
use vstd::prelude::*;
use crate::types::{AppState, Status, Task, tasks_view, copy_tasks};
use crate::housekeeping::{sweep_archive_for_today, archive_sweep};

verus! {

/// A task as it is saved: a pending active task is parked.
pub open spec fn export_one(t: Task) -> Task {
    if !t.done && t.status == Status::Active {
        Task { status: Status::Parked, ..t }
    } else {
        t
    }
}

/// The tasks as they are saved.
pub open spec fn exported_seq(ts: Seq<Task>) -> Seq<Task> {
    Seq::new(ts.len(), |i: int| export_one(ts[i]))
}

/// The largest identifier among the tasks, or 0 where there are none.
pub open spec fn max_id_of(ts: Seq<Task>) -> u64
    decreases ts.len(),
{
    if ts.len() == 0 {
        0
    } else {
        let m = max_id_of(ts.drop_last());
        if ts.last().id > m {
            ts.last().id
        } else {
            m
        }
    }
}

/// The tasks a state holds once `incoming` was restored into it: the
/// incoming ones, unless there are none.
pub open spec fn restored_tasks(current: Seq<Task>, incoming: Seq<Task>) -> Seq<Task> {
    if incoming.len() > 0 {
        incoming
    } else {
        current
    }
}

/// Parks every pending active task and clears the batching context, so that
/// a restored session starts with no focus.
pub fn park_for_export(s: &mut AppState)
    ensures
        final(s).tasks@ == exported_seq(old(s).tasks@),
        final(s).current_tag.is_none(),
        final(s).context_started_ms.is_none(),
        final(s).next_id == old(s).next_id,
{
    let ghost ts = s.tasks@;
    let mut i: usize = 0;
    while i < s.tasks.len()
        invariant
            0 <= i <= s.tasks@.len(),
            s.tasks@.len() == ts.len(),
            forall|k: int| 0 <= k < i ==> s.tasks@[k] == export_one(ts[k]),
            forall|k: int| i <= k < ts.len() ==> s.tasks@[k] == ts[k],
            s.next_id == old(s).next_id,
        decreases ts.len() - i,
    {
        if !s.tasks[i].done && s.tasks[i].status == Status::Active {
            s.tasks[i].status = Status::Parked;
        }
        i = i + 1;
    }
    s.current_tag = None;
    s.context_started_ms = None;
    proof {
        assert(s.tasks@ =~= exported_seq(ts));
    }
}

/// Prepares the state to be saved: runs the archive sweep, parks pending
/// active tasks and clears the batching context. Returns a copy of the tasks
/// to save.
pub fn export_tasks(s: &mut AppState) -> (r: Vec<Task>)
    ensures
        exists|mid: Seq<Task>, count: nat, now: i64, today: i32, days: Seq<Option<i32>>|
            #[trigger] archive_sweep(old(s).tasks@, mid, count, now, today, days) && final(s).tasks@
                == exported_seq(mid),
        tasks_view(r@) == tasks_view(final(s).tasks@),
        final(s).current_tag.is_none(),
        final(s).context_started_ms.is_none(),
        final(s).next_id == old(s).next_id,
{
    let ghost before = s.tasks@;
    let archived = sweep_archive_for_today(s);
    let ghost mid = s.tasks@;
    park_for_export(s);
    proof {
        let (now, today, days) = choose|now: i64, today: i32, days: Seq<Option<i32>>|
            #[trigger] archive_sweep(before, mid, archived as nat, now, today, days);
        assert(archive_sweep(before, mid, archived as nat, now, today, days));
    }
    copy_tasks(&s.tasks)
}

fn max_id(ts: &Vec<Task>) -> (r: u64)
    ensures
        r == max_id_of(ts@),
{
    let mut m: u64 = 0;
    let mut k: usize = 0;
    while k < ts.len()
        invariant
            0 <= k <= ts@.len(),
            m == max_id_of(ts@.subrange(0, k as int)),
        decreases ts@.len() - k,
    {
        proof {
            assert(ts@.subrange(0, k + 1).drop_last() =~= ts@.subrange(0, k as int));
        }
        if ts[k].id > m {
            m = ts[k].id;
        }
        k = k + 1;
    }
    proof {
        assert(ts@.subrange(0, k as int) =~= ts@);
    }
    m
}

/// Restores saved tasks: where there are any, they replace the store's
/// tasks and identifiers continue after the largest of theirs. The batching
/// context is not restored.
pub fn import_tasks(s: &mut AppState, tasks: Vec<Task>)
    ensures
        final(s).tasks@ == restored_tasks(old(s).tasks@, tasks@),
        final(s).next_id == if tasks@.len() > 0 {
            max_id_of(tasks@)
        } else {
            old(s).next_id
        },
        final(s).current_tag == old(s).current_tag,
        final(s).context_started_ms == old(s).context_started_ms,
{
    if tasks.len() > 0 {
        let m = max_id(&tasks);
        s.tasks = tasks;
        s.next_id = m;
    }
}

/// Saving a set of tasks and restoring it into a fresh store gives back the
/// same tasks, field for field, except that each pending active task comes
/// back parked.
pub proof fn lemma_export_import_round_trip(ts: Seq<Task>)
    ensures
        restored_tasks(Seq::empty(), exported_seq(ts)).len() == ts.len(),
        forall|i: int|
            0 <= i < ts.len() ==> #[trigger] restored_tasks(Seq::empty(), exported_seq(ts))[i]
                == if !ts[i].done && ts[i].status == Status::Active {
                Task { status: Status::Parked, ..ts[i] }
            } else {
                ts[i]
            },
{
}

} // verus!
