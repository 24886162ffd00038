//! The housekeeping sweeps: archiving tasks done before the current local
//! day, and purging tasks soft-deleted for thirty days or more.
use vstd::prelude::*;
use crate::types::{AppState, Status, Task, DAY_MS, now_ms, clock_ms};

verus! {

/// How long a soft-deleted task is kept.
pub const PURGE_AFTER_MS: i64 = 30 * DAY_MS;

/// Whether a task is archived by a sweep on local day `today`, where `day`
/// is the local day of its last touch (none where that has no date).
pub open spec fn archive_due(t: Task, today: i32, day: Option<i32>) -> bool {
    t.done && t.status != Status::Archived && match day {
        Some(d) => d < today,
        None => false,
    }
}

/// A task after the archive sweep.
pub open spec fn archive_one(t: Task, today: i32, day: Option<i32>) -> Task {
    if archive_due(t, today, day) {
        Task { status: Status::Archived, ..t }
    } else {
        t
    }
}

/// The tasks after the archive sweep, `days` giving the local day of each.
pub open spec fn archived_seq(ts: Seq<Task>, today: i32, days: Seq<Option<i32>>) -> Seq<Task> {
    Seq::new(ts.len(), |i: int| archive_one(ts[i], today, days[i]))
}

/// How many of the tasks the archive sweep archives.
pub open spec fn archive_count(ts: Seq<Task>, today: i32, days: Seq<Option<i32>>) -> nat
    decreases ts.len(),
{
    if ts.len() == 0 || days.len() == 0 {
        0
    } else {
        archive_count(ts.drop_last(), today, days.drop_last()) + if archive_due(
            ts.last(),
            today,
            days.last(),
        ) {
            1nat
        } else {
            0nat
        }
    }
}

/// Whether a task is purged at time `now`: soft-deleted, and last touched
/// thirty days or more before `now`.
pub open spec fn expired(now: i64, t: Task) -> bool {
    t.status == Status::Deleted && now - t.last_touched_ms >= PURGE_AFTER_MS
}

/// The tasks that the purge at time `now` keeps.
pub open spec fn purged(ts: Seq<Task>, now: i64) -> Seq<Task> {
    ts.filter(|t: Task| !expired(now, t))
}

proof fn lemma_archive_count_none(ts: Seq<Task>, today: i32, days: Seq<Option<i32>>)
    requires
        days.len() == ts.len(),
        forall|i: int| 0 <= i < ts.len() ==> !archive_due(ts[i], today, days[i]),
    ensures
        archive_count(ts, today, days) == 0,
    decreases ts.len(),
{
    if ts.len() > 0 {
        assert(!archive_due(ts[ts.len() - 1], today, days[days.len() - 1]));
        lemma_archive_count_none(ts.drop_last(), today, days.drop_last());
    }
}

/// Running the archive sweep a second time right after the first, on the
/// same local day, changes nothing and archives no task.
pub proof fn lemma_archive_idempotent(ts: Seq<Task>, today: i32, days: Seq<Option<i32>>)
    requires
        days.len() == ts.len(),
    ensures
        archived_seq(archived_seq(ts, today, days), today, days) == archived_seq(ts, today, days),
        archive_count(archived_seq(ts, today, days), today, days) == 0,
{
    let once = archived_seq(ts, today, days);
    assert(archived_seq(once, today, days) =~= once);
    lemma_archive_count_none(once, today, days);
}

/// The widest span, either side of the epoch, of instants whose local day is
/// computed: chrono's dates reach about 262,000 years either side of year 0,
/// and this keeps every such instant, in every time zone, thousands of
/// years inside that range.
pub const DAY_RANGE_MS: i64 = 8_000_000_000_000_000;

/// Whether the local day of `ms` is computed.
pub open spec fn in_day_range(ms: i64) -> bool {
    -DAY_RANGE_MS <= ms <= DAY_RANGE_MS
}

/// The day number (from January 1 of year 1, which is day 1) of the UTC day
/// of the epoch.
pub const EPOCH_DAY: i64 = 719_163;

/// Relies on chrono's `DateTime::from_timestamp_millis`, `with_timezone`,
/// `date_naive` and `Datelike::num_days_from_ce`: the day, in the host's time
/// zone, of a time in milliseconds since the epoch. chrono gives a date for
/// every instant in its range, and a local offset is under a day, so the local
/// day is the UTC day or one of its neighbours.
#[verifier::external_body]
fn local_day_of(ms: i64) -> (r: Option<i32>)
    requires
        in_day_range(ms),
    ensures
        r.is_some(),
        ms / DAY_MS + EPOCH_DAY - 1 <= r.unwrap(),
        r.unwrap() <= ms / DAY_MS + EPOCH_DAY + 1,
{
    match chrono::DateTime::<chrono::Utc>::from_timestamp_millis(ms) {
        Some(d) => Some(chrono::Datelike::num_days_from_ce(&d.with_timezone(&chrono::Local).date_naive())),
        None => None,
    }
}

/// Whether a sweep at time `now` is sure to archive `t`: it is done, and it
/// was last touched three days or more before `now`.
pub open spec fn surely_stale(now: i64, t: Task) -> bool {
    t.done && in_day_range(now) && in_day_range(t.last_touched_ms) && t.last_touched_ms <= now - 3
        * DAY_MS
}

/// Archives each done task whose last touch fell on a day before `today`;
/// `days[i]` is the local day of the last touch of task `i`. Returns how
/// many were archived.
pub fn archive_before(s: &mut AppState, today: i32, days: &Vec<Option<i32>>) -> (r: usize)
    requires
        days@.len() == old(s).tasks@.len(),
    ensures
        final(s).tasks@ == archived_seq(old(s).tasks@, today, days@),
        r as nat == archive_count(old(s).tasks@, today, days@),
        final(s).next_id == old(s).next_id,
        final(s).current_tag == old(s).current_tag,
        final(s).context_started_ms == old(s).context_started_ms,
{
    let ghost ts = s.tasks@;
    let mut count: usize = 0;
    let mut i: usize = 0;
    while i < s.tasks.len()
        invariant
            0 <= i <= s.tasks@.len(),
            s.tasks@.len() == ts.len(),
            days@.len() == ts.len(),
            forall|k: int| 0 <= k < i ==> s.tasks@[k] == archive_one(ts[k], today, days@[k]),
            forall|k: int| i <= k < ts.len() ==> s.tasks@[k] == ts[k],
            count as nat == archive_count(ts.subrange(0, i as int), today, days@.subrange(0, i as int)),
            count <= i,
            s.next_id == old(s).next_id,
            s.current_tag == old(s).current_tag,
            s.context_started_ms == old(s).context_started_ms,
        decreases ts.len() - i,
    {
        proof {
            assert(ts.subrange(0, i + 1).drop_last() =~= ts.subrange(0, i as int));
            assert(days@.subrange(0, i + 1).drop_last() =~= days@.subrange(0, i as int));
        }
        let due = match days[i] {
            Some(d) => s.tasks[i].done && s.tasks[i].status != Status::Archived && d < today,
            None => false,
        };
        if due {
            s.tasks[i].status = Status::Archived;
            count = count + 1;
        }
        i = i + 1;
    }
    proof {
        assert(ts.subrange(0, i as int) =~= ts);
        assert(days@.subrange(0, i as int) =~= days@);
        assert(s.tasks@ =~= archived_seq(ts, today, days@));
    }
    count
}

/// `after` and `count` are what the archive sweep at clock reading `now`
/// gives from `before`, on local day `today` with `days` the local days of
/// the tasks' last touches; every task surely stale at `now` is archived.
pub open spec fn archive_sweep(
    before: Seq<Task>,
    after: Seq<Task>,
    count: nat,
    now: i64,
    today: i32,
    days: Seq<Option<i32>>,
) -> bool {
    &&& now >= 0
    &&& days.len() == before.len()
    &&& after == archived_seq(before, today, days)
    &&& count == archive_count(before, today, days)
    &&& forall|i: int|
        0 <= i < before.len() && surely_stale(now, #[trigger] before[i]) ==> after[i].status
            == Status::Archived
}

/// Archives each done task last touched before the current local day.
/// Returns how many were archived. A task last touched three days or more
/// before the clock reading is surely archived.
pub fn sweep_archive_for_today(s: &mut AppState) -> (r: usize)
    ensures
        exists|now: i64, today: i32, days: Seq<Option<i32>>|
            #[trigger] archive_sweep(old(s).tasks@, final(s).tasks@, r as nat, now, today, days),
        final(s).next_id == old(s).next_id,
        final(s).current_tag == old(s).current_tag,
        final(s).context_started_ms == old(s).context_started_ms,
{
    let now = now_ms();
    // Where the clock has no local day, no day lies before today and
    // nothing is archived.
    let today: i32 = if now <= DAY_RANGE_MS {
        match local_day_of(now) {
            Some(d) => d,
            None => i32::MIN,
        }
    } else {
        i32::MIN
    };
    let mut days: Vec<Option<i32>> = Vec::new();
    let mut i: usize = 0;
    while i < s.tasks.len()
        invariant
            0 <= i <= s.tasks@.len(),
            days@.len() == i,
            forall|k: int|
                0 <= k < i && in_day_range(#[trigger] s.tasks@[k].last_touched_ms) ==> days@[k].is_some()
                    && days@[k].unwrap() <= s.tasks@[k].last_touched_ms / DAY_MS + EPOCH_DAY + 1,
        decreases s.tasks@.len() - i,
    {
        let t = s.tasks[i].last_touched_ms;
        let day = if -DAY_RANGE_MS <= t && t <= DAY_RANGE_MS {
            local_day_of(t)
        } else {
            None
        };
        days.push(day);
        i = i + 1;
    }
    let ghost ts = s.tasks@;
    let ghost dv = days@;
    proof {
        assert forall|k: int| 0 <= k < ts.len() && surely_stale(now, #[trigger] ts[k]) implies dv[k].is_some()
            && dv[k].unwrap() < today by {
            let t = ts[k].last_touched_ms as int;
            let dd = DAY_MS as int;
            vstd::arithmetic::div_mod::lemma_div_is_ordered(t, now - 3 * dd, dd);
            vstd::arithmetic::div_mod::lemma_hoist_over_denominator(now - 3 * dd, 3, dd as nat);
        }
    }
    let r = archive_before(s, today, &days);
    proof {
        assert forall|i: int| 0 <= i < ts.len() && surely_stale(now, #[trigger] ts[i]) implies s.tasks@[i].status
            == Status::Archived by {
            assert(s.tasks@[i] == archive_one(ts[i], today, dv[i]));
        }
        assert(archive_sweep(ts, s.tasks@, r as nat, now, today, dv));
    }
    r
}

/// Removes every task soft-deleted at least thirty days before `now`,
/// keeping the others in order. Returns how many were removed.
pub fn purge_expired(s: &mut AppState, now: i64) -> (r: usize)
    ensures
        final(s).tasks@ == purged(old(s).tasks@, now),
        r == old(s).tasks@.len() - final(s).tasks@.len(),
        final(s).next_id == old(s).next_id,
        final(s).current_tag == old(s).current_tag,
        final(s).context_started_ms == old(s).context_started_ms,
{
    let ghost ts = s.tasks@;
    let ghost keep = |t: Task| !expired(now, t);
    let before = s.tasks.len();
    let mut i: usize = 0;
    let ghost mut j: int = 0;
    while i < s.tasks.len()
        invariant
            0 <= j <= ts.len(),
            before == ts.len(),
            0 <= i <= s.tasks@.len(),
            keep == (|t: Task| !expired(now, t)),
            i == ts.subrange(0, j).filter(keep).len(),
            s.tasks@ == ts.subrange(0, j).filter(keep) + ts.subrange(j, ts.len() as int),
            s.next_id == old(s).next_id,
            s.current_tag == old(s).current_tag,
            s.context_started_ms == old(s).context_started_ms,
        decreases s.tasks@.len() - i,
    {
        let ghost pre = ts.subrange(0, j).filter(keep);
        proof {
            reveal(Seq::filter);
            assert(ts.subrange(0, j + 1).drop_last() =~= ts.subrange(0, j));
            assert(s.tasks@[i as int] == ts[j]);
        }
        let t = &s.tasks[i];
        let gone = t.status == Status::Deleted && (now as i128) - (t.last_touched_ms as i128)
            >= PURGE_AFTER_MS as i128;
        if gone {
            s.tasks.remove(i);
            proof {
                assert(ts.subrange(0, j + 1).filter(keep) == pre);
                assert(s.tasks@ =~= pre + ts.subrange(j + 1, ts.len() as int));
            }
        } else {
            proof {
                assert(ts.subrange(0, j + 1).filter(keep) == pre.push(ts[j]));
                assert(s.tasks@ =~= pre.push(ts[j]) + ts.subrange(j + 1, ts.len() as int));
            }
            i = i + 1;
        }
        proof {
            j = j + 1;
        }
    }
    proof {
        assert(j == ts.len());
        assert(ts.subrange(0, j) =~= ts);
        assert(s.tasks@ =~= purged(ts, now));
        ts.lemma_filter_len(keep);
    }
    before - s.tasks.len()
}

/// Removes every task soft-deleted at least thirty days before the current
/// time. Returns how many were removed.
pub fn sweep_hard_delete(s: &mut AppState) -> (r: usize)
    ensures
        exists|now: i64| now >= 0 && final(s).tasks@ == purged(old(s).tasks@, now),
        r == old(s).tasks@.len() - final(s).tasks@.len(),
        final(s).next_id == old(s).next_id,
        final(s).current_tag == old(s).current_tag,
        final(s).context_started_ms == old(s).context_started_ms,
{
    let now = now_ms();
    purge_expired(s, now)
}

} // verus!
