use focus_tasks::housekeeping::{archive_before, purge_expired, sweep_archive_for_today, sweep_hard_delete};
use focus_tasks::types::{clock_or_zero, now_ms, AppState, Status, Task};

const DAY: i64 = 86_400_000;

fn mk(id: u64, status: Status, done: bool, last_touched_ms: i64) -> Task {
    Task {
        id,
        title: format!("t{id}"),
        notes: None,
        done,
        tags: vec![],
        due_ts: None,
        est_min: None,
        last_touched_ms,
        status,
    }
}

#[test]
fn archive_takes_yesterday_and_leaves_today() {
    let today = 739_000;
    let mut s = AppState::default();
    // A done late yesterday, B done just after midnight today
    s.tasks = vec![mk(1, Status::Parked, true, 0), mk(2, Status::Parked, true, 1)];
    let days = vec![Some(today - 1), Some(today)];
    assert_eq!(archive_before(&mut s, today, &days), 1);
    assert_eq!(s.tasks[0].status, Status::Archived);
    assert_eq!(s.tasks[1].status, Status::Parked);
    assert!(s.tasks[1].done);
    // once the next local day begins, B goes too
    assert_eq!(archive_before(&mut s, today + 1, &days), 1);
    assert_eq!(s.tasks[1].status, Status::Archived);
}

#[test]
fn archive_skips_pending_and_undated_tasks() {
    let today = 739_000;
    let mut s = AppState::default();
    s.tasks = vec![
        mk(1, Status::Active, false, 0),
        mk(2, Status::Parked, true, 0),
        mk(3, Status::Archived, true, 0),
    ];
    let days = vec![Some(today - 5), None, Some(today - 5)];
    assert_eq!(archive_before(&mut s, today, &days), 0);
    assert_eq!(s.tasks[0].status, Status::Active);
    assert_eq!(s.tasks[1].status, Status::Parked);
}

#[test]
fn archive_sweep_twice_archives_nothing_more() {
    let today = 739_000;
    let mut s = AppState::default();
    s.tasks = vec![mk(1, Status::Parked, true, 0), mk(2, Status::Blocked, true, 0), mk(3, Status::Parked, true, 0)];
    let days = vec![Some(today - 1), Some(today - 2), Some(today)];
    assert_eq!(archive_before(&mut s, today, &days), 2);
    assert_eq!(archive_before(&mut s, today, &days), 0);
}

#[test]
fn archive_sweep_uses_local_days() {
    let now = now_ms();
    let mut s = AppState::default();
    s.tasks = vec![mk(1, Status::Parked, true, now - 3 * DAY), mk(2, Status::Parked, true, now)];
    assert_eq!(sweep_archive_for_today(&mut s), 1);
    assert_eq!(s.tasks[0].status, Status::Archived);
    assert_eq!(s.tasks[1].status, Status::Parked);
    assert_eq!(sweep_archive_for_today(&mut s), 0);
}

#[test]
fn purge_removes_after_thirty_days_only() {
    let now = 1_700_000_000_000;
    let mut s = AppState::default();
    s.tasks = vec![
        mk(1, Status::Deleted, false, now - 31 * DAY),
        mk(2, Status::Deleted, false, now - 29 * DAY),
        mk(3, Status::Parked, false, now - 40 * DAY),
        mk(4, Status::Deleted, true, now - 30 * DAY),
    ];
    assert_eq!(purge_expired(&mut s, now), 2);
    let ids: Vec<u64> = s.tasks.iter().map(|t| t.id).collect();
    assert_eq!(ids, vec![2, 3]);
}

#[test]
fn hard_delete_sweep_uses_the_clock() {
    let now = now_ms();
    let mut s = AppState::default();
    s.tasks = vec![mk(1, Status::Deleted, false, now - 31 * DAY), mk(2, Status::Deleted, false, now - 29 * DAY)];
    assert_eq!(sweep_hard_delete(&mut s), 1);
    assert_eq!(s.tasks.len(), 1);
    assert_eq!(s.tasks[0].id, 2);
}

#[test]
fn clock_reads_after_2020() {
    assert!(now_ms() > 1_577_836_800_000);
}

#[test]
fn clock_reading_converts_with_fallbacks() {
    assert_eq!(clock_or_zero(None), 0);
    assert_eq!(clock_or_zero(Some(1_700_000_000_123)), 1_700_000_000_123);
    assert_eq!(clock_or_zero(Some(u128::MAX)), i64::MAX);
    assert_eq!(clock_or_zero(Some(i64::MAX as u128 + 1)), i64::MAX);
}

#[test]
fn archive_sweep_skips_timestamps_without_a_local_day() {
    let now = now_ms();
    let mut s = AppState::default();
    s.tasks = vec![
        mk(1, Status::Parked, true, i64::MIN),
        mk(2, Status::Parked, true, i64::MAX),
        mk(3, Status::Parked, true, -8_000_000_000_000_001),
        mk(4, Status::Parked, true, -8_000_000_000_000_000),
        mk(5, Status::Parked, true, now - 2 * DAY),
    ];
    assert_eq!(sweep_archive_for_today(&mut s), 2);
    let statuses: Vec<Status> = s.tasks.iter().map(|t| t.status).collect();
    assert_eq!(
        statuses,
        vec![Status::Parked, Status::Parked, Status::Parked, Status::Archived, Status::Archived]
    );
}
