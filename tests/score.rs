use focus_tasks::score::{score_task, DONE_SCORE};
use focus_tasks::types::{AppState, Status, Task};

const HOUR: i64 = 3_600_000;

fn task(tags: &[&str], done: bool, last_touched_ms: i64) -> Task {
    Task {
        id: 1,
        title: "t".to_string(),
        notes: None,
        done,
        tags: tags.iter().map(|s| s.to_string()).collect(),
        due_ts: None,
        est_min: None,
        last_touched_ms,
        status: Status::Parked,
    }
}

#[test]
fn idle_four_hours_without_context_scores_nine() {
    let now = 1_700_000_000_000;
    let state = AppState::default();
    let r = score_task(now, &state, &task(&[], false, now - 4 * HOUR));
    assert_eq!(r.breakdown.aging, 3);
    assert_eq!(r.breakdown.batch_bonus, 0);
    assert_eq!(r.score, 9);
    assert_eq!(r.task.id, 1);
}

#[test]
fn batching_tag_within_the_hour_scores_ten() {
    let now = 1_700_000_000_000;
    let mut state = AppState::default();
    state.current_tag = Some("work".to_string());
    state.context_started_ms = Some(now - 10 * 60_000);
    let r = score_task(now, &state, &task(&["work", "urgent"], false, now - 2 * HOUR));
    assert_eq!(r.breakdown.aging, 2);
    assert_eq!(r.breakdown.batch_bonus, 2);
    assert_eq!(r.score, 10);
}

#[test]
fn batching_context_expires_after_an_hour() {
    let now = 1_700_000_000_000;
    let mut state = AppState::default();
    state.current_tag = Some("work".to_string());
    state.context_started_ms = Some(now - HOUR);
    let r = score_task(now, &state, &task(&["work"], false, now));
    assert_eq!(r.breakdown.batch_bonus, 0);
    assert_eq!(r.score, 0);
    state.context_started_ms = Some(now - HOUR + 1);
    let r = score_task(now, &state, &task(&["other", "work"], false, now));
    assert_eq!(r.score, 4);
    let r = score_task(now, &state, &task(&["wor"], false, now));
    assert_eq!(r.score, 0);
}

#[test]
fn aging_steps_at_thresholds() {
    let now = 1_700_000_000_000;
    let state = AppState::default();
    let expect = [
        (30 * 60_000 - 1, 0),
        (30 * 60_000, 1),
        (HOUR - 1, 1),
        (HOUR, 2),
        (3 * HOUR - 1, 2),
        (3 * HOUR, 3),
    ];
    for (idle, aging) in expect {
        let r = score_task(now, &state, &task(&[], false, now - idle));
        assert_eq!(r.breakdown.aging, aging);
        assert_eq!(r.score, 3 * aging);
    }
    let r = score_task(i64::MAX, &state, &task(&[], false, i64::MIN));
    assert_eq!(r.breakdown.aging, 3);
}

#[test]
fn done_task_scores_below_pending() {
    let now = 1_700_000_000_000;
    let mut state = AppState::default();
    state.current_tag = Some("work".to_string());
    state.context_started_ms = Some(now);
    let done = score_task(now, &state, &task(&["work"], true, now - 5 * HOUR));
    let fresh = score_task(now, &state, &task(&[], false, now));
    assert_eq!(done.score, DONE_SCORE);
    assert_eq!(done.score, i32::MIN / 2);
    assert_eq!(done.breakdown.aging, 0);
    assert_eq!(done.breakdown.batch_bonus, 0);
    assert_eq!(fresh.score, 0);
    assert!(done.score < fresh.score);
}
