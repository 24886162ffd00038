use focus_tasks::commands::{
    add_task, list_tasks, list_tasks_scored, list_tasks_sorted, recommend_next, remove_task,
    set_task_status, soft_delete_task, sweep_archive, toggle_task,
};
use focus_tasks::persistence::{export_tasks, import_tasks, park_for_export};
use focus_tasks::types::{now_ms, AppState, Status};

fn active_pending(s: &AppState) -> usize {
    s.tasks.iter().filter(|t| !t.done && t.status == Status::Active).count()
}

#[test]
fn add_parks_others_and_sets_focus() {
    let mut s = AppState::default();
    let a = add_task(&mut s, 100, "a".to_string(), None, Some(vec!["work".to_string()]), None, None);
    assert_eq!(a.id, 1);
    assert_eq!(a.status, Status::Active);
    assert_eq!(s.current_tag.as_deref(), Some("work"));
    assert_eq!(s.context_started_ms, Some(100));
    set_task_status(&mut s, 150, 1, Status::Blocked);
    let b = add_task(&mut s, 200, "b".to_string(), Some("n".to_string()), None, Some(9), Some(15));
    assert_eq!(b.id, 2);
    assert_eq!(b.status, Status::Active);
    assert_eq!(b.notes.as_deref(), Some("n"));
    assert_eq!(b.due_ts, Some(9));
    assert_eq!(b.est_min, Some(15));
    assert_eq!(b.last_touched_ms, 200);
    assert_eq!(s.tasks[0].status, Status::Parked);
    assert_eq!(s.current_tag.as_deref(), Some("work"));
    assert_eq!(s.context_started_ms, Some(100));
    assert_eq!(active_pending(&s), 1);
    assert_eq!(s.next_id, 2);
}

#[test]
fn add_leaves_done_tasks_alone() {
    let mut s = AppState::default();
    add_task(&mut s, 100, "a".to_string(), None, None, None, None);
    toggle_task(&mut s, 110, 1);
    add_task(&mut s, 120, "b".to_string(), None, None, None, None);
    assert!(s.tasks[0].done);
    assert_eq!(s.tasks[0].status, Status::Active);
    assert_eq!(active_pending(&s), 1);
}

#[test]
fn set_status_active_keeps_a_single_active_task() {
    let mut s = AppState::default();
    add_task(&mut s, 1, "a".to_string(), None, Some(vec!["x".to_string()]), None, None);
    add_task(&mut s, 2, "b".to_string(), None, Some(vec!["y".to_string()]), None, None);
    add_task(&mut s, 3, "c".to_string(), None, None, None, None);
    set_task_status(&mut s, 4, 3, Status::Blocked);
    let t = set_task_status(&mut s, 5, 1, Status::Active).unwrap();
    assert_eq!(t.status, Status::Active);
    assert_eq!(t.last_touched_ms, 5);
    assert_eq!(s.tasks[2].status, Status::Parked);
    assert_eq!(active_pending(&s), 1);
    assert_eq!(s.current_tag.as_deref(), Some("x"));
    assert_eq!(s.context_started_ms, Some(5));
    assert!(set_task_status(&mut s, 6, 99, Status::Active).is_none());
    assert_eq!(active_pending(&s), 1);
}

#[test]
fn toggle_remove_and_soft_delete() {
    let mut s = AppState::default();
    add_task(&mut s, 1, "a".to_string(), None, None, None, None);
    add_task(&mut s, 2, "b".to_string(), None, None, None, None);
    let t = toggle_task(&mut s, 10, 1).unwrap();
    assert!(t.done);
    assert_eq!(t.last_touched_ms, 10);
    assert!(!toggle_task(&mut s, 11, 1).unwrap().done);
    assert!(toggle_task(&mut s, 12, 42).is_none());
    let d = soft_delete_task(&mut s, 13, 2).unwrap();
    assert_eq!(d.status, Status::Deleted);
    assert_eq!(d.last_touched_ms, 13);
    assert!(soft_delete_task(&mut s, 14, 42).is_none());
    assert!(remove_task(&mut s, 1));
    assert!(!remove_task(&mut s, 1));
    assert_eq!(s.tasks.len(), 1);
    assert_eq!(s.tasks[0].id, 2);
}

#[test]
fn views_sweep_before_reading() {
    let now = now_ms();
    let mut s = AppState::default();
    add_task(&mut s, now, "a".to_string(), None, None, None, None);
    add_task(&mut s, now, "b".to_string(), None, None, None, None);
    add_task(&mut s, now, "c".to_string(), None, None, None, None);
    soft_delete_task(&mut s, now - 31 * 86_400_000, 1);
    toggle_task(&mut s, now - 3 * 86_400_000, 2);
    let listed = list_tasks(&mut s);
    assert_eq!(listed.len(), 2);
    assert_eq!(listed[0].status, Status::Archived);
    let sorted = list_tasks_sorted(&mut s);
    assert_eq!(sorted.len(), 1);
    assert_eq!(sorted[0].id, 3);
    let scored = list_tasks_scored(&mut s);
    assert_eq!(scored.len(), 1);
    assert_eq!(recommend_next(&mut s).unwrap().task.id, 3);
    assert_eq!(sweep_archive(&mut s), 0);
}

#[test]
fn export_then_import_round_trips() {
    let now = now_ms();
    let mut s = AppState::default();
    add_task(&mut s, now, "a".to_string(), None, Some(vec!["x".to_string()]), None, None);
    add_task(&mut s, now, "b".to_string(), Some("note".to_string()), None, Some(7), Some(30));
    let saved = export_tasks(&mut s);
    assert!(s.current_tag.is_none());
    assert!(s.context_started_ms.is_none());
    let mut fresh = AppState::default();
    import_tasks(&mut fresh, saved);
    assert_eq!(fresh.next_id, 2);
    assert_eq!(fresh.tasks.len(), 2);
    assert_eq!(fresh.tasks[1].status, Status::Parked);
    assert_eq!(fresh.tasks[1].title, "b");
    assert_eq!(fresh.tasks[1].notes.as_deref(), Some("note"));
    assert_eq!(fresh.tasks[1].due_ts, Some(7));
    assert_eq!(fresh.tasks[1].est_min, Some(30));
    assert_eq!(fresh.tasks[0].tags, vec!["x".to_string()]);
    assert!(fresh.current_tag.is_none());
    let mut kept = AppState::default();
    add_task(&mut kept, now, "k".to_string(), None, None, None, None);
    import_tasks(&mut kept, Vec::new());
    assert_eq!(kept.tasks.len(), 1);
    assert_eq!(kept.next_id, 1);
}

#[test]
fn park_for_export_keeps_done_active_tasks() {
    let mut s = AppState::default();
    add_task(&mut s, 1, "a".to_string(), None, None, None, None);
    toggle_task(&mut s, 2, 1);
    add_task(&mut s, 3, "b".to_string(), None, Some(vec!["t".to_string()]), None, None);
    park_for_export(&mut s);
    assert_eq!(s.tasks[0].status, Status::Active);
    assert_eq!(s.tasks[1].status, Status::Parked);
    assert!(s.current_tag.is_none());
}
