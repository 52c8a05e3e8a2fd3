use todo_store::due::{parse_due, DueTime};
use todo_store::error::StoreError;
use todo_store::menu::{action_for, field_if_given, MenuAction};
use todo_store::store::TodoApp;
use todo_store::task::{is_blank, is_white_space, Task};

fn at(year: i32, month: u32, day: u32, hour: u32, minute: u32) -> DueTime {
    DueTime { year, month, day, hour, minute, second: 0 }
}

fn ids(tasks: &[Task]) -> Vec<i32> {
    tasks.iter().map(|t| t.id).collect()
}

#[test]
fn scenario_buy_milk_pay_rent() {
    let mut s = TodoApp::new();
    assert_eq!(s.create("Buy milk".to_string(), at(2024, 1, 1, 10, 0)), Ok(0));
    assert_eq!(s.create("Pay rent".to_string(), at(2024, 1, 2, 9, 0)), Ok(1));
    assert_eq!(s.complete(0), Ok(()));
    let open = s.list(true);
    assert_eq!(ids(&open), vec![1]);
    assert_eq!(open[0].description, "Pay rent");
    assert_eq!(s.delete(0), Ok(()));
    assert!(matches!(s.find(0), Err(StoreError::NotFound)));
}

#[test]
fn empty_description_is_refused() {
    let mut s = TodoApp::new();
    assert_eq!(s.create(String::new(), at(2024, 1, 1, 10, 0)), Err(StoreError::Validation));
    assert_eq!(s.tasks().len(), 0);
    assert_eq!(s.next_id(), 0);
}

#[test]
fn blank_description_is_refused() {
    let mut s = TodoApp::new();
    assert_eq!(s.create(" \t\n".to_string(), at(2024, 1, 1, 10, 0)), Err(StoreError::Validation));
    assert_eq!(s.create("\u{3000}".to_string(), at(2024, 1, 1, 10, 0)), Err(StoreError::Validation));
    assert_eq!(s.tasks().len(), 0);
}

#[test]
fn ids_strictly_increase_and_are_not_reused() {
    let mut s = TodoApp::new();
    for k in 0..5 {
        assert_eq!(s.create(format!("task {}", k), at(2024, 3, 1, 8, k)), Ok(k as i32));
    }
    assert_eq!(s.delete(4), Ok(()));
    assert_eq!(s.create("again".to_string(), at(2024, 3, 2, 8, 0)), Ok(5));
    assert_eq!(ids(s.tasks()), vec![0, 1, 2, 3, 5]);
    assert_eq!(s.next_id(), 6);
}

#[test]
fn created_task_has_given_fields() {
    let mut s = TodoApp::new();
    let due = at(2025, 12, 31, 23, 59);
    s.create("Write report".to_string(), due).unwrap();
    let t = s.find(0).unwrap();
    assert_eq!(t.id, 0);
    assert_eq!(t.description, "Write report");
    assert_eq!(t.due_datetime, due);
    assert!(!t.completed);
}

#[test]
fn delete_then_find_fails() {
    let mut s = TodoApp::new();
    s.create("a".to_string(), at(2024, 1, 1, 1, 0)).unwrap();
    s.create("b".to_string(), at(2024, 1, 1, 2, 0)).unwrap();
    s.create("c".to_string(), at(2024, 1, 1, 3, 0)).unwrap();
    assert_eq!(s.delete(1), Ok(()));
    assert!(matches!(s.find(1), Err(StoreError::NotFound)));
    assert_eq!(ids(s.tasks()), vec![0, 2]);
    assert_eq!(s.find(2).unwrap().description, "c");
}

#[test]
fn delete_unknown_id_is_an_error() {
    let mut s = TodoApp::new();
    s.create("a".to_string(), at(2024, 1, 1, 1, 0)).unwrap();
    assert_eq!(s.delete(7), Err(StoreError::NotFound));
    assert_eq!(s.delete(-1), Err(StoreError::NotFound));
    assert_eq!(s.tasks().len(), 1);
}

#[test]
fn find_unknown_id_is_not_found() {
    let s = TodoApp::new();
    assert!(matches!(s.find(0), Err(StoreError::NotFound)));
}

#[test]
fn update_description_only_keeps_due_and_flag() {
    let mut s = TodoApp::new();
    let due = at(2024, 5, 6, 7, 8);
    s.create("old".to_string(), due).unwrap();
    s.complete(0).unwrap();
    assert_eq!(s.update(0, Some("new".to_string()), None), Ok(()));
    let t = s.find(0).unwrap();
    assert_eq!(t.description, "new");
    assert_eq!(t.due_datetime, due);
    assert!(t.completed);
}

#[test]
fn update_due_only_keeps_description_and_flag() {
    let mut s = TodoApp::new();
    s.create("same".to_string(), at(2024, 5, 6, 7, 8)).unwrap();
    let later = at(2024, 6, 1, 12, 0);
    assert_eq!(s.update(0, None, Some(later)), Ok(()));
    let t = s.find(0).unwrap();
    assert_eq!(t.description, "same");
    assert_eq!(t.due_datetime, later);
    assert!(!t.completed);
}

#[test]
fn update_errors_leave_store_unchanged() {
    let mut s = TodoApp::new();
    s.create("keep".to_string(), at(2024, 5, 6, 7, 8)).unwrap();
    assert_eq!(s.update(3, Some("x".to_string()), None), Err(StoreError::NotFound));
    assert_eq!(s.update(0, Some("  ".to_string()), Some(at(2030, 1, 1, 0, 0))), Err(StoreError::Validation));
    let t = s.find(0).unwrap();
    assert_eq!(t.description, "keep");
    assert_eq!(t.due_datetime, at(2024, 5, 6, 7, 8));
}

#[test]
fn complete_twice_is_idempotent() {
    let mut s = TodoApp::new();
    s.create("once".to_string(), at(2024, 1, 1, 1, 0)).unwrap();
    assert_eq!(s.complete(0), Ok(()));
    assert_eq!(s.complete(0), Ok(()));
    assert!(s.find(0).unwrap().completed);
    assert_eq!(s.complete(9), Err(StoreError::NotFound));
}

#[test]
fn incomplete_listing_has_no_completed_task() {
    let mut s = TodoApp::new();
    for k in 0..6 {
        s.create(format!("t{}", k), at(2024, 1, 1, 1, k)).unwrap();
    }
    s.complete(1).unwrap();
    s.complete(4).unwrap();
    let open = s.list(true);
    assert!(open.iter().all(|t| !t.completed));
    assert_eq!(ids(&open), vec![0, 2, 3, 5]);
    assert_eq!(ids(&s.list(false)), vec![0, 1, 2, 3, 4, 5]);
}

#[test]
fn restore_of_saved_parts_round_trips() {
    let mut s = TodoApp::new();
    s.create("a".to_string(), at(2024, 1, 1, 1, 0)).unwrap();
    s.create("b".to_string(), at(2024, 2, 2, 2, 0)).unwrap();
    s.create("c".to_string(), at(2024, 3, 3, 3, 0)).unwrap();
    s.complete(2).unwrap();
    s.delete(1).unwrap();
    let r = TodoApp::restore(s.tasks().clone(), s.next_id()).unwrap();
    assert_eq!(r.next_id(), 3);
    assert_eq!(r.tasks().len(), 2);
    for (x, y) in r.tasks().iter().zip(s.tasks().iter()) {
        assert_eq!(x.id, y.id);
        assert_eq!(x.description, y.description);
        assert_eq!(x.due_datetime, y.due_datetime);
        assert_eq!(x.completed, y.completed);
    }
}

fn task(id: i32, description: &str) -> Task {
    Task { id, description: description.to_string(), due_datetime: at(2024, 1, 1, 0, 0), completed: false }
}

#[test]
fn restore_refuses_broken_parts() {
    assert!(TodoApp::restore(vec![task(0, "a"), task(0, "b")], 2).is_err());
    assert!(matches!(TodoApp::restore(vec![task(2, "a"), task(1, "b")], 3), Err(StoreError::Schema)));
    assert!(matches!(TodoApp::restore(vec![task(0, "a")], 0), Err(StoreError::Schema)));
    assert!(matches!(TodoApp::restore(vec![task(-1, "a")], 1), Err(StoreError::Schema)));
    assert!(matches!(TodoApp::restore(vec![task(0, " ")], 1), Err(StoreError::Schema)));
    assert!(matches!(TodoApp::restore(vec![], -1), Err(StoreError::Schema)));
    let r = TodoApp::restore(vec![task(0, "a"), task(5, "b")], 9).unwrap();
    assert_eq!(r.next_id(), 9);
}

#[test]
fn restored_store_keeps_allocating_after_next_id() {
    let mut r = TodoApp::restore(vec![task(3, "a")], 4).unwrap();
    assert_eq!(r.create("b".to_string(), at(2024, 1, 1, 0, 0)), Ok(4));
}

#[test]
fn parse_due_reads_the_menu_layout() {
    assert_eq!(parse_due("01/02/2024 09:30 PM"), Ok(at(2024, 1, 2, 21, 30)));
    assert_eq!(parse_due("12/31/2023 12:05 AM"), Ok(at(2023, 12, 31, 0, 5)));
}

#[test]
fn parse_due_refuses_bad_text() {
    assert_eq!(parse_due("2024-01-02 09:30"), Err(StoreError::Parse));
    assert_eq!(parse_due("02/30/2024 09:30 AM"), Err(StoreError::Parse));
    assert_eq!(parse_due(""), Err(StoreError::Parse));
}

#[test]
fn menu_numbers_select_actions() {
    assert_eq!(action_for(1), Some(MenuAction::Create));
    assert_eq!(action_for(2), Some(MenuAction::Complete));
    assert_eq!(action_for(3), Some(MenuAction::Modify));
    assert_eq!(action_for(4), Some(MenuAction::Delete));
    assert_eq!(action_for(5), Some(MenuAction::ListIncomplete));
    assert_eq!(action_for(0), Some(MenuAction::Exit));
    assert_eq!(action_for(6), None);
    assert_eq!(action_for(-1), None);
}

#[test]
fn blank_answer_keeps_field() {
    assert_eq!(field_if_given(String::new()), None);
    assert_eq!(field_if_given("  ".to_string()), None);
    assert_eq!(field_if_given("x".to_string()), Some("x".to_string()));
}

#[test]
fn white_space_matches_std() {
    for u in 0u32..0x3100 {
        if let Some(c) = char::from_u32(u) {
            assert_eq!(is_white_space(c), c.is_whitespace(), "{:#x}", u);
        }
    }
    assert!(is_blank(""));
    assert!(!is_blank(" a "));
}
