use time_manager::state::DailyState;

#[test]
fn fresh_session_is_empty() {
    let state = DailyState::init(1000);
    assert!(state.current_task.is_none());
    assert_eq!(state.completed_tasks.len(), 0);
    assert_eq!(state.start_time, 1000);
    assert!(state.end_time.is_none());
}

#[test]
fn complete_with_no_open_task_is_noop_success() {
    let mut state = DailyState::init(0);
    let r = state.complete_current_task(None, 5);
    assert!(r.is_ok());
    assert_eq!(state.completed_tasks.len(), 0);
    assert!(state.current_task.is_none());
}

#[test]
fn start_then_complete_appends_one_record() {
    let mut state = DailyState::init(0);
    assert!(state.start_new_task("alpha".to_string(), 100).is_ok());
    assert_eq!(state.current_task.as_ref().unwrap().name, "alpha");
    assert_eq!(state.current_task.as_ref().unwrap().dt_start, 100);
    let r = state.complete_current_task(None, 250);
    assert!(r.is_ok());
    assert!(state.current_task.is_none());
    assert_eq!(state.completed_tasks.len(), 1);
    assert_eq!(state.completed_tasks[0].name, "alpha");
    assert_eq!(state.completed_tasks[0].dt_start, 100);
    assert_eq!(state.completed_tasks[0].dt_end, 250);
    assert!(state.completed_tasks[0].end_comment.is_none());
}

#[test]
fn completion_message_is_folded_into_name_once() {
    let mut state = DailyState::init(0);
    state.start_new_task("write spec".to_string(), 10).unwrap();
    state
        .complete_current_task(Some("done for now".to_string()), 20)
        .unwrap();
    assert_eq!(state.completed_tasks[0].name, "write spec. done for now");
    assert_eq!(
        state.completed_tasks[0].end_comment.as_deref(),
        Some("done for now")
    );
}

#[test]
fn empty_task_name_is_rejected() {
    let mut state = DailyState::init(0);
    let r = state.start_new_task(String::new(), 10);
    assert!(matches!(r, Err(time_manager::errors::AppError::Validation)));
    assert!(state.current_task.is_none());
}

#[test]
fn starting_twice_without_completing_replaces_deterministically() {
    let mut state = DailyState::init(0);
    state.start_new_task("first".to_string(), 10).unwrap();
    state.start_new_task("second".to_string(), 20).unwrap();
    assert_eq!(state.current_task.as_ref().unwrap().name, "second");
    assert_eq!(state.current_task.as_ref().unwrap().dt_start, 20);
    assert_eq!(state.completed_tasks.len(), 0);
}

#[test]
fn journal_is_append_only_across_operations() {
    let mut state = DailyState::init(0);
    let mut expected: Vec<String> = Vec::new();
    for (i, name) in ["a", "b", "c"].iter().enumerate() {
        let before = state.completed_tasks.len();
        state.start_new_task(name.to_string(), i as u64).unwrap();
        assert!(state.completed_tasks.len() >= before);
        state.complete_current_task(None, i as u64 + 1).unwrap();
        assert_eq!(state.completed_tasks.len(), before + 1);
        expected.push(name.to_string());
        for (k, want) in expected.iter().enumerate() {
            assert_eq!(&state.completed_tasks[k].name, want);
        }
    }
}

#[test]
fn clock_moving_backwards_never_makes_inverted_record() {
    let mut state = DailyState::init(0);
    state.start_new_task("late".to_string(), 500).unwrap();
    state.complete_current_task(None, 400).unwrap();
    assert_eq!(state.completed_tasks[0].dt_start, 500);
    assert_eq!(state.completed_tasks[0].dt_end, 500);
}

#[test]
fn clear_resets_to_fresh_session() {
    let mut state = DailyState::init(0);
    state.start_new_task("x".to_string(), 1).unwrap();
    state.complete_current_task(None, 2).unwrap();
    state.start_new_task("y".to_string(), 3).unwrap();
    state.clear_todays_state(77);
    assert!(state.current_task.is_none());
    assert_eq!(state.completed_tasks.len(), 0);
    assert_eq!(state.start_time, 77);
    assert!(state.end_time.is_none());
}

#[test]
fn export_returns_the_whole_journal_unchanged() {
    let mut state = DailyState::init(0);
    state.start_new_task("one".to_string(), 1).unwrap();
    state.complete_current_task(Some("note".to_string()), 2).unwrap();
    state.start_new_task("two".to_string(), 3).unwrap();
    state.complete_current_task(None, 4).unwrap();
    let snapshot = state.export();
    assert_eq!(snapshot.len(), 2);
    assert_eq!(snapshot[0].name, "one. note");
    assert_eq!(snapshot[1].name, "two");
    assert_eq!(state.completed_tasks.len(), 2);
}

#[test]
fn total_working_millis_sums_journal_and_open_task() {
    let mut state = DailyState::init(0);
    state.start_new_task("a".to_string(), 100).unwrap();
    state.complete_current_task(None, 350).unwrap();
    state.start_new_task("b".to_string(), 1000).unwrap();
    let total = time_manager::utils::calculate_total_working_millis(&state, 1600);
    assert_eq!(total, 250 + 600);
}

#[test]
fn total_working_millis_without_open_task() {
    let mut state = DailyState::init(0);
    state.start_new_task("a".to_string(), 0).unwrap();
    state.complete_current_task(None, 3_600_000).unwrap();
    let total = time_manager::utils::calculate_total_working_millis(&state, 9_999_999);
    assert_eq!(total, 3_600_000);
}

#[test]
fn completed_task_names_snapshot() {
    let mut state = DailyState::init(0);
    for name in ["a", "b"] {
        state.start_new_task(name.to_string(), 0).unwrap();
        state.complete_current_task(None, 1).unwrap();
    }
    let names = time_manager::utils::get_complited_tasks_names(&state);
    assert_eq!(names, vec!["a".to_string(), "b".to_string()]);
}
