use time_manager::state::DailyState;

fn sample_session() -> DailyState {
    let mut state = DailyState::init(123);
    state.start_new_task("first task".to_string(), 200).unwrap();
    state
        .complete_current_task(Some("with a comment".to_string()), 300)
        .unwrap();
    state.start_new_task("second".to_string(), 400).unwrap();
    state.complete_current_task(None, 500).unwrap();
    state.start_new_task("still open".to_string(), 600).unwrap();
    state
}

fn assert_sessions_equal(a: &DailyState, b: &DailyState) {
    match (&a.current_task, &b.current_task) {
        (None, None) => {}
        (Some(x), Some(y)) => {
            assert_eq!(x.name, y.name);
            assert_eq!(x.dt_start, y.dt_start);
        }
        _ => panic!("open task differs"),
    }
    assert_eq!(a.completed_tasks.len(), b.completed_tasks.len());
    for (x, y) in a.completed_tasks.iter().zip(b.completed_tasks.iter()) {
        assert_eq!(x.name, y.name);
        assert_eq!(x.dt_start, y.dt_start);
        assert_eq!(x.dt_end, y.dt_end);
        assert_eq!(x.end_comment, y.end_comment);
    }
    assert_eq!(a.start_time, b.start_time);
    assert_eq!(a.end_time, b.end_time);
}

#[test]
fn save_then_load_round_trips_exactly() {
    let state = sample_session();
    let text = state.save();
    let (reloaded, fresh) = DailyState::load_or_init(Some(&text), 9_999);
    assert!(!fresh);
    assert_sessions_equal(&state, &reloaded);
}

#[test]
fn empty_session_round_trips() {
    let state = DailyState::init(0);
    let text = state.save();
    let (reloaded, fresh) = DailyState::load_or_init(Some(&text), 1);
    assert!(!fresh);
    assert_sessions_equal(&state, &reloaded);
}

#[test]
fn extreme_timestamps_round_trip() {
    let mut state = DailyState::init(u64::MAX);
    state.start_new_task("edge".to_string(), u64::MAX).unwrap();
    state.complete_current_task(None, u64::MAX).unwrap();
    let text = state.save();
    let (reloaded, fresh) = DailyState::load_or_init(Some(&text), 0);
    assert!(!fresh);
    assert_sessions_equal(&state, &reloaded);
}

#[test]
fn names_with_delimiters_and_multibyte_round_trip() {
    let mut state = DailyState::init(5);
    state
        .start_new_task("naïve \n 0123456789:;'S'N \"quotes\" ✓".to_string(), 6)
        .unwrap();
    state
        .complete_current_task(Some("café ☕ comment".to_string()), 7)
        .unwrap();
    let text = state.save();
    let (reloaded, fresh) = DailyState::load_or_init(Some(&text), 0);
    assert!(!fresh);
    assert_sessions_equal(&state, &reloaded);
}

#[test]
fn missing_file_yields_fresh_session() {
    let (state, fresh) = DailyState::load_or_init(None, 42);
    assert!(fresh);
    assert!(state.current_task.is_none());
    assert_eq!(state.completed_tasks.len(), 0);
    assert_eq!(state.start_time, 42);
}

#[test]
fn corrupt_file_yields_fresh_session() {
    for garbage in ["", "not a session", "N0", "S", "{\"json\":1}"] {
        let (state, fresh) = DailyState::load_or_init(Some(garbage), 7);
        assert!(fresh, "input {:?} should not parse", garbage);
        assert_eq!(state.start_time, 7);
        assert_eq!(state.completed_tasks.len(), 0);
    }
}

#[test]
fn truncated_and_padded_saves_are_rejected() {
    let state = sample_session();
    let text = state.save();
    let mut truncated = text.clone();
    truncated.pop();
    let (_, fresh) = DailyState::load_or_init(Some(&truncated), 1);
    assert!(fresh);
    let padded = format!("{} ", text);
    let (_, fresh2) = DailyState::load_or_init(Some(&padded), 1);
    assert!(fresh2);
}

#[test]
fn overflowing_number_in_file_is_rejected() {
    let contents = format!("N{}", "9".repeat(20));
    let (_, fresh) = DailyState::load_or_init(Some(&contents), 3);
    assert!(fresh);
}

#[test]
fn unknown_option_tag_is_rejected() {
    let (_, fresh) = DailyState::load_or_init(Some("X"), 3);
    assert!(fresh);
}

#[test]
fn count_larger_than_the_journal_is_rejected() {
    let mut state = DailyState::init(1);
    state.start_new_task("only".to_string(), 2).unwrap();
    state.complete_current_task(None, 3).unwrap();
    let text = state.save();
    let miscounted = text.replacen(
        "00000000000000000001",
        "00000000000000000002",
        1,
    );
    let (_, fresh) = DailyState::load_or_init(Some(&miscounted), 4);
    assert!(fresh);
}

#[test]
fn inverted_record_in_file_is_rejected() {
    let mut state = DailyState::init(0);
    state.completed_tasks.push(time_manager::task::CompletedTask {
        name: "bad".to_string(),
        dt_start: 10,
        dt_end: 3,
        end_comment: None,
    });
    let text = state.save();
    let (_, fresh) = DailyState::load_or_init(Some(&text), 1);
    assert!(fresh);
}
