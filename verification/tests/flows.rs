use time_manager::control::{Control, ControlId};
use time_manager::dispatch::{finish_export, recall_previous_task_name, submit, SubmitAction};
use time_manager::errors::AppError;
use time_manager::state::DailyState;
use time_manager::tabs::Tab;
use time_manager::ui::{AppStage, AppUiState};

fn type_text(ui: &mut AppUiState, text: &str) {
    for c in text.chars() {
        ui.edit_focused(c);
    }
}

fn focus_submit(ui: &mut AppUiState) {
    for _ in 0..3 {
        if ui.control_focused == Some(ControlId::Submit) {
            return;
        }
        ui.switch_control_focus_forwards();
    }
    assert_eq!(ui.control_focused, Some(ControlId::Submit));
}

fn name_buffer(ui: &AppUiState) -> String {
    match &ui.task_name_input {
        Control::TaskNameInput(i) => i.input.clone(),
        _ => panic!(),
    }
}

#[test]
fn start_pause_scenario() {
    let (mut state, fresh) = DailyState::load_or_init(None, 0);
    assert!(fresh);
    let mut ui = AppUiState::init();

    ui.switch_tabs_forward();
    assert_eq!(ui.get_active_tab(), Tab::Start);
    type_text(&mut ui, "write spec");
    focus_submit(&mut ui);
    let action = submit(&mut state, &mut ui, 1000).unwrap();
    assert_eq!(action, SubmitAction::SaveState);
    assert_eq!(state.current_task.as_ref().unwrap().name, "write spec");
    assert_eq!(ui.stage, AppStage::Working);

    ui.switch_tabs_forward();
    assert_eq!(ui.get_active_tab(), Tab::Out);
    type_text(&mut ui, "done for now");
    focus_submit(&mut ui);
    let action = submit(&mut state, &mut ui, 2000).unwrap();
    assert_eq!(action, SubmitAction::SaveState);
    assert!(state.current_task.is_none());
    assert_eq!(state.completed_tasks.len(), 1);
    assert_eq!(state.completed_tasks[0].name, "write spec. done for now");
    assert_eq!(ui.stage, AppStage::Paused);
}

#[test]
fn submit_with_empty_task_name_is_rejected_and_buffers_kept() {
    let mut state = DailyState::init(0);
    let mut ui = AppUiState::init();
    ui.switch_tabs_forward();
    ui.switch_control_focus_forwards();
    type_text(&mut ui, "a half-typed comment");
    focus_submit(&mut ui);
    let r = submit(&mut state, &mut ui, 10);
    assert!(matches!(r, Err(AppError::Validation)));
    assert!(state.current_task.is_none());
    match &ui.task_end_comment_input {
        Control::EndCommentInput(i) => assert_eq!(i.input, "a half-typed comment"),
        _ => panic!(),
    }
    assert_eq!(ui.stage, AppStage::Waiting);
}

#[test]
fn submit_while_text_input_focused_is_noop() {
    let mut state = DailyState::init(0);
    let mut ui = AppUiState::init();
    ui.switch_tabs_forward();
    type_text(&mut ui, "abc");
    let action = submit(&mut state, &mut ui, 10).unwrap();
    assert_eq!(action, SubmitAction::DoNothing);
    assert_eq!(name_buffer(&ui), "abc");
    assert!(state.current_task.is_none());
}

#[test]
fn export_failure_preserves_session_and_stage() {
    let mut state = DailyState::init(0);
    let mut ui = AppUiState::init();
    ui.switch_tabs_forward();
    type_text(&mut ui, "task");
    focus_submit(&mut ui);
    submit(&mut state, &mut ui, 100).unwrap();
    assert_eq!(ui.stage, AppStage::Working);

    ui.switch_tabs_forward();
    ui.switch_tabs_forward();
    assert_eq!(ui.get_active_tab(), Tab::End);
    focus_submit(&mut ui);
    let action = submit(&mut state, &mut ui, 200).unwrap();
    assert_eq!(action, SubmitAction::RunExport);
    assert_eq!(state.completed_tasks.len(), 1);

    let r = finish_export(&mut state, &mut ui, false, 300);
    assert!(matches!(r, Err(AppError::Report)));
    assert_eq!(state.completed_tasks.len(), 1);
    assert_eq!(state.completed_tasks[0].name, "task");
    assert_eq!(state.start_time, 0);
    assert_eq!(ui.stage, AppStage::Working);
}

#[test]
fn export_success_clears_the_day() {
    let mut state = DailyState::init(0);
    let mut ui = AppUiState::init();
    ui.switch_tabs_forward();
    type_text(&mut ui, "task");
    focus_submit(&mut ui);
    submit(&mut state, &mut ui, 100).unwrap();
    for _ in 0..2 {
        ui.switch_tabs_forward();
    }
    focus_submit(&mut ui);
    submit(&mut state, &mut ui, 200).unwrap();
    let action = finish_export(&mut state, &mut ui, true, 300).unwrap();
    assert_eq!(action, SubmitAction::DeleteStateFile);
    assert_eq!(state.completed_tasks.len(), 0);
    assert!(state.current_task.is_none());
    assert_eq!(state.start_time, 300);
    assert_eq!(ui.stage, AppStage::Waiting);
}

#[test]
fn clear_state_submit_resets_everything() {
    let mut state = DailyState::init(0);
    state.start_new_task("going".to_string(), 5).unwrap();
    let mut ui = AppUiState::init();
    ui.stage = AppStage::Working;
    for _ in 0..4 {
        ui.switch_tabs_forward();
    }
    assert_eq!(ui.get_active_tab(), Tab::ClearState);
    assert_eq!(ui.control_focused, Some(ControlId::Submit));
    let action = submit(&mut state, &mut ui, 900).unwrap();
    assert_eq!(action, SubmitAction::DeleteStateFile);
    assert!(state.current_task.is_none());
    assert_eq!(state.completed_tasks.len(), 0);
    assert_eq!(state.start_time, 900);
    assert_eq!(ui.stage, AppStage::Waiting);
}

#[test]
fn stage_transitions_follow_the_tab_rules() {
    let mut state = DailyState::init(0);
    let mut ui = AppUiState::init();
    ui.switch_tabs_forward();
    type_text(&mut ui, "one");
    focus_submit(&mut ui);
    submit(&mut state, &mut ui, 1).unwrap();
    assert_eq!(ui.stage, AppStage::Working);

    ui.switch_tabs_forward();
    focus_submit(&mut ui);
    submit(&mut state, &mut ui, 2).unwrap();
    assert_eq!(ui.stage, AppStage::Paused);

    ui.switch_tabs_backward();
    assert_eq!(ui.get_active_tab(), Tab::Start);
    type_text(&mut ui, "two");
    focus_submit(&mut ui);
    submit(&mut state, &mut ui, 3).unwrap();
    assert_eq!(ui.stage, AppStage::Paused);
    assert_eq!(state.current_task.as_ref().unwrap().name, "two");
}

#[test]
fn recall_walks_backward_and_falls_through_to_focus_move() {
    let mut state = DailyState::init(0);
    let mut ui = AppUiState::init();
    ui.switch_tabs_forward();
    recall_previous_task_name(&mut ui, &state);
    assert_eq!(ui.control_focused, Some(ControlId::Submit));

    for name in ["A", "B", "C"] {
        state.start_new_task(name.to_string(), 0).unwrap();
        state.complete_current_task(None, 1).unwrap();
    }
    let mut ui = AppUiState::init();
    ui.switch_tabs_forward();
    assert_eq!(ui.control_focused, Some(ControlId::TaskName));
    recall_previous_task_name(&mut ui, &state);
    assert_eq!(name_buffer(&ui), "C");
    recall_previous_task_name(&mut ui, &state);
    assert_eq!(name_buffer(&ui), "B");
    recall_previous_task_name(&mut ui, &state);
    assert_eq!(name_buffer(&ui), "A");
    recall_previous_task_name(&mut ui, &state);
    assert_eq!(name_buffer(&ui), "");
    assert_eq!(ui.control_focused, Some(ControlId::TaskName));
}
