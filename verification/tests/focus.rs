use time_manager::control::{Control, ControlId};
use time_manager::tabs::Tab;
use time_manager::ui::{AppStage, AppUiState};

fn name_buffer(ui: &AppUiState) -> String {
    match &ui.task_name_input {
        Control::TaskNameInput(i) => i.input.clone(),
        _ => panic!("task name field holds the wrong variant"),
    }
}

fn comment_buffer(ui: &AppUiState) -> String {
    match &ui.task_end_comment_input {
        Control::EndCommentInput(i) => i.input.clone(),
        _ => panic!("comment field holds the wrong variant"),
    }
}

fn flags(ui: &AppUiState) -> (bool, bool, bool) {
    let a = match &ui.task_name_input {
        Control::TaskNameInput(i) => i.is_focused,
        _ => panic!(),
    };
    let b = match &ui.task_end_comment_input {
        Control::EndCommentInput(i) => i.is_focused,
        _ => panic!(),
    };
    let c = match &ui.submit_btn {
        Control::SubmitBtn(s) => s.is_focused,
        _ => panic!(),
    };
    (a, b, c)
}

/// Exactly the control named by `control_focused` carries the focus flag,
/// and it belongs to the active tab.
fn assert_focus_invariant(ui: &AppUiState) {
    let (a, b, c) = flags(ui);
    match ui.control_focused {
        Some(ControlId::TaskName) => {
            assert!((a, b, c) == (true, false, false));
            assert_eq!(ui.get_active_tab(), Tab::Start);
        }
        Some(ControlId::EndComment) => {
            assert!((a, b, c) == (false, true, false));
            assert!(matches!(
                ui.get_active_tab(),
                Tab::Start | Tab::Out | Tab::End
            ));
        }
        Some(ControlId::Submit) => {
            assert!((a, b, c) == (false, false, true));
            assert!(ui.get_active_tab() != Tab::Home);
        }
        None => {
            assert!((a, b, c) == (false, false, false));
            assert_eq!(ui.get_active_tab(), Tab::Home);
        }
    }
}

#[test]
fn init_starts_on_home_waiting_unfocused() {
    let ui = AppUiState::init();
    assert_eq!(ui.get_active_tab_idx(), 0);
    assert_eq!(ui.get_active_tab(), Tab::Home);
    assert!(ui.control_focused.is_none());
    assert_eq!(ui.stage, AppStage::Waiting);
    assert_focus_invariant(&ui);
}

#[test]
fn tab_names_are_in_order() {
    assert_eq!(
        Tab::as_string_vec(),
        vec!["Home", "Start", "Out", "End", "Clear State"]
    );
}

#[test]
fn tab_switching_clamps_at_both_ends() {
    let mut ui = AppUiState::init();
    ui.switch_tabs_backward();
    assert_eq!(ui.get_active_tab_idx(), 0);
    for _ in 0..10 {
        ui.switch_tabs_forward();
        assert_focus_invariant(&ui);
    }
    assert_eq!(ui.get_active_tab(), Tab::ClearState);
    for _ in 0..10 {
        ui.switch_tabs_backward();
        assert_focus_invariant(&ui);
    }
    assert_eq!(ui.get_active_tab(), Tab::Home);
}

#[test]
fn entering_a_tab_focuses_its_first_control() {
    let mut ui = AppUiState::init();
    ui.switch_tabs_forward();
    assert_eq!(ui.get_active_tab(), Tab::Start);
    assert_eq!(ui.control_focused, Some(ControlId::TaskName));
    ui.switch_tabs_forward();
    assert_eq!(ui.get_active_tab(), Tab::Out);
    assert_eq!(ui.control_focused, Some(ControlId::EndComment));
    ui.switch_tabs_forward();
    assert_eq!(ui.get_active_tab(), Tab::End);
    assert_eq!(ui.control_focused, Some(ControlId::EndComment));
    ui.switch_tabs_forward();
    assert_eq!(ui.get_active_tab(), Tab::ClearState);
    assert_eq!(ui.control_focused, Some(ControlId::Submit));
}

#[test]
fn focus_cycles_forward_with_wraparound_on_start_tab() {
    let mut ui = AppUiState::init();
    ui.switch_tabs_forward();
    let expected = [
        ControlId::EndComment,
        ControlId::Submit,
        ControlId::TaskName,
        ControlId::EndComment,
    ];
    for want in expected {
        ui.switch_control_focus_forwards();
        assert_eq!(ui.control_focused, Some(want));
        assert_focus_invariant(&ui);
    }
}

#[test]
fn focus_cycles_backward_with_wraparound_on_start_tab() {
    let mut ui = AppUiState::init();
    ui.switch_tabs_forward();
    let expected = [
        ControlId::Submit,
        ControlId::EndComment,
        ControlId::TaskName,
        ControlId::Submit,
    ];
    for want in expected {
        ui.switch_control_focus_backwards();
        assert_eq!(ui.control_focused, Some(want));
        assert_focus_invariant(&ui);
    }
}

#[test]
fn focus_move_is_noop_on_single_control_tab() {
    let mut ui = AppUiState::init();
    for _ in 0..4 {
        ui.switch_tabs_forward();
    }
    assert_eq!(ui.get_active_tab(), Tab::ClearState);
    ui.switch_control_focus_forwards();
    assert_eq!(ui.control_focused, Some(ControlId::Submit));
    ui.switch_control_focus_backwards();
    assert_eq!(ui.control_focused, Some(ControlId::Submit));
    assert_focus_invariant(&ui);
}

#[test]
fn typing_goes_into_the_focused_input_only() {
    let mut ui = AppUiState::init();
    ui.switch_tabs_forward();
    for c in "abc".chars() {
        ui.edit_focused(c);
    }
    assert_eq!(name_buffer(&ui), "abc");
    assert_eq!(comment_buffer(&ui), "");
    ui.switch_control_focus_forwards();
    ui.edit_focused('x');
    assert_eq!(name_buffer(&ui), "abc");
    assert_eq!(comment_buffer(&ui), "x");
    ui.switch_control_focus_forwards();
    ui.edit_focused('z');
    assert_eq!(name_buffer(&ui), "abc");
    assert_eq!(comment_buffer(&ui), "x");
}

#[test]
fn backspace_removes_whole_characters() {
    let mut ui = AppUiState::init();
    ui.switch_tabs_forward();
    for c in "aé☕".chars() {
        ui.edit_focused(c);
    }
    ui.backspace_focused();
    assert_eq!(name_buffer(&ui), "aé");
    ui.backspace_focused();
    assert_eq!(name_buffer(&ui), "a");
    ui.backspace_focused();
    assert_eq!(name_buffer(&ui), "");
    ui.backspace_focused();
    assert_eq!(name_buffer(&ui), "");
}

#[test]
fn switching_tabs_clears_transient_buffers() {
    let mut ui = AppUiState::init();
    ui.switch_tabs_forward();
    for c in "draft".chars() {
        ui.edit_focused(c);
    }
    ui.switch_tabs_forward();
    assert_eq!(name_buffer(&ui), "");
    assert_eq!(comment_buffer(&ui), "");
    ui.switch_tabs_backward();
    assert_eq!(name_buffer(&ui), "");
}

#[test]
fn clear_inputs_keeps_navigation_position() {
    let mut ui = AppUiState::init();
    ui.switch_tabs_forward();
    for c in "abc".chars() {
        ui.edit_focused(c);
    }
    ui.switch_control_focus_forwards();
    ui.switch_control_focus_forwards();
    assert_eq!(ui.control_focused, Some(ControlId::Submit));
    ui.clear_inputs_state();
    assert_eq!(ui.control_focused, Some(ControlId::Submit));
    assert_eq!(name_buffer(&ui), "");
    let (a, b, c) = flags(&ui);
    assert!(!a && !b && !c);
}
