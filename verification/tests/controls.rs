use time_manager::clock::now_millis;
use time_manager::control::{Control, Input, SubmitButton};

#[test]
fn input_starts_empty_and_unfocused() {
    let input = Input::init();
    assert!(!input.is_focused);
    assert!(input.input.is_empty());
}

#[test]
fn input_editing_and_clearing() {
    let mut input = Input::init();
    input.add_char_to_input('h');
    input.add_char_to_input('i');
    assert_eq!(input.input, "hi");
    input.remove_last_char_from_input();
    assert_eq!(input.input, "h");
    input.set_focus();
    assert!(input.is_focused);
    input.clear_input();
    assert!(input.input.is_empty());
    assert!(!input.is_focused);
}

#[test]
fn input_focus_toggles() {
    let mut input = Input::init();
    input.toggle_focus();
    assert!(input.is_focused);
    input.toggle_focus();
    assert!(!input.is_focused);
    input.set_focus();
    input.unset_focus();
    assert!(!input.is_focused);
}

#[test]
fn submit_button_focus_toggles() {
    let mut btn = SubmitButton::init();
    assert!(!btn.is_focused);
    btn.toggle_focus();
    assert!(btn.is_focused);
    btn.unset_focus();
    assert!(!btn.is_focused);
    btn.set_focus();
    assert!(btn.is_focused);
}

#[test]
fn control_dispatches_to_its_variant() {
    let mut control = Control::TaskNameInput(Input::init());
    control.set_focus();
    match &control {
        Control::TaskNameInput(i) => assert!(i.is_focused),
        _ => panic!(),
    }
    control.toggle_focus();
    control.clear_input();
    match &control {
        Control::TaskNameInput(i) => {
            assert!(!i.is_focused);
            assert!(i.input.is_empty());
        }
        _ => panic!(),
    }

    let mut btn = Control::SubmitBtn(SubmitButton::init());
    btn.set_focus();
    btn.clear_input();
    match &btn {
        Control::SubmitBtn(b) => assert!(b.is_focused),
        _ => panic!(),
    }
    btn.unset_focus();
    match &btn {
        Control::SubmitBtn(b) => assert!(!b.is_focused),
        _ => panic!(),
    }
}

#[test]
fn clock_reports_a_time_after_the_epoch() {
    assert!(now_millis() > 0);
}
