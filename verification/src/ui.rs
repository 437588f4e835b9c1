//! The focus controller: a cursor over the fixed tab list and, within a
//! tab, over its ordered control list. It decides which control receives
//! each keystroke and owns the transient edit buffers.

use crate::control::{Control, ControlId, Input, SubmitButton};
use crate::tabs::{tab_count, Tab};
use vstd::prelude::*;

verus! {

/// The display-only projection of the session phase.
#[derive(Clone, Copy, Debug, PartialEq, Eq, Structural)]
pub enum AppStage {
    Waiting,
    Working,
    Paused,
}

/// The control focus cycles to when moving forward from `id` on tab `t`;
/// `id` itself on tabs where moving is a no-op.
pub open spec fn spec_next_focus(t: Tab, id: ControlId) -> ControlId {
    match t {
        Tab::Start => match id {
            ControlId::TaskName => ControlId::EndComment,
            ControlId::EndComment => ControlId::Submit,
            ControlId::Submit => ControlId::TaskName,
        },
        Tab::Out | Tab::End => match id {
            ControlId::EndComment => ControlId::Submit,
            ControlId::Submit => ControlId::EndComment,
            ControlId::TaskName => id,
        },
        _ => id,
    }
}

/// The control focus cycles to when moving backward from `id` on tab `t`.
pub open spec fn spec_prev_focus(t: Tab, id: ControlId) -> ControlId {
    match t {
        Tab::Start => match id {
            ControlId::TaskName => ControlId::Submit,
            ControlId::EndComment => ControlId::TaskName,
            ControlId::Submit => ControlId::EndComment,
        },
        Tab::Out | Tab::End => match id {
            ControlId::EndComment => ControlId::Submit,
            ControlId::Submit => ControlId::EndComment,
            ControlId::TaskName => id,
        },
        _ => id,
    }
}

/// Moving focus forward from the control at position `i` of the active
/// tab's list lands on the next control of that list, wrapping from the
/// last back to the first.
pub proof fn lemma_next_focus_cycles(t: Tab, i: int)
    requires
        0 <= i < t.controls().len(),
    ensures
        spec_next_focus(t, t.controls()[i]) == t.controls()[if i + 1 < t.controls().len() {
            i + 1
        } else {
            0
        }],
{
}

/// Moving focus backward from the control at position `i` of the active
/// tab's list lands on the previous control of that list, wrapping from
/// the first back to the last.
pub proof fn lemma_prev_focus_cycles(t: Tab, i: int)
    requires
        0 <= i < t.controls().len(),
    ensures
        spec_prev_focus(t, t.controls()[i]) == t.controls()[if i > 0 {
            i - 1
        } else {
            t.controls().len() - 1
        }],
{
}

/// The whole interface state: the active tab, the three controls, which of
/// them (if any) is focused, and the display stage.
pub struct AppUiState {
    pub tabs: Vec<String>,
    pub active_tab: usize,
    pub control_focused: Option<ControlId>,
    pub task_name_input: Control,
    pub task_end_comment_input: Control,
    pub submit_btn: Control,
    pub stage: AppStage,
}

impl AppUiState {
    /// The tab the cursor is on.
    pub open spec fn active_tab_spec(self) -> Tab {
        Tab::spec_from_index(self.active_tab as int)
    }

    /// Structural validity: the tab index is in range and each control
    /// field holds its own variant.
    pub open spec fn wf(self) -> bool {
        &&& self.active_tab < tab_count()
        &&& self.tabs@.len() == tab_count()
        &&& self.task_name_input is TaskNameInput
        &&& self.task_end_comment_input is EndCommentInput
        &&& self.submit_btn is SubmitBtn
    }

    /// The task-name edit buffer.
    pub open spec fn name_buffer(self) -> Seq<char> {
        self.task_name_input.buffer()
    }

    /// The end-comment edit buffer.
    pub open spec fn comment_buffer(self) -> Seq<char> {
        self.task_end_comment_input.buffer()
    }

    /// Exactly the control named by `control_focused` has its focus flag
    /// set.
    pub open spec fn flags_consistent(self) -> bool {
        &&& self.task_name_input.focused() == (self.control_focused == Some(
            ControlId::TaskName,
        ))
        &&& self.task_end_comment_input.focused() == (self.control_focused == Some(
            ControlId::EndComment,
        ))
        &&& self.submit_btn.focused() == (self.control_focused == Some(ControlId::Submit))
    }

    /// The focused control, when present, is one the active tab declares;
    /// it is absent exactly on tabs without controls.
    pub open spec fn focus_in_tab(self) -> bool {
        match self.control_focused {
            Some(id) => self.active_tab_spec().controls().contains(id),
            None => self.active_tab_spec().controls().len() == 0,
        }
    }

    /// Both edit buffers are empty.
    pub open spec fn buffers_clear(self) -> bool {
        self.name_buffer().len() == 0 && self.comment_buffer().len() == 0
    }

    /// What holds right after a tab switch lands on `self`: buffers reset,
    /// focus on the destination tab's first control, everything else kept.
    pub open spec fn freshly_entered(self, prev: AppUiState) -> bool {
        &&& self.stage == prev.stage
        &&& self.tabs == prev.tabs
        &&& self.buffers_clear()
        &&& self.control_focused == self.active_tab_spec().first_control()
        &&& self.flags_consistent()
    }

    /// The interface as it looks on startup: home tab, nothing focused,
    /// empty buffers, waiting stage.
    pub fn init() -> (r: AppUiState)
        ensures
            r.wf(),
            r.active_tab == 0,
            r.control_focused is None,
            r.stage == AppStage::Waiting,
            r.buffers_clear(),
            r.flags_consistent(),
            r.focus_in_tab(),
            forall|i: int|
                0 <= i < tab_count() ==> r.tabs@[i]@ == Tab::spec_from_index(i).spec_title(),
    {
        AppUiState {
            task_end_comment_input: Control::EndCommentInput(Input::init()),
            task_name_input: Control::TaskNameInput(Input::init()),
            submit_btn: Control::SubmitBtn(SubmitButton::init()),
            active_tab: 0,
            tabs: Tab::as_string_vec(),
            control_focused: None,
            stage: AppStage::Waiting,
        }
    }

    /// Sets the focus flags and the focus marker to exactly `id`.
    fn focus_control(&mut self, id: ControlId)
        requires
            old(self).wf(),
        ensures
            final(self).wf(),
            final(self).control_focused == Some(id),
            final(self).flags_consistent(),
            final(self).active_tab == old(self).active_tab,
            final(self).stage == old(self).stage,
            final(self).tabs == old(self).tabs,
            final(self).name_buffer() == old(self).name_buffer(),
            final(self).comment_buffer() == old(self).comment_buffer(),
    {
        self.task_name_input.unset_focus();
        self.task_end_comment_input.unset_focus();
        self.submit_btn.unset_focus();
        match id {
            ControlId::TaskName => self.task_name_input.set_focus(),
            ControlId::EndComment => self.task_end_comment_input.set_focus(),
            ControlId::Submit => self.submit_btn.set_focus(),
        }
        self.control_focused = Some(id);
    }

    /// Resets buffers and focus for the tab the cursor now stands on.
    fn enter_active_tab(&mut self)
        requires
            old(self).wf(),
        ensures
            final(self).wf(),
            final(self).active_tab == old(self).active_tab,
            final(self).freshly_entered(*old(self)),
            final(self).focus_in_tab(),
    {
        self.task_name_input.clear_input();
        self.task_end_comment_input.clear_input();
        self.submit_btn.unset_focus();
        let tab = Tab::from_index(self.active_tab);
        match tab {
            Tab::Start => {
                self.task_name_input.set_focus();
                self.control_focused = Some(ControlId::TaskName);
            }
            Tab::Out => {
                self.task_end_comment_input.set_focus();
                self.control_focused = Some(ControlId::EndComment);
            }
            Tab::End => {
                self.task_end_comment_input.set_focus();
                self.control_focused = Some(ControlId::EndComment);
            }
            Tab::ClearState => {
                self.submit_btn.set_focus();
                self.control_focused = Some(ControlId::Submit);
            }
            Tab::Home => {
                self.control_focused = None;
            }
        }
    }

    /// Moves one tab to the right, clamped at the last tab. On a change,
    /// buffers are reset and the destination tab's first control takes
    /// focus.
    pub fn switch_tabs_forward(&mut self)
        requires
            old(self).wf(),
        ensures
            final(self).wf(),
            final(self).focus_in_tab() || *final(self) == *old(self),
            (old(self).active_tab as int) >= tab_count() - 1 ==> *final(self) == *old(self),
            (old(self).active_tab as int) < tab_count() - 1 ==> {
                &&& final(self).active_tab == old(self).active_tab + 1
                &&& final(self).freshly_entered(*old(self))
                &&& final(self).focus_in_tab()
            },
    {
        if self.active_tab < 4 {
            self.active_tab = self.active_tab + 1;
            self.enter_active_tab();
        }
    }

    /// Moves one tab to the left, clamped at the first tab; otherwise as
    /// `switch_tabs_forward`.
    pub fn switch_tabs_backward(&mut self)
        requires
            old(self).wf(),
        ensures
            final(self).wf(),
            final(self).focus_in_tab() || *final(self) == *old(self),
            old(self).active_tab == 0 ==> *final(self) == *old(self),
            old(self).active_tab > 0 ==> {
                &&& final(self).active_tab == old(self).active_tab - 1
                &&& final(self).freshly_entered(*old(self))
                &&& final(self).focus_in_tab()
            },
    {
        if self.active_tab > 0 {
            self.active_tab = self.active_tab - 1;
            self.enter_active_tab();
        }
    }

    /// Cycles focus forward through the active tab's control list, with
    /// wraparound; a no-op on tabs with zero or one control.
    pub fn switch_control_focus_forwards(&mut self)
        requires
            old(self).wf(),
            old(self).focus_in_tab(),
        ensures
            final(self).wf(),
            final(self).focus_in_tab(),
            final(self).active_tab == old(self).active_tab,
            final(self).stage == old(self).stage,
            final(self).tabs == old(self).tabs,
            final(self).name_buffer() == old(self).name_buffer(),
            final(self).comment_buffer() == old(self).comment_buffer(),
            old(self).active_tab_spec().controls().len() <= 1 ==> *final(self) == *old(self),
            old(self).active_tab_spec().controls().len() > 1 ==> {
                &&& old(self).control_focused is Some
                &&& final(self).control_focused == Some(
                    spec_next_focus(
                        old(self).active_tab_spec(),
                        old(self).control_focused->Some_0,
                    ),
                )
                &&& final(self).flags_consistent()
            },
    {
        let tab = Tab::from_index(self.active_tab);
        match tab {
            Tab::Start => {
                if let Some(id) = self.control_focused {
                    let next = match id {
                        ControlId::TaskName => ControlId::EndComment,
                        ControlId::EndComment => ControlId::Submit,
                        ControlId::Submit => ControlId::TaskName,
                    };
                    self.focus_control(next);
                }
            }
            Tab::Out | Tab::End => {
                if let Some(id) = self.control_focused {
                    let next = match id {
                        ControlId::EndComment => ControlId::Submit,
                        ControlId::Submit => ControlId::EndComment,
                        ControlId::TaskName => id,
                    };
                    self.focus_control(next);
                }
            }
            Tab::Home | Tab::ClearState => {}
        }
    }

    /// Cycles focus backward through the active tab's control list, with
    /// wraparound; a no-op on tabs with zero or one control.
    pub fn switch_control_focus_backwards(&mut self)
        requires
            old(self).wf(),
            old(self).focus_in_tab(),
        ensures
            final(self).wf(),
            final(self).focus_in_tab(),
            final(self).active_tab == old(self).active_tab,
            final(self).stage == old(self).stage,
            final(self).tabs == old(self).tabs,
            final(self).name_buffer() == old(self).name_buffer(),
            final(self).comment_buffer() == old(self).comment_buffer(),
            old(self).active_tab_spec().controls().len() <= 1 ==> *final(self) == *old(self),
            old(self).active_tab_spec().controls().len() > 1 ==> {
                &&& old(self).control_focused is Some
                &&& final(self).control_focused == Some(
                    spec_prev_focus(
                        old(self).active_tab_spec(),
                        old(self).control_focused->Some_0,
                    ),
                )
                &&& final(self).flags_consistent()
            },
    {
        let tab = Tab::from_index(self.active_tab);
        match tab {
            Tab::Start => {
                if let Some(id) = self.control_focused {
                    let prev = match id {
                        ControlId::TaskName => ControlId::Submit,
                        ControlId::EndComment => ControlId::TaskName,
                        ControlId::Submit => ControlId::EndComment,
                    };
                    self.focus_control(prev);
                }
            }
            Tab::Out | Tab::End => {
                if let Some(id) = self.control_focused {
                    let prev = match id {
                        ControlId::EndComment => ControlId::Submit,
                        ControlId::Submit => ControlId::EndComment,
                        ControlId::TaskName => id,
                    };
                    self.focus_control(prev);
                }
            }
            Tab::Home | Tab::ClearState => {}
        }
    }

    /// Empties both edit buffers and drops every focus flag. The focus
    /// marker — the navigation position — is kept for the next tab switch
    /// to reset.
    pub fn clear_inputs_state(&mut self)
        requires
            old(self).wf(),
        ensures
            final(self).wf(),
            final(self).buffers_clear(),
            final(self).task_name_input.focused() == false,
            final(self).task_end_comment_input.focused() == false,
            final(self).submit_btn.focused() == false,
            final(self).control_focused == old(self).control_focused,
            final(self).active_tab == old(self).active_tab,
            final(self).stage == old(self).stage,
            final(self).tabs == old(self).tabs,
    {
        self.task_name_input.clear_input();
        self.task_end_comment_input.clear_input();
        self.submit_btn.unset_focus();
    }

    /// The tab the cursor is on; out-of-range indices fall back to home.
    pub fn get_active_tab(&self) -> (t: Tab)
        ensures
            t == self.active_tab_spec(),
    {
        Tab::from_index(self.active_tab)
    }

    pub fn get_active_tab_idx(&self) -> (i: usize)
        ensures
            i == self.active_tab,
    {
        self.active_tab
    }

    /// Routes one typed character into the focused control's buffer; a
    /// no-op when the submit button or nothing is focused.
    pub fn edit_focused(&mut self, c: char)
        requires
            old(self).wf(),
        ensures
            final(self).wf(),
            final(self).active_tab == old(self).active_tab,
            final(self).stage == old(self).stage,
            final(self).tabs == old(self).tabs,
            final(self).control_focused == old(self).control_focused,
            final(self).task_name_input.focused() == old(self).task_name_input.focused(),
            final(self).task_end_comment_input.focused() == old(self).task_end_comment_input.focused(),
            final(self).submit_btn.focused() == old(self).submit_btn.focused(),
            old(self).control_focused == Some(ControlId::TaskName) ==> {
                &&& final(self).name_buffer() == old(self).name_buffer().push(c)
                &&& final(self).comment_buffer() == old(self).comment_buffer()
            },
            old(self).control_focused == Some(ControlId::EndComment) ==> {
                &&& final(self).comment_buffer() == old(self).comment_buffer().push(c)
                &&& final(self).name_buffer() == old(self).name_buffer()
            },
            old(self).control_focused == Some(ControlId::Submit) || old(self).control_focused is None ==> *final(self) == *old(self),
    {
        match self.control_focused {
            Some(ControlId::TaskName) => {
                match &mut self.task_name_input {
                    Control::TaskNameInput(state) => state.add_char_to_input(c),
                    _ => {}
                }
            }
            Some(ControlId::EndComment) => {
                match &mut self.task_end_comment_input {
                    Control::EndCommentInput(state) => state.add_char_to_input(c),
                    _ => {}
                }
            }
            _ => {}
        }
    }

    /// Removes one trailing character from the focused control's buffer; a
    /// no-op on an empty buffer, the submit button, or nothing focused.
    pub fn backspace_focused(&mut self)
        requires
            old(self).wf(),
        ensures
            final(self).wf(),
            final(self).active_tab == old(self).active_tab,
            final(self).stage == old(self).stage,
            final(self).tabs == old(self).tabs,
            final(self).control_focused == old(self).control_focused,
            final(self).task_name_input.focused() == old(self).task_name_input.focused(),
            final(self).task_end_comment_input.focused() == old(self).task_end_comment_input.focused(),
            final(self).submit_btn.focused() == old(self).submit_btn.focused(),
            old(self).control_focused == Some(ControlId::TaskName) ==> {
                &&& final(self).name_buffer() == (if old(self).name_buffer().len() == 0 {
                    old(self).name_buffer()
                } else {
                    old(self).name_buffer().drop_last()
                })
                &&& final(self).comment_buffer() == old(self).comment_buffer()
            },
            old(self).control_focused == Some(ControlId::EndComment) ==> {
                &&& final(self).comment_buffer() == (if old(self).comment_buffer().len() == 0 {
                    old(self).comment_buffer()
                } else {
                    old(self).comment_buffer().drop_last()
                })
                &&& final(self).name_buffer() == old(self).name_buffer()
            },
            old(self).control_focused == Some(ControlId::Submit) || old(self).control_focused is None ==> *final(self) == *old(self),
    {
        match self.control_focused {
            Some(ControlId::TaskName) => {
                match &mut self.task_name_input {
                    Control::TaskNameInput(state) => state.remove_last_char_from_input(),
                    _ => {}
                }
            }
            Some(ControlId::EndComment) => {
                match &mut self.task_end_comment_input {
                    Control::EndCommentInput(state) => state.remove_last_char_from_input(),
                    _ => {}
                }
            }
            _ => {}
        }
    }

    /// Decides at run time whether this state satisfies the structural and
    /// focus invariants the navigation operations rely on; callers outside
    /// the verified library test this before handing the state in.
    pub fn invariant_holds(&self) -> (r: bool)
        ensures
            r == (self.wf() && self.focus_in_tab()),
    {
        let structural = self.active_tab < 5 && self.tabs.len() == 5 && matches!(
            self.task_name_input,
            Control::TaskNameInput(_),
        ) && matches!(self.task_end_comment_input, Control::EndCommentInput(_)) && matches!(
            self.submit_btn,
            Control::SubmitBtn(_),
        );
        if !structural {
            return false;
        }
        proof {
            assert(Tab::Start.controls()[0] == ControlId::TaskName);
            assert(Tab::Start.controls()[1] == ControlId::EndComment);
            assert(Tab::Start.controls()[2] == ControlId::Submit);
            assert(Tab::Out.controls()[0] == ControlId::EndComment);
            assert(Tab::Out.controls()[1] == ControlId::Submit);
            assert(Tab::End.controls()[0] == ControlId::EndComment);
            assert(Tab::End.controls()[1] == ControlId::Submit);
            assert(Tab::ClearState.controls()[0] == ControlId::Submit);
        }
        let tab = Tab::from_index(self.active_tab);
        match (tab, self.control_focused) {
            (Tab::Home, None) => true,
            (Tab::Start, Some(_)) => true,
            (Tab::Out, Some(ControlId::EndComment)) => true,
            (Tab::Out, Some(ControlId::Submit)) => true,
            (Tab::End, Some(ControlId::EndComment)) => true,
            (Tab::End, Some(ControlId::Submit)) => true,
            (Tab::ClearState, Some(ControlId::Submit)) => true,
            _ => false,
        }
    }

    /// The task-name buffer as the new task's name; rejects an empty
    /// buffer.
    pub fn get_task_name_input(&self) -> (r: Result<String, crate::errors::AppError>)
        requires
            self.wf(),
        ensures
            match r {
                Ok(s) => s@ == self.name_buffer() && s@.len() > 0,
                Err(e) => e == crate::errors::AppError::Validation && self.name_buffer().len()
                    == 0,
            },
    {
        match &self.task_name_input {
            Control::TaskNameInput(state) => {
                if state.input.as_str().is_empty() {
                    Err(crate::errors::AppError::Validation)
                } else {
                    Ok(state.input.clone())
                }
            }
            _ => Err(crate::errors::AppError::Validation),
        }
    }

    /// The end-comment buffer as the completion message; an empty buffer
    /// means no message.
    pub fn get_end_comment_input(&self) -> (r: Option<String>)
        requires
            self.wf(),
        ensures
            match r {
                Some(s) => s@ == self.comment_buffer() && s@.len() > 0,
                None => self.comment_buffer().len() == 0,
            },
    {
        match &self.task_end_comment_input {
            Control::EndCommentInput(state) => {
                if state.input.as_str().is_empty() {
                    None
                } else {
                    Some(state.input.clone())
                }
            }
            _ => None,
        }
    }
}

} // verus!
