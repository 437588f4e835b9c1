//! The command dispatcher: interprets a submit in the context of the
//! active tab and the focused control, drives the session store, updates
//! the display stage, and tells the caller which single I/O step to
//! perform. The caller reports an export's outcome back through
//! `finish_export`.

use crate::control::{Control, ControlId};
use crate::errors::AppError;
use crate::state::{completed_record, journal_extends, DailyState, SessionView};
use crate::tabs::Tab;
use crate::task::TaskView;
use crate::ui::{AppStage, AppUiState};
use crate::utils::{names_of, set_task_name_from_previous_tasks, spec_recall};
use vstd::prelude::*;

verus! {

/// The I/O step the caller owes after a dispatcher operation. The
/// dispatcher itself never touches the disk.
#[derive(Clone, Copy, Debug, PartialEq, Eq, Structural)]
pub enum SubmitAction {
    DoNothing,
    SaveState,
    RunExport,
    DeleteStateFile,
}

/// The completion message the end-comment buffer holds: none when empty.
pub open spec fn spec_comment(ui: AppUiState) -> Option<Seq<char>> {
    if ui.comment_buffer().len() == 0 {
        None
    } else {
        Some(ui.comment_buffer())
    }
}

/// The journal after the open task (if any) is completed at `now` with the
/// end-comment buffer as message.
pub open spec fn journal_after_complete(
    state: SessionView,
    ui: AppUiState,
    now: u64,
) -> Seq<crate::task::DoneTaskView> {
    match state.current_task {
        Some(t) => state.completed_tasks.push(completed_record(t, spec_comment(ui), now)),
        None => state.completed_tasks,
    }
}

/// Interprets a submit on the active tab. Only a focused submit button
/// submits; with a text input focused this is a no-op, and on the start
/// tab an empty task name aborts the submit with the buffers retained.
pub fn submit(state: &mut DailyState, ui: &mut AppUiState, now_millis: u64) -> (r: Result<
    SubmitAction,
    AppError,
>)
    requires
        old(ui).wf(),
        old(ui).focus_in_tab(),
        old(state)@.wf(),
    ensures
        final(ui).wf(),
        final(ui).focus_in_tab(),
        final(state)@.wf(),
        final(ui).active_tab == old(ui).active_tab,
        final(ui).control_focused == old(ui).control_focused,
        final(ui).tabs == old(ui).tabs,
        old(ui).control_focused != Some(ControlId::Submit) ==> {
            &&& *final(state) == *old(state)
            &&& *final(ui) == *old(ui)
            &&& r == Ok::<SubmitAction, AppError>(SubmitAction::DoNothing)
        },
        old(ui).control_focused == Some(ControlId::Submit) ==> match old(ui).active_tab_spec() {
            Tab::Start => {
                if old(ui).name_buffer().len() == 0 {
                    &&& r == Err::<SubmitAction, AppError>(AppError::Validation)
                    &&& *final(state) == *old(state)
                    &&& *final(ui) == *old(ui)
                } else {
                    &&& r == Ok::<SubmitAction, AppError>(SubmitAction::SaveState)
                    &&& final(state)@.current_task == Some(
                        TaskView { name: old(ui).name_buffer(), dt_start: now_millis },
                    )
                    &&& final(state)@.completed_tasks == journal_after_complete(
                        old(state)@,
                        *old(ui),
                        now_millis,
                    )
                    &&& final(state)@.start_time == old(state)@.start_time
                    &&& final(state)@.end_time == old(state)@.end_time
                    &&& final(ui).stage == (if old(ui).stage == AppStage::Waiting {
                        AppStage::Working
                    } else {
                        old(ui).stage
                    })
                    &&& final(ui).buffers_clear()
                    &&& journal_extends(
                        old(state)@.completed_tasks,
                        final(state)@.completed_tasks,
                    )
                }
            },
            Tab::Out => {
                &&& r == Ok::<SubmitAction, AppError>(SubmitAction::SaveState)
                &&& final(state)@.current_task is None
                &&& final(state)@.completed_tasks == journal_after_complete(
                    old(state)@,
                    *old(ui),
                    now_millis,
                )
                &&& final(state)@.start_time == old(state)@.start_time
                &&& final(state)@.end_time == old(state)@.end_time
                &&& final(ui).stage == (if old(ui).stage == AppStage::Working {
                    AppStage::Paused
                } else {
                    old(ui).stage
                })
                &&& final(ui).buffers_clear()
                &&& journal_extends(old(state)@.completed_tasks, final(state)@.completed_tasks)
            },
            Tab::End => {
                &&& r == Ok::<SubmitAction, AppError>(SubmitAction::RunExport)
                &&& final(state)@.current_task is None
                &&& final(state)@.completed_tasks == journal_after_complete(
                    old(state)@,
                    *old(ui),
                    now_millis,
                )
                &&& final(state)@.start_time == old(state)@.start_time
                &&& final(state)@.end_time == old(state)@.end_time
                &&& final(ui).stage == old(ui).stage
                &&& final(ui).buffers_clear()
                &&& journal_extends(old(state)@.completed_tasks, final(state)@.completed_tasks)
            },
            Tab::ClearState => {
                &&& r == Ok::<SubmitAction, AppError>(SubmitAction::DeleteStateFile)
                &&& final(state)@ == SessionView::fresh(now_millis)
                &&& final(ui).stage == AppStage::Waiting
                &&& final(ui).buffers_clear()
            },
            Tab::Home => {
                &&& *final(state) == *old(state)
                &&& *final(ui) == *old(ui)
                &&& r == Ok::<SubmitAction, AppError>(SubmitAction::DoNothing)
            },
        },
{
    let is_submit = match ui.control_focused {
        Some(ControlId::Submit) => true,
        _ => false,
    };
    if !is_submit {
        return Ok(SubmitAction::DoNothing);
    }
    let tab = ui.get_active_tab();
    match tab {
        Tab::Start => {
            let name = match ui.get_task_name_input() {
                Ok(n) => n,
                Err(e) => {
                    return Err(e);
                }
            };
            let comment = ui.get_end_comment_input();
            let _ = state.complete_current_task(comment, now_millis);
            let _ = state.start_new_task(name, now_millis);
            if ui.stage == AppStage::Waiting {
                ui.stage = AppStage::Working;
            }
            ui.clear_inputs_state();
            Ok(SubmitAction::SaveState)
        }
        Tab::Out => {
            let comment = ui.get_end_comment_input();
            let _ = state.complete_current_task(comment, now_millis);
            state.current_task = None;
            if ui.stage == AppStage::Working {
                ui.stage = AppStage::Paused;
            }
            ui.clear_inputs_state();
            Ok(SubmitAction::SaveState)
        }
        Tab::End => {
            let comment = ui.get_end_comment_input();
            let _ = state.complete_current_task(comment, now_millis);
            ui.clear_inputs_state();
            Ok(SubmitAction::RunExport)
        }
        Tab::ClearState => {
            state.clear_todays_state(now_millis);
            ui.stage = AppStage::Waiting;
            ui.clear_inputs_state();
            Ok(SubmitAction::DeleteStateFile)
        }
        Tab::Home => Ok(SubmitAction::DoNothing),
    }
}

/// Finishes the End-tab flow once the export collaborator has reported:
/// on success the day is cleared and the stage returns to waiting; on
/// failure nothing changes and the day's data stays recoverable.
pub fn finish_export(
    state: &mut DailyState,
    ui: &mut AppUiState,
    export_ok: bool,
    now_millis: u64,
) -> (r: Result<SubmitAction, AppError>)
    requires
        old(ui).wf(),
    ensures
        final(ui).wf(),
        export_ok ==> {
            &&& r == Ok::<SubmitAction, AppError>(SubmitAction::DeleteStateFile)
            &&& final(state)@ == SessionView::fresh(now_millis)
            &&& final(ui).stage == AppStage::Waiting
            &&& final(ui).active_tab == old(ui).active_tab
            &&& final(ui).control_focused == old(ui).control_focused
            &&& final(ui).task_name_input == old(ui).task_name_input
            &&& final(ui).task_end_comment_input == old(ui).task_end_comment_input
            &&& final(ui).submit_btn == old(ui).submit_btn
            &&& final(ui).tabs == old(ui).tabs
        },
        !export_ok ==> {
            &&& r == Err::<SubmitAction, AppError>(AppError::Report)
            &&& *final(state) == *old(state)
            &&& *final(ui) == *old(ui)
        },
{
    if export_ok {
        state.clear_todays_state(now_millis);
        ui.stage = AppStage::Waiting;
        Ok(SubmitAction::DeleteStateFile)
    } else {
        Err(AppError::Report)
    }
}

/// The Up-key behavior: with the task-name input focused and a non-empty
/// journal, one recall step rewrites the buffer; otherwise focus moves
/// backward through the tab's controls.
pub fn recall_previous_task_name(ui: &mut AppUiState, state: &DailyState)
    requires
        old(ui).wf(),
        old(ui).focus_in_tab(),
    ensures
        final(ui).wf(),
        final(ui).focus_in_tab(),
        final(ui).active_tab == old(ui).active_tab,
        final(ui).stage == old(ui).stage,
        final(ui).tabs == old(ui).tabs,
        old(ui).control_focused == Some(ControlId::TaskName) && state@.completed_tasks.len() > 0
            ==> {
            &&& final(ui).control_focused == old(ui).control_focused
            &&& final(ui).name_buffer() == spec_recall(
                names_of(state.completed_tasks@),
                old(ui).name_buffer(),
            )
            &&& final(ui).comment_buffer() == old(ui).comment_buffer()
        },
        !(old(ui).control_focused == Some(ControlId::TaskName) && state@.completed_tasks.len()
            > 0) ==> {
            &&& final(ui).name_buffer() == old(ui).name_buffer()
            &&& final(ui).comment_buffer() == old(ui).comment_buffer()
            &&& (old(ui).active_tab_spec().controls().len() <= 1 ==> *final(ui) == *old(ui))
            &&& (old(ui).active_tab_spec().controls().len() > 1 ==> final(ui).control_focused
                == Some(
                crate::ui::spec_prev_focus(
                    old(ui).active_tab_spec(),
                    old(ui).control_focused->Some_0,
                ),
            ))
        },
{
    let is_name = match ui.control_focused {
        Some(ControlId::TaskName) => true,
        _ => false,
    };
    if is_name && state.completed_tasks.len() > 0 {
        match &mut ui.task_name_input {
            Control::TaskNameInput(input_state) => {
                set_task_name_from_previous_tasks(input_state, &state.completed_tasks);
            }
            _ => {}
        }
    } else {
        ui.switch_control_focus_backwards();
    }
}

} // verus!
