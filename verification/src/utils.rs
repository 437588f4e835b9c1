//! Helpers over the session: the journal-name snapshot, the total working
//! time, and the previous-task-name recall used by the task-name input.

use crate::control::Input;
use crate::state::{DailyState, SessionView};
use crate::task::{CompletedTask, DoneTaskView, TaskView};
use vstd::prelude::*;

verus! {

/// The journal's task names, oldest to newest.
pub open spec fn names_of(tasks: Seq<CompletedTask>) -> Seq<Seq<char>> {
    tasks.map_values(|t: CompletedTask| t.name@)
}

/// The task names of the journal, oldest to newest.
pub fn get_complited_tasks_names(state: &DailyState) -> (r: Vec<String>)
    ensures
        r@.len() == state@.completed_tasks.len(),
        forall|i: int| 0 <= i < r@.len() ==> r@[i]@ == state@.completed_tasks[i].name,
{
    let mut r: Vec<String> = Vec::new();
    let n = state.completed_tasks.len();
    let mut i: usize = 0;
    while i < n
        invariant
            n == state.completed_tasks@.len(),
            i <= n,
            r@.len() == i,
            forall|k: int| 0 <= k < i ==> r@[k]@ == state@.completed_tasks[k].name,
        decreases n - i,
    {
        r.push(state.completed_tasks[i].name.clone());
        i += 1;
    }
    r
}

/// The index of the first entry of `names` from position `i` on that
/// equals `b`, if any.
pub open spec fn first_match_from(names: Seq<Seq<char>>, b: Seq<char>, i: int) -> Option<int>
    decreases names.len() - i when i >= 0
{
    if i >= names.len() {
        None
    } else if names[i] == b {
        Some(i)
    } else {
        first_match_from(names, b, i + 1)
    }
}

/// What one recall step puts into the task-name buffer: from the oldest
/// matching entry it wraps to an empty buffer, from a later matching entry
/// it steps one entry further back in time, and from an unmatched buffer
/// it jumps to the most recent name.
pub open spec fn spec_recall(names: Seq<Seq<char>>, b: Seq<char>) -> Seq<char>
    recommends
        names.len() > 0,
{
    match first_match_from(names, b, 0) {
        Some(i) => if i == 0 {
            Seq::<char>::empty()
        } else {
            names[i - 1]
        },
        None => names[names.len() - 1],
    }
}

proof fn lemma_first_match_skip(names: Seq<Seq<char>>, b: Seq<char>, i: int, j: int)
    requires
        0 <= i <= j <= names.len(),
        forall|k: int| i <= k < j ==> names[k] != b,
    ensures
        first_match_from(names, b, i) == first_match_from(names, b, j),
    decreases j - i,
{
    if i < j {
        lemma_first_match_skip(names, b, i + 1, j);
    }
}

/// One backward step through task-name history: replaces the buffer as
/// `spec_recall` says, leaving the focus flag alone.
pub fn set_task_name_from_previous_tasks(
    input_state: &mut Input,
    completed_tasks: &Vec<CompletedTask>,
)
    requires
        completed_tasks@.len() > 0,
    ensures
        final(input_state).is_focused == old(input_state).is_focused,
        final(input_state).input@ == spec_recall(
            names_of(completed_tasks@),
            old(input_state).input@,
        ),
{
    let ghost names = names_of(completed_tasks@);
    let n = completed_tasks.len();
    let mut i: usize = 0;
    while i < n
        invariant
            n == completed_tasks@.len(),
            i <= n,
            names == names_of(completed_tasks@),
            forall|k: int| 0 <= k < i ==> names[k] != input_state.input@,
            *input_state == *old(input_state),
        decreases n - i,
    {
        if completed_tasks[i].name == input_state.input {
            proof {
                lemma_first_match_skip(names, input_state.input@, 0, i as int);
                assert(first_match_from(names, input_state.input@, i as int) == Some(i as int));
            }
            if i == 0 {
                input_state.input = String::new();
            } else {
                input_state.input = completed_tasks[i - 1].name.clone();
            }
            return;
        }
        i += 1;
    }
    proof {
        lemma_first_match_skip(names, input_state.input@, 0, n as int);
        assert(first_match_from(names, input_state.input@, 0) is None);
    }
    input_state.input = completed_tasks[n - 1].name.clone();
}

/// The working time a journal records, in milliseconds.
pub open spec fn spec_journal_millis(tasks: Seq<DoneTaskView>) -> int
    decreases tasks.len(),
{
    if tasks.len() == 0 {
        0
    } else {
        spec_journal_millis(tasks.drop_last()) + (tasks.last().dt_end - tasks.last().dt_start)
    }
}

/// The working time the open task has accumulated by `now`; a clock that
/// moved backwards counts as no time at all.
pub open spec fn spec_open_task_millis(t: Option<TaskView>, now: u64) -> int {
    match t {
        Some(t) => if now >= t.dt_start {
            now - t.dt_start
        } else {
            0
        },
        None => 0,
    }
}

/// The whole session's working time by `now`, in milliseconds.
pub open spec fn spec_total_millis(v: SessionView, now: u64) -> int {
    spec_journal_millis(v.completed_tasks) + spec_open_task_millis(v.current_task, now)
}

proof fn lemma_journal_millis_step(tasks: Seq<DoneTaskView>, i: int)
    requires
        0 <= i < tasks.len(),
    ensures
        spec_journal_millis(tasks.take(i + 1)) == spec_journal_millis(tasks.take(i)) + (
        tasks[i].dt_end - tasks[i].dt_start),
{
    assert(tasks.take(i + 1).drop_last() =~= tasks.take(i));
    assert(tasks.take(i + 1).last() == tasks[i]);
}

proof fn lemma_journal_millis_nonneg(tasks: Seq<DoneTaskView>)
    requires
        forall|i: int| 0 <= i < tasks.len() ==> tasks[i].wf(),
    ensures
        spec_journal_millis(tasks) >= 0,
    decreases tasks.len(),
{
    if tasks.len() > 0 {
        assert(forall|i: int|
            0 <= i < tasks.drop_last().len() ==> tasks.drop_last()[i] == tasks[i]);
        lemma_journal_millis_nonneg(tasks.drop_last());
    }
}

/// The session's total working time by `now_millis`, in milliseconds,
/// saturating at the largest representable value. Display code turns this
/// into hours.
pub fn calculate_total_working_millis(state: &DailyState, now_millis: u64) -> (r: u64)
    requires
        state@.wf(),
    ensures
        r as int == if spec_total_millis(state@, now_millis) <= u64::MAX {
            spec_total_millis(state@, now_millis)
        } else {
            u64::MAX as int
        },
{
    let ghost journal = state@.completed_tasks;
    let mut acc: u64 = 0;
    let n = state.completed_tasks.len();
    let mut i: usize = 0;
    proof {
        assert(journal.take(0) =~= Seq::<DoneTaskView>::empty());
    }
    while i < n
        invariant
            state@.wf(),
            journal == state@.completed_tasks,
            n == state.completed_tasks@.len(),
            n == journal.len(),
            i <= n,
            spec_journal_millis(journal.take(i as int)) >= 0,
            acc as int == if spec_journal_millis(journal.take(i as int)) <= u64::MAX {
                spec_journal_millis(journal.take(i as int))
            } else {
                u64::MAX as int
            },
        decreases n - i,
    {
        let task = &state.completed_tasks[i];
        proof {
            assert(journal[i as int] == state.completed_tasks@[i as int]@);
            assert(journal[i as int].wf());
            lemma_journal_millis_step(journal, i as int);
        }
        let diff: u64 = task.dt_end - task.dt_start;
        if acc > u64::MAX - diff {
            acc = u64::MAX;
        } else {
            acc = acc + diff;
        }
        i += 1;
    }
    proof {
        assert(journal.take(n as int) =~= journal);
    }
    match &state.current_task {
        Some(task) => {
            if now_millis >= task.dt_start {
                let diff: u64 = now_millis - task.dt_start;
                if acc > u64::MAX - diff {
                    acc = u64::MAX;
                } else {
                    acc = acc + diff;
                }
            }
            proof {
                lemma_journal_millis_nonneg(journal);
            }
            acc
        }
        None => {
            acc
        }
    }
}

} // verus!
