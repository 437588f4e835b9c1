//! The session store: one optional open task plus the append-only journal
//! of the day's completed tasks, with the lifecycle operations over them.
//!
//! The store is a plain value owned by one actor; Rust's exclusive `&mut`
//! borrows give the journal its one-writer-at-a-time discipline, and every
//! read sees a whole value, never a partially appended entry. The persisted
//! file is likewise assumed to have a single writing process at a time; two
//! processes sharing one path are unsupported and may corrupt it.

use crate::errors::AppError;
use crate::task::{view_opt_string, CompletedTask, DoneTaskView, NotCompletedTask, TaskView};
use vstd::prelude::*;

verus! {

/// Mathematical model of a whole session.
pub ghost struct SessionView {
    pub current_task: Option<TaskView>,
    pub completed_tasks: Seq<DoneTaskView>,
    pub start_time: u64,
    pub end_time: Option<u64>,
}

impl SessionView {
    /// Every journal entry ends no earlier than it starts.
    pub open spec fn wf(self) -> bool {
        forall|i: int| 0 <= i < self.completed_tasks.len() ==> self.completed_tasks[i].wf()
    }

    /// The session a day begins with: empty journal, no open task.
    pub open spec fn fresh(now: u64) -> SessionView {
        SessionView {
            current_task: None,
            completed_tasks: Seq::<DoneTaskView>::empty(),
            start_time: now,
            end_time: None,
        }
    }
}

/// `b` keeps every entry of `a`, in place and unchanged; entries may only
/// have been appended after them.
pub open spec fn journal_extends(a: Seq<DoneTaskView>, b: Seq<DoneTaskView>) -> bool {
    &&& a.len() <= b.len()
    &&& forall|i: int| 0 <= i < a.len() ==> b[i] == a[i]
}

/// The journal-extension order is transitive, so across any sequence of
/// operations that each only append, the journal's length never decreases
/// and no entry is ever rewritten.
pub proof fn lemma_journal_extends_trans(
    a: Seq<DoneTaskView>,
    b: Seq<DoneTaskView>,
    c: Seq<DoneTaskView>,
)
    requires
        journal_extends(a, b),
        journal_extends(b, c),
    ensures
        journal_extends(a, c),
{
}

/// The name a task is recorded under: the completion message, when there
/// is one, is folded in once, joined by ". ".
pub open spec fn folded_name(name: Seq<char>, msg: Option<Seq<char>>) -> Seq<char> {
    match msg {
        Some(m) => name + seq!['.', ' '] + m,
        None => name,
    }
}

/// The journal record an open task turns into when completed at `now` with
/// message `msg`.
pub open spec fn completed_record(t: TaskView, msg: Option<Seq<char>>, now: u64) -> DoneTaskView {
    DoneTaskView {
        name: folded_name(t.name, msg),
        dt_start: t.dt_start,
        dt_end: if now >= t.dt_start {
            now
        } else {
            t.dt_start
        },
        end_comment: msg,
    }
}

/// One tracked day: the open task, the journal, and the session bounds.
pub struct DailyState {
    pub current_task: Option<NotCompletedTask>,
    pub completed_tasks: Vec<CompletedTask>,
    pub start_time: u64,
    pub end_time: Option<u64>,
}

impl View for DailyState {
    type V = SessionView;

    open spec fn view(&self) -> SessionView {
        SessionView {
            current_task: match self.current_task {
                Some(t) => Some(t@),
                None => None,
            },
            completed_tasks: self.completed_tasks@.map_values(|t: CompletedTask| t@),
            start_time: self.start_time,
            end_time: self.end_time,
        }
    }
}

/// Folds a record's completion message into its name, once.
fn fold_comment(t: CompletedTask) -> (r: CompletedTask)
    ensures
        r@.name == folded_name(t@.name, t@.end_comment),
        r@.dt_start == t@.dt_start,
        r@.dt_end == t@.dt_end,
        r@.end_comment == t@.end_comment,
{
    match t.end_comment {
        Some(m) => {
            let mut name = t.name;
            name.append(". ");
            name.append(m.as_str());
            proof {
                reveal_strlit(". ");
                assert(". "@ =~= seq!['.', ' ']);
                assert(name@ =~= t.name@ + seq!['.', ' '] + m@);
            }
            CompletedTask { name, dt_start: t.dt_start, dt_end: t.dt_end, end_comment: Some(m) }
        }
        None => t,
    }
}

impl DailyState {
    /// A fresh session starting at the given time.
    pub fn init(now_millis: u64) -> (r: DailyState)
        ensures
            r@ == SessionView::fresh(now_millis),
            r@.wf(),
    {
        let r = DailyState {
            current_task: None,
            completed_tasks: Vec::new(),
            start_time: now_millis,
            end_time: None,
        };
        proof {
            assert(r@.completed_tasks =~= Seq::<DoneTaskView>::empty());
        }
        r
    }

    /// If a task is open, completes it at `now_millis`, folds the message
    /// into its name, and appends it to the journal; with no open task this
    /// is a no-op success. Never fails, and never removes or rewrites a
    /// journal entry.
    pub fn complete_current_task(
        &mut self,
        task_completion_message: Option<String>,
        now_millis: u64,
    ) -> (r: Result<(), AppError>)
        ensures
            r is Ok,
            final(self)@.current_task is None,
            final(self)@.start_time == old(self)@.start_time,
            final(self)@.end_time == old(self)@.end_time,
            old(self)@.current_task is None ==> final(self)@.completed_tasks == old(self)@.completed_tasks,
            old(self)@.current_task is Some ==> final(self)@.completed_tasks == old(self)@.completed_tasks.push(
                completed_record(
                    old(self)@.current_task->Some_0,
                    view_opt_string(task_completion_message),
                    now_millis,
                ),
            ),
            journal_extends(old(self)@.completed_tasks, final(self)@.completed_tasks),
            old(self)@.wf() ==> final(self)@.wf(),
    {
        let task_to_complete = self.current_task.take();
        match task_to_complete {
            None => Ok(()),
            Some(task) => {
                let completed = task.complete_task(task_completion_message, now_millis);
                let completed = fold_comment(completed);
                self.completed_tasks.push(completed);
                proof {
                    assert(self@.completed_tasks =~= old(self)@.completed_tasks.push(
                        completed_record(
                            old(self)@.current_task->Some_0,
                            view_opt_string(task_completion_message),
                            now_millis,
                        ),
                    ));
                }
                Ok(())
            }
        }
    }

    /// Opens a new task named by a non-empty `name`, started at
    /// `now_millis`; any task still open is replaced (the dispatcher
    /// completes it first). An empty name is rejected and nothing changes.
    pub fn start_new_task(&mut self, name: String, now_millis: u64) -> (r: Result<(), AppError>)
        ensures
            name@.len() == 0 ==> r == Result::<(), AppError>::Err(AppError::Validation) && *final(self) == *old(self),
            name@.len() > 0 ==> {
                &&& r is Ok
                &&& final(self)@.current_task == Some(
                    TaskView { name: name@, dt_start: now_millis },
                )
                &&& final(self)@.completed_tasks == old(self)@.completed_tasks
                &&& final(self)@.start_time == old(self)@.start_time
                &&& final(self)@.end_time == old(self)@.end_time
            },
            journal_extends(old(self)@.completed_tasks, final(self)@.completed_tasks),
            old(self)@.wf() ==> final(self)@.wf(),
    {
        if name.as_str().is_empty() {
            return Err(AppError::Validation);
        }
        self.current_task = Some(NotCompletedTask::start(name, now_millis));
        Ok(())
    }

    /// Resets the session to a fresh one starting at `now_millis`. The
    /// in-memory reset always happens; deleting the persisted file is the
    /// caller's separate step, so a failed deletion cannot wedge the
    /// in-memory state.
    pub fn clear_todays_state(&mut self, now_millis: u64)
        ensures
            final(self)@ == SessionView::fresh(now_millis),
            final(self)@.wf(),
    {
        self.current_task = None;
        self.completed_tasks = Vec::new();
        self.start_time = now_millis;
        self.end_time = None;
        proof {
            assert(self@.completed_tasks =~= Seq::<DoneTaskView>::empty());
        }
    }

    /// Decides at run time whether every journal entry is well formed;
    /// callers outside the verified library test this before handing a
    /// session in.
    pub fn invariant_holds(&self) -> (r: bool)
        ensures
            r == self@.wf(),
    {
        let n = self.completed_tasks.len();
        let mut i: usize = 0;
        while i < n
            invariant
                n == self.completed_tasks@.len(),
                i <= n,
                forall|k: int| 0 <= k < i ==> self@.completed_tasks[k].wf(),
            decreases n - i,
        {
            let task = &self.completed_tasks[i];
            if task.dt_end < task.dt_start {
                assert(!self@.completed_tasks[i as int].wf());
                return false;
            }
            i += 1;
        }
        true
    }

    /// The session serialized for the persisted state file; writing those
    /// bytes to disk is the caller's step. Loading the result back yields
    /// this very session.
    pub fn save(&self) -> (r: String)
        ensures
            r@ == crate::codec::spec_serialize(self@),
            self@.wf() ==> crate::codec::spec_parse_session(r@) == Some(self@),
    {
        crate::codec::serialize_session(self)
    }

    /// The session persisted in `file_contents`, or — when the file was
    /// absent or its contents do not parse — a fresh session starting at
    /// `now_millis`. The flag says a fresh session was made, so the caller
    /// persists it at once. A bad state file never surfaces an error here.
    pub fn load_or_init(file_contents: Option<&str>, now_millis: u64) -> (r: (DailyState, bool))
        ensures
            r.0@.wf(),
            match file_contents {
                Some(s) => match crate::codec::spec_parse_session(s@) {
                    Some(v) => r.0@ == v && r.1 == false,
                    None => r.0@ == SessionView::fresh(now_millis) && r.1 == true,
                },
                None => r.0@ == SessionView::fresh(now_millis) && r.1 == true,
            },
    {
        match file_contents {
            Some(s) => {
                proof {
                    crate::codec::lemma_parse_session_wf(s@);
                }
                match crate::codec::parse_session(s) {
                    Some(state) => (state, false),
                    None => (DailyState::init(now_millis), true),
                }
            }
            None => (DailyState::init(now_millis), true),
        }
    }

    /// A read-only snapshot of the journal, handed to the report exporter;
    /// the journal itself is not touched.
    pub fn export(&self) -> (r: Vec<CompletedTask>)
        ensures
            r@.len() == self@.completed_tasks.len(),
            forall|i: int| 0 <= i < r@.len() ==> r@[i]@ == self@.completed_tasks[i],
    {
        let mut out: Vec<CompletedTask> = Vec::new();
        let n = self.completed_tasks.len();
        let mut i: usize = 0;
        while i < n
            invariant
                n == self.completed_tasks@.len(),
                i <= n,
                out@.len() == i,
                forall|k: int| 0 <= k < i ==> out@[k]@ == self@.completed_tasks[k],
            decreases n - i,
        {
            out.push(self.completed_tasks[i].duplicate());
            i += 1;
        }
        out
    }
}

} // verus!
