//! The background tasks: which steps each one runs against the machine,
//! and what it reports once they have run.

use vstd::prelude::*;
use crate::manager::{synced_message, synced_report};
use crate::model::{Registry, Snapshot, UpdateCandidate};
use crate::ui::{Task, WorkerResult};

verus! {

/// One piece of work against the machine.
#[derive(Debug)]
pub enum Step {
    /// Read the machine state.
    Snapshot,
    /// Scan every installation and write the registry.
    SyncRegistry,
    /// As `SyncRegistry`, but a failure does not fail the task.
    SyncRegistryTolerant,
    /// Install the latest LTS and make it the default.
    InstallLts,
    /// Install every registry package into the default Node.js.
    RestoreRegistry,
    /// Ask npm for newer versions of the default Node's packages.
    CheckUpdates,
    /// Install the latest version of a package.
    UpdatePackage(UpdateCandidate),
}

/// What a step produced.
#[derive(Debug)]
pub enum StepOutput {
    Snapshot(Snapshot),
    Registry(Registry),
    Message(String),
    Updates(Vec<UpdateCandidate>),
    /// A tolerated step failed.
    Skipped,
}

/// The steps of each task, in the order they run.
pub open spec fn task_steps_spec(task: Task) -> Seq<Step> {
    match task {
        Task::Refresh => seq![Step::Snapshot],
        Task::SyncRegistry => seq![Step::SyncRegistry, Step::Snapshot],
        Task::InstallLts => seq![Step::InstallLts, Step::SyncRegistryTolerant, Step::Snapshot],
        Task::RestoreRegistry => seq![Step::RestoreRegistry, Step::SyncRegistry, Step::Snapshot],
        Task::CheckUpdates => seq![Step::CheckUpdates],
        Task::UpdatePackage(c) => seq![Step::UpdatePackage(c), Step::SyncRegistry, Step::Snapshot],
    }
}

impl Step {
    /// Whether the task goes on when this step fails.
    pub fn tolerates_failure(&self) -> (r: bool)
        ensures
            r == (*self is SyncRegistryTolerant),
    {
        match self {
            Step::SyncRegistryTolerant => true,
            _ => false,
        }
    }
}

/// The steps that run a task.
pub fn task_steps(task: &Task) -> (r: Vec<Step>)
    ensures
        r@ == task_steps_spec(*task),
{
    let r = match task {
        Task::Refresh => vec![Step::Snapshot],
        Task::SyncRegistry => vec![Step::SyncRegistry, Step::Snapshot],
        Task::InstallLts => vec![Step::InstallLts, Step::SyncRegistryTolerant, Step::Snapshot],
        Task::RestoreRegistry => vec![Step::RestoreRegistry, Step::SyncRegistry, Step::Snapshot],
        Task::CheckUpdates => vec![Step::CheckUpdates],
        Task::UpdatePackage(c) => vec![Step::UpdatePackage(c.duplicate()), Step::SyncRegistry, Step::Snapshot],
    };
    proof {
        assert(r@ =~= task_steps_spec(*task));
    }
    r
}

/// What a task reports, given the outputs of its steps in order: `r` is
/// the report, or `None` when the outputs do not fit the task's steps.
pub open spec fn task_report(task: Task, outs: Seq<StepOutput>, r: Option<WorkerResult>) -> bool {
    match task {
        Task::Refresh => if outs.len() == 1 && outs[0] is Snapshot {
            r == Some(WorkerResult::Snapshot(outs[0]->Snapshot_0))
        } else {
            r is None
        },
        Task::SyncRegistry => if outs.len() == 2 && outs[0] is Registry && outs[1] is Snapshot {
            r matches Some(WorkerResult::Synced { snapshot, registry, message }) && snapshot == outs[1]->Snapshot_0
                && registry == outs[0]->Registry_0 && message@ == synced_message(registry.packages@.len())
        } else {
            r is None
        },
        Task::InstallLts => if outs.len() == 3 && outs[0] is Message && outs[2] is Snapshot {
            r == Some(WorkerResult::Message { snapshot: outs[2]->Snapshot_0, message: outs[0]->Message_0 })
        } else {
            r is None
        },
        Task::CheckUpdates => if outs.len() == 1 && outs[0] is Updates {
            r == Some(WorkerResult::Updates(outs[0]->Updates_0))
        } else {
            r is None
        },
        _ => if outs.len() == 3 && outs[0] is Message && outs[1] is Registry && outs[2] is Snapshot {
            r == Some(WorkerResult::Synced {
                snapshot: outs[2]->Snapshot_0,
                registry: outs[1]->Registry_0,
                message: outs[0]->Message_0,
            })
        } else {
            r is None
        },
    }
}

/// Assembles a task's report from the outputs of its steps.
pub fn run_task(task: &Task, outputs: Vec<StepOutput>) -> (r: Option<WorkerResult>)
    ensures
        task_report(*task, outputs@, r),
{
    let mut outs = outputs;
    match task {
        Task::Refresh => {
            if outs.len() == 1 {
                if let StepOutput::Snapshot(s) = outs.remove(0) {
                    return Some(WorkerResult::Snapshot(s));
                }
            }
            None
        },
        Task::SyncRegistry => {
            if outs.len() == 2 {
                let second = outs.remove(1);
                let first = outs.remove(0);
                if let (StepOutput::Registry(registry), StepOutput::Snapshot(snapshot)) = (first, second) {
                    let message = synced_report(registry.packages.len());
                    return Some(WorkerResult::Synced { snapshot, registry, message });
                }
            }
            None
        },
        Task::InstallLts => {
            if outs.len() == 3 {
                let third = outs.remove(2);
                let first = outs.remove(0);
                if let (StepOutput::Message(message), StepOutput::Snapshot(snapshot)) = (first, third) {
                    return Some(WorkerResult::Message { snapshot, message });
                }
            }
            None
        },
        Task::CheckUpdates => {
            if outs.len() == 1 {
                if let StepOutput::Updates(updates) = outs.remove(0) {
                    return Some(WorkerResult::Updates(updates));
                }
            }
            None
        },
        _ => {
            if outs.len() == 3 {
                let third = outs.remove(2);
                let second = outs.remove(1);
                let first = outs.remove(0);
                if let (StepOutput::Message(message), StepOutput::Registry(registry), StepOutput::Snapshot(snapshot)) = (
                    first,
                    second,
                    third,
                ) {
                    return Some(WorkerResult::Synced { snapshot, registry, message });
                }
            }
            None
        },
    }
}

/// What a run of a task has come to: the task, the outputs of the steps
/// that have run, and the error of a step that failed the task.
pub ghost struct RunState {
    pub task: Task,
    pub outputs: Seq<StepOutput>,
    pub failure: Option<Seq<char>>,
}

/// The step that runs next: none once a step has failed the task or every
/// step has run.
pub open spec fn pending_step(s: RunState) -> Option<Step> {
    if s.failure is None && s.outputs.len() < task_steps_spec(s.task).len() {
        Some(task_steps_spec(s.task)[s.outputs.len() as int])
    } else {
        None
    }
}

/// The outcome of a step, with the error by its text.
pub open spec fn outcome_view(outcome: Result<StepOutput, String>) -> Result<StepOutput, Seq<char>> {
    match outcome {
        Ok(o) => Ok(o),
        Err(e) => Err(e@),
    }
}

/// A run after the pending step came to `outcome`.  Its output is kept; a
/// step that tolerates failure and failed is recorded as skipped; any other
/// failure ends the task with its error, and no later step runs.  With no
/// step pending, nothing changes.
pub open spec fn record_spec(s: RunState, outcome: Result<StepOutput, Seq<char>>) -> RunState {
    match pending_step(s) {
        None => s,
        Some(step) => match outcome {
            Ok(o) => RunState { task: s.task, outputs: s.outputs.push(o), failure: None },
            Err(e) => if step is SyncRegistryTolerant {
                RunState { task: s.task, outputs: s.outputs.push(StepOutput::Skipped), failure: None }
            } else {
                RunState { task: s.task, outputs: s.outputs, failure: Some(e) }
            },
        },
    }
}

/// The text of the error reported when the outputs do not fit the task.
pub open spec fn unexpected_outputs_text() -> Seq<char> {
    "the task's steps gave unexpected results"@
}

/// What a finished run reports: the error of the step that failed the
/// task, else the task's report from the outputs, else an error saying
/// that the outputs did not fit.
pub open spec fn finish_spec(s: RunState, r: Result<WorkerResult, String>) -> bool {
    match s.failure {
        Some(e) => r matches Err(m) && m@ == e,
        None => match r {
            Ok(w) => task_report(s.task, s.outputs, Some(w)),
            Err(m) => task_report(s.task, s.outputs, None) && m@ == unexpected_outputs_text(),
        },
    }
}

/// A task in progress: its steps run one at a time against the machine,
/// and the run records what each came to.
pub struct TaskRun {
    task: Task,
    outputs: Vec<StepOutput>,
    failure: Option<String>,
}

impl View for TaskRun {
    type V = RunState;

    closed spec fn view(&self) -> RunState {
        RunState {
            task: self.task,
            outputs: self.outputs@,
            failure: match self.failure {
                Some(e) => Some(e@),
                None => None,
            },
        }
    }
}

impl TaskRun {
    /// A run of a task before any step.
    pub fn start(task: &Task) -> (r: TaskRun)
        ensures
            r@ == (RunState { task: *task, outputs: Seq::empty(), failure: None }),
    {
        let r = TaskRun { task: task.duplicate(), outputs: Vec::new(), failure: None };
        proof {
            assert(r@.outputs =~= Seq::<StepOutput>::empty());
        }
        r
    }

    /// The step to run next, if any.
    pub fn next_step(&self) -> (r: Option<Step>)
        ensures
            r == pending_step(self@),
    {
        if self.failure.is_some() {
            return None;
        }
        let mut steps = task_steps(&self.task);
        let done = self.outputs.len();
        if done < steps.len() {
            Some(steps.remove(done))
        } else {
            None
        }
    }

    /// Records what the pending step came to.
    pub fn record(&mut self, outcome: Result<StepOutput, String>)
        ensures
            final(self)@ == record_spec(old(self)@, outcome_view(outcome)),
    {
        match self.next_step() {
            None => {},
            Some(step) => match outcome {
                Ok(output) => self.outputs.push(output),
                Err(error) => {
                    if step.tolerates_failure() {
                        self.outputs.push(StepOutput::Skipped);
                    } else {
                        self.failure = Some(error);
                    }
                },
            },
        }
    }

    /// What the run reports once no step is pending.
    pub fn finish(self) -> (r: Result<WorkerResult, String>)
        ensures
            finish_spec(self@, r),
    {
        match self.failure {
            Some(error) => Err(error),
            None => match run_task(&self.task, self.outputs) {
                Some(report) => Ok(report),
                None => {
                    let message = String::from_str("the task's steps gave unexpected results");
                    proof {
                        reveal_strlit("the task's steps gave unexpected results");
                    }
                    Err(message)
                },
            },
        }
    }
}

/// A step that fails without tolerating failure ends its task: no later
/// step runs, and the task reports that step's error.
pub proof fn law_failed_step_ends_task(s: RunState, error: Seq<char>, report: Result<WorkerResult, String>)
    requires
        pending_step(s) matches Some(step) && !(step is SyncRegistryTolerant),
        finish_spec(record_spec(s, Err(error)), report),
    ensures
        pending_step(record_spec(s, Err(error))) is None,
        report matches Err(m) && m@ == error,
{
}

/// A tolerated failure does not stop the task: the step is recorded as
/// skipped and the run goes on to the next step.
pub proof fn law_tolerated_failure_continues(s: RunState, error: Seq<char>)
    requires
        pending_step(s) matches Some(step) && step is SyncRegistryTolerant,
    ensures
        record_spec(s, Err(error)).failure is None,
        record_spec(s, Err(error)).outputs == s.outputs.push(StepOutput::Skipped),
{
}

/// Whether `out` is what `step` gives when it succeeds: reading the
/// machine gives a snapshot, a registry sync gives the registry, an
/// installation, a restore or a package update gives a message, and an
/// update check gives the updates.
pub open spec fn succeeded_with(step: Step, out: StepOutput) -> bool {
    match step {
        Step::Snapshot => out is Snapshot,
        Step::SyncRegistry | Step::SyncRegistryTolerant => out is Registry,
        Step::InstallLts | Step::RestoreRegistry | Step::UpdatePackage(_) => out is Message,
        Step::CheckUpdates => out is Updates,
    }
}

/// Whether `outs` are what the steps of `task` give when each succeeds.
pub open spec fn all_steps_succeeded(task: Task, outs: Seq<StepOutput>) -> bool {
    &&& outs.len() == task_steps_spec(task).len()
    &&& forall|i: int| 0 <= i < outs.len() ==> succeeded_with(task_steps_spec(task)[i], #[trigger] outs[i])
}

/// A task whose every step succeeds runs its steps in order and reports
/// success: recording the outputs one by one from the start, each step in
/// turn is the one pending, and once all are recorded no step is pending
/// and the run finishes with `Ok`.
pub proof fn law_successful_steps_report_success(task: Task, outs: Seq<StepOutput>, r: Result<WorkerResult, String>)
    requires
        all_steps_succeeded(task, outs),
        finish_spec(RunState { task, outputs: outs, failure: None }, r),
    ensures
        forall|k: int| 0 <= k < outs.len() ==> {
            &&& pending_step(RunState { task, outputs: #[trigger] outs.take(k), failure: None })
                == Some(task_steps_spec(task)[k])
            &&& record_spec(RunState { task, outputs: outs.take(k), failure: None }, Ok(outs[k]))
                == (RunState { task, outputs: outs.take(k + 1), failure: None })
        },
        pending_step(RunState { task, outputs: outs, failure: None }) is None,
        r is Ok,
{
    assert forall|k: int| 0 <= k < outs.len() implies {
        &&& pending_step(RunState { task, outputs: #[trigger] outs.take(k), failure: None })
            == Some(task_steps_spec(task)[k])
        &&& record_spec(RunState { task, outputs: outs.take(k), failure: None }, Ok(outs[k]))
            == (RunState { task, outputs: outs.take(k + 1), failure: None })
    } by {
        assert(outs.take(k).push(outs[k]) =~= outs.take(k + 1));
    }
    if outs.len() > 0 {
        assert(succeeded_with(task_steps_spec(task)[0], outs[0]));
    }
    if outs.len() > 1 {
        assert(succeeded_with(task_steps_spec(task)[1], outs[1]));
    }
    if outs.len() > 2 {
        assert(succeeded_with(task_steps_spec(task)[2], outs[2]));
    }
}

} // verus!
