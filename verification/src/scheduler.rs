//! The order of work inside one scheduled task.
//!
//! Scheduling a task yields an `Execution`: the steps that the unit of work
//! running the task has to take, one after another. The engine decides the
//! order here; whoever runs the unit performs each step as it is handed out.

use vstd::prelude::*;
use crate::handles::TaskHandle;

verus! {

/// One step of a scheduled task's unit of work.
#[derive(Clone, Copy, Debug, PartialEq, Eq, Structural)]
pub enum Step {
    /// Bind the task being run, and the engine, as the ambient ones of the unit.
    BindContext,
    /// Tell the task that its execution has started.
    Started,
    /// Run the task's body to completion.
    Execute,
    /// Let the task finalize, whatever the body produced.
    Finalize,
    /// Hand the body's result and the engine to the task.
    Completed,
}

/// The step that follows `step`, if any.
pub open spec fn step_after(step: Step) -> Option<Step> {
    match step {
        Step::BindContext => Some(Step::Started),
        Step::Started => Some(Step::Execute),
        Step::Execute => Some(Step::Finalize),
        Step::Finalize => Some(Step::Completed),
        Step::Completed => None,
    }
}

/// Every step of a scheduled task, in the order in which they are taken.
pub open spec fn full_plan() -> Seq<Step> {
    seq![Step::BindContext, Step::Started, Step::Execute, Step::Finalize, Step::Completed]
}

/// The steps from `next` onwards, in order.
pub open spec fn plan_from(next: Option<Step>) -> Seq<Step> {
    match next {
        Some(Step::BindContext) => full_plan(),
        Some(Step::Started) => full_plan().skip(1),
        Some(Step::Execute) => full_plan().skip(2),
        Some(Step::Finalize) => full_plan().skip(3),
        Some(Step::Completed) => full_plan().skip(4),
        None => Seq::empty(),
    }
}

/// The steps that one scheduled task still has to take. It cannot be copied,
/// and it only moves forward: no step is handed out twice.
#[derive(Debug, PartialEq, Eq)]
pub struct Execution {
    task: TaskHandle,
    next: Option<Step>,
}

impl Execution {
    /// The task that this unit of work runs.
    pub closed spec fn task(&self) -> TaskHandle {
        self.task
    }

    /// The step to take next; `None` once all were handed out.
    pub closed spec fn next_step(&self) -> Option<Step> {
        self.next
    }

    /// The steps not yet handed out, in order.
    pub open spec fn remaining(&self) -> Seq<Step> {
        plan_from(self.next_step())
    }

    /// Whether this is the unit of work of `task` before its first step.
    pub open spec fn unstarted(&self, task: TaskHandle) -> bool {
        self.task() == task && self.next_step() == Some(Step::BindContext)
    }

    /// A new unit of work for `task`, with every step ahead of it.
    pub fn new(task: TaskHandle) -> (run: Execution)
        ensures
            run.unstarted(task),
    {
        Execution { task, next: Some(Step::BindContext) }
    }

    /// The task that this unit of work runs.
    pub fn handle(&self) -> (task: TaskHandle)
        ensures
            task == self.task(),
    {
        self.task
    }

    /// Hands out the next step and moves past it; `None` once all five were
    /// handed out.
    pub fn advance(&mut self) -> (step: Option<Step>)
        ensures
            final(self).task() == old(self).task(),
            step == old(self).next_step(),
            final(self).next_step() == (match step {
                Some(taken) => step_after(taken),
                None => None,
            }),
    {
        let step = self.next;
        self.next =
        match step {
            Some(Step::BindContext) => Some(Step::Started),
            Some(Step::Started) => Some(Step::Execute),
            Some(Step::Execute) => Some(Step::Finalize),
            Some(Step::Finalize) => Some(Step::Completed),
            Some(Step::Completed) => None,
            None => None,
        };
        step
    }
}

/// The steps from any point are that point's step and then the steps from
/// the one after it: handing out a step shortens what remains by its first.
pub proof fn lemma_plan_unfolds(next: Option<Step>)
    ensures
        match next {
            Some(step) => plan_from(next) == seq![step] + plan_from(step_after(step)),
            None => plan_from(next) == Seq::<Step>::empty(),
        },
{
    match next {
        Some(step) => {
            assert(plan_from(next) =~= seq![step] + plan_from(step_after(step)));
        },
        None => {},
    }
}

/// An unstarted unit of work has the whole plan ahead of it, and the plan
/// binds the context first, runs the body exactly once, after the start hook,
/// and ends with finalize and then completion.
pub proof fn lemma_unstarted_execution_has_the_full_plan(run: Execution, task: TaskHandle)
    requires
        run.unstarted(task),
    ensures
        run.remaining() == full_plan(),
        full_plan().len() == 5,
        full_plan()[0] == Step::BindContext,
        full_plan()[1] == Step::Started,
        full_plan()[2] == Step::Execute,
        full_plan()[3] == Step::Finalize,
        full_plan()[4] == Step::Completed,
        forall|i: int| 0 <= i < 5 && full_plan()[i] == Step::Execute ==> i == 2,
{
}

/// A unit of work is no more than its task and its next step.
pub proof fn lemma_execution_is_its_task_and_step(a: Execution, b: Execution)
    requires
        a.task() == b.task(),
        a.next_step() == b.next_step(),
    ensures
        a == b,
{
}

} // verus!
