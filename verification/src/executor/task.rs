use vstd::prelude::*;

verus! {

/// Where a task is in its life.
#[derive(Debug, Clone, Copy, PartialEq, Eq, Structural)]
pub enum TaskLife {
    /// The task holds its future and waits to be polled.
    Suspended,
    /// A worker has taken the future and polls it.
    Running,
    /// The future has completed; the task holds nothing.
    Done,
}

/// What a poll of a future returned.
#[derive(Debug, Clone, Copy, PartialEq, Eq, Structural)]
pub enum PollOutcome {
    Pending,
    Ready,
}

/// What the worker does with a task after a poll.
#[derive(Debug, Clone, Copy, PartialEq, Eq, Structural)]
pub enum AfterPoll {
    /// Put the future back into the task; a wake-up will schedule it again.
    Store,
    /// Signal the completion of the task to whoever waits for it.
    Notify,
    /// Nothing: the worker did not hold the future.
    Nothing,
}

/// What a worker does to a task.
#[derive(Debug, Clone, Copy, PartialEq, Eq, Structural)]
pub enum TaskEvent {
    /// A worker pops the task and tries to take its future.
    Take,
    /// The worker that holds the future has polled it, with this outcome.
    Settle(PollOutcome),
}

impl TaskLife {
    /// The state after a worker tries to take the future, and whether it
    /// got it: only a suspended task gives its future away.
    pub open spec fn taken(self) -> (TaskLife, bool) {
        if self == TaskLife::Suspended {
            (TaskLife::Running, true)
        } else {
            (self, false)
        }
    }

    /// The state after a poll, and what the worker does: a pending future
    /// goes back into the task, a completed one is signalled and gone.
    pub open spec fn settled(self, outcome: PollOutcome) -> (TaskLife, AfterPoll) {
        if self == TaskLife::Running {
            match outcome {
                PollOutcome::Pending => (TaskLife::Suspended, AfterPoll::Store),
                PollOutcome::Ready => (TaskLife::Done, AfterPoll::Notify),
            }
        } else {
            (self, AfterPoll::Nothing)
        }
    }

    /// The state after an event.
    pub open spec fn after(self, event: TaskEvent) -> TaskLife {
        match event {
            TaskEvent::Take => self.taken().0,
            TaskEvent::Settle(outcome) => self.settled(outcome).0,
        }
    }

    /// The state after a run of events.
    pub open spec fn after_all(self, events: Seq<TaskEvent>) -> TaskLife
        decreases events.len(),
    {
        if events.len() == 0 {
            self
        } else {
            self.after(events[0]).after_all(events.skip(1))
        }
    }

    /// A task that has just been spawned.
    pub fn new() -> (life: TaskLife)
        ensures
            life == TaskLife::Suspended,
    {
        TaskLife::Suspended
    }

    /// A worker tries to take the future. Returns whether it got it, in
    /// which case it polls.
    pub fn take(&mut self) -> (got: bool)
        ensures
            (*final(self), got) == old(self).taken(),
    {
        match self {
            TaskLife::Suspended => {
                *self = TaskLife::Running;
                true
            },
            _ => false,
        }
    }

    /// The worker reports the outcome of its poll and learns what to do.
    pub fn settle(&mut self, outcome: PollOutcome) -> (action: AfterPoll)
        ensures
            (*final(self), action) == old(self).settled(outcome),
    {
        match self {
            TaskLife::Running => match outcome {
                PollOutcome::Pending => {
                    *self = TaskLife::Suspended;
                    AfterPoll::Store
                },
                PollOutcome::Ready => {
                    *self = TaskLife::Done;
                    AfterPoll::Notify
                },
            },
            _ => AfterPoll::Nothing,
        }
    }

    /// Whether the task has completed.
    pub fn is_done(&self) -> (done: bool)
        ensures
            done == (*self == TaskLife::Done),
    {
        match self {
            TaskLife::Done => true,
            _ => false,
        }
    }
}

/// How often the completion of a task is signalled in a run of events.
pub open spec fn notifications(life: TaskLife, events: Seq<TaskEvent>) -> nat
    decreases events.len(),
{
    if events.len() == 0 {
        0
    } else {
        let signalled: nat = match events[0] {
            TaskEvent::Settle(outcome) => if life.settled(outcome).1 == AfterPoll::Notify {
                1
            } else {
                0
            },
            TaskEvent::Take => 0,
        };
        signalled + notifications(life.after(events[0]), events.skip(1))
    }
}

/// Completion is signalled exactly when the future has been polled to
/// completion, and exactly once: whatever the workers do to a task that has
/// not completed, in whatever order, the signal is given once if the task
/// ends up completed and not at all otherwise.
pub proof fn lemma_notified_once(life: TaskLife, events: Seq<TaskEvent>)
    requires
        life != TaskLife::Done,
    ensures
        notifications(life, events) == if life.after_all(events) == TaskLife::Done {
            1nat
        } else {
            0nat
        },
    decreases events.len(),
{
    if events.len() > 0 {
        let next = life.after(events[0]);
        if next == TaskLife::Done {
            lemma_done_stays_silent(events.skip(1));
        } else {
            lemma_notified_once(next, events.skip(1));
        }
    }
}

/// A completed task stays completed and is never signalled again.
pub proof fn lemma_done_stays_silent(events: Seq<TaskEvent>)
    ensures
        TaskLife::Done.after_all(events) == TaskLife::Done,
        notifications(TaskLife::Done, events) == 0,
    decreases events.len(),
{
    if events.len() > 0 {
        lemma_done_stays_silent(events.skip(1));
    }
}

} // verus!
