use vstd::prelude::*;
use crate::data::{InjectorError, InjectorReceiver, InjectorSender, LocalQueue, QueueError, DEFAULT_SIZE};

verus! {

/// What travels on the shared queue of the executor.
pub enum ExecutorMessage<T> {
    /// A task to poll.
    Task(T),
    /// The order to one worker to stop.
    Stop,
}

impl<T> ExecutorMessage<T> {
    /// The message that hands a task to the workers.
    pub fn task(task: T) -> (message: ExecutorMessage<T>)
        ensures
            message == ExecutorMessage::Task(task),
    {
        ExecutorMessage::Task(task)
    }

    /// The message that orders one worker to stop.
    pub fn stop() -> (message: ExecutorMessage<T>)
        ensures
            message == ExecutorMessage::<T>::Stop,
    {
        ExecutorMessage::Stop
    }
}

/// Where a task went when it was enqueued.
pub enum Placement<T> {
    /// Onto the worker's own queue.
    Local,
    /// Onto the shared queue, because the worker's own queue was full.
    Global,
    /// Nowhere: the worker's queue was full and the shared queue is closed.
    /// The task comes back.
    Lost(T),
}

/// One worker of the executor: its own bounded queue and the two ends of
/// the shared queue.
#[verifier::reject_recursive_types(T)]
pub struct Worker<T> {
    local: LocalQueue<T>,
    global_sender: InjectorSender<ExecutorMessage<T>>,
    global_receiver: InjectorReceiver<ExecutorMessage<T>>,
}

/// The task that a message from the shared queue brings: a stop order and
/// a closed queue bring none.
pub open spec fn task_in<T>(
    message: Result<ExecutorMessage<T>, InjectorError<ExecutorMessage<T>>>,
) -> Option<T> {
    match message {
        Ok(ExecutorMessage::Task(task)) => Some(task),
        _ => None,
    }
}

/// Reads what the shared queue handed over, as `task_in` says.
pub fn task_of<T>(message: Result<ExecutorMessage<T>, InjectorError<ExecutorMessage<T>>>) -> (r:
    Option<T>)
    ensures
        r == task_in(message),
{
    match message {
        Ok(ExecutorMessage::Task(task)) => Some(task),
        _ => None,
    }
}

/// Where a task ends up that did not fit the worker's own queue, given what
/// the shared queue answered to the send.
pub fn spilled<T>(sent: Result<(), InjectorError<ExecutorMessage<T>>>) -> (r: Placement<T>)
    ensures
        r == match sent {
            Ok(_) => Placement::<T>::Global,
            Err(InjectorError::Send(ExecutorMessage::Task(task))) => Placement::Lost(task),
            Err(_) => Placement::<T>::Global,
        },
{
    match sent {
        Ok(_) => Placement::Global,
        Err(InjectorError::Send(ExecutorMessage::Task(task))) => Placement::Lost(task),
        Err(_) => Placement::Global,
    }
}

impl<T> Worker<T> {
    /// The tasks on the worker's own queue.
    pub closed spec fn local(&self) -> Seq<T> {
        self.local@
    }

    /// A worker with an empty queue of its own on the given shared queue.
    pub fn new(
        sender: InjectorSender<ExecutorMessage<T>>,
        receiver: InjectorReceiver<ExecutorMessage<T>>,
    ) -> (w: Worker<T>)
        ensures
            w.local() == Seq::<T>::empty(),
    {
        Worker { local: LocalQueue::new(), global_sender: sender, global_receiver: receiver }
    }

    /// Schedules a task from inside the worker: onto the worker's own queue
    /// while there is room, otherwise onto the shared queue.
    pub fn enqueue(&mut self, task: T) -> (r: Placement<T>)
        ensures
            old(self).local().len() < DEFAULT_SIZE ==> r == Placement::<T>::Local
                && final(self).local() == old(self).local().push(task),
            old(self).local().len() >= DEFAULT_SIZE ==> final(self).local() == old(self).local()
                && (r == Placement::<T>::Global || r == Placement::Lost(task)),
    {
        match self.local.push(task) {
            Ok(_) => Placement::Local,
            Err(QueueError::Push(task)) => spilled(
                self.global_sender.send(ExecutorMessage::task(task)),
            ),
            Err(QueueError::Empty) => Placement::Global,
        }
    }

    /// The next task to poll: the one enqueued last on the worker's own
    /// queue, or, when that queue is empty, what the shared queue hands
    /// over, for which the worker waits. Nothing comes back on a stop order
    /// and when the shared queue is closed: the worker then ends.
    pub fn pop_task(&mut self) -> (r: Option<T>)
        ensures
            old(self).local().len() > 0 ==> r == Some(old(self).local().last())
                && final(self).local() == old(self).local().drop_last(),
            old(self).local().len() == 0 ==> final(self).local() == old(self).local(),
    {
        match self.local.pop() {
            Ok(task) => Some(task),
            Err(_) => task_of(self.global_receiver.recv()),
        }
    }
}

} // verus!
