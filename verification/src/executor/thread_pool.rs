use vstd::prelude::*;
use crate::data::{InjectorError, InjectorReceiver, InjectorSender};
use super::worker::ExecutorMessage;

verus! {

/// Why the pool did not do what it was asked.
#[derive(Debug, Clone, Copy, PartialEq, Eq, Structural)]
pub enum PoolError {
    /// The task could not be handed to the workers: the pool has stopped.
    Spawn,
    /// A worker thread could not be joined.
    Join,
    /// The task was dropped before it completed.
    Block,
    /// The pool has no worker to stop, or a stop order could not be sent.
    Stop,
}

/// A handle to the pool of workers: the sending end of the shared queue
/// and the queue of the workers' join handles.
#[verifier::reject_recursive_types(T)]
#[verifier::reject_recursive_types(J)]
pub struct PoolHandle<T, J> {
    sender: InjectorSender<ExecutorMessage<T>>,
    handles: InjectorReceiver<J>,
}

/// What a spawn returns, given what the shared queue answered to the send.
pub fn spawned<T>(sent: Result<(), InjectorError<ExecutorMessage<T>>>) -> (r: Result<(), PoolError>)
    ensures
        r == match sent {
            Ok(_) => Ok::<(), PoolError>(()),
            Err(_) => Err::<(), PoolError>(PoolError::Spawn),
        },
{
    match sent {
        Ok(_) => Ok(()),
        Err(_) => Err(PoolError::Spawn),
    }
}

/// What a blocking call returns once its task is sent, given whether the
/// completion of the task was signalled.
pub open spec fn wait_result(done: bool) -> Result<(), PoolError> {
    if done {
        Ok(())
    } else {
        Err(PoolError::Block)
    }
}

/// What a blocking call returns once its task is sent: `Ok` when the wait
/// saw the completion of the task, `Block` when the task was dropped.
pub fn waited(done: bool) -> (r: Result<(), PoolError>)
    ensures
        r == wait_result(done),
{
    if done {
        Ok(())
    } else {
        Err(PoolError::Block)
    }
}

/// How a stop of the pool went.
#[derive(Debug, Clone, Copy, PartialEq, Eq, Structural)]
pub enum Stopping {
    /// No worker was there to stop.
    NoWorker,
    /// The shared queue refused a stop order.
    Refused,
    /// A worker did not end well.
    JoinFailed,
    /// Every worker whose handle was there was ordered to stop and joined.
    Joined,
}

/// What a stop returns, given how it went.
pub open spec fn stop_result(outcome: Stopping) -> Result<(), PoolError> {
    match outcome {
        Stopping::NoWorker => Err(PoolError::Stop),
        Stopping::Refused => Err(PoolError::Stop),
        Stopping::JoinFailed => Err(PoolError::Join),
        Stopping::Joined => Ok(()),
    }
}

/// What a stop returns, given how it went: `Stop` when no worker was there
/// or an order was refused, `Join` when a worker did not end well, `Ok`
/// when all were joined.
pub fn stopped(outcome: Stopping) -> (r: Result<(), PoolError>)
    ensures
        r == stop_result(outcome),
{
    match outcome {
        Stopping::NoWorker => Err(PoolError::Stop),
        Stopping::Refused => Err(PoolError::Stop),
        Stopping::JoinFailed => Err(PoolError::Join),
        Stopping::Joined => Ok(()),
    }
}

impl<T, J> PoolHandle<T, J> {
    /// The end of the shared queue onto which the handle puts tasks and
    /// stop orders.
    pub closed spec fn queue(&self) -> InjectorSender<ExecutorMessage<T>> {
        self.sender
    }

    /// The queue from which the handle takes the join handles of the workers.
    pub closed spec fn workers(&self) -> InjectorReceiver<J> {
        self.handles
    }

    /// A handle on the given shared queue and queue of join handles.
    pub fn new(sender: InjectorSender<ExecutorMessage<T>>, handles: InjectorReceiver<J>) -> (pool: PoolHandle<
        T,
        J,
    >)
        ensures
            pool.queue() == sender,
            pool.workers() == handles,
    {
        PoolHandle { sender, handles }
    }

    /// Hands a task to the workers: puts the task, as the message
    /// `ExecutorMessage::task` makes of it, on the shared queue. Fails with
    /// `Spawn` once the pool has stopped.
    pub fn spawn(&self, task: T) -> (r: Result<(), PoolError>)
        ensures
            r is Ok || r == Err::<(), PoolError>(PoolError::Spawn),
    {
        spawned(self.sender.send(ExecutorMessage::task(task)))
    }

    /// Hands a task to the workers, as `spawn` does, and waits for its
    /// completion. `wait` blocks until the completion is signalled and
    /// returns `true`, or returns `false` when the task was dropped without
    /// completing. It is not called when the task could not be sent. Once
    /// the task is sent the result is what `waited` makes of the wait.
    pub fn block_on<W: FnOnce() -> bool>(&self, task: T, wait: W) -> (r: Result<(), PoolError>)
        requires
            wait.requires(()),
        ensures
            r == Err::<(), PoolError>(PoolError::Spawn) || exists|done: bool|
                wait.ensures((), done) && r == wait_result(done),
            r is Ok ==> wait.ensures((), true),
    {
        match spawned(self.sender.send(ExecutorMessage::task(task))) {
            Err(e) => Err(e),
            Ok(_) => waited(wait()),
        }
    }

    /// Sends one stop order for each of `workers` workers, each as the
    /// message `ExecutorMessage::stop` makes. Returns whether every order
    /// was taken.
    fn order_stops(&self, workers: usize) -> bool {
        let mut sent: usize = 0;
        while sent < workers
            invariant
                sent <= workers,
            decreases workers - sent,
        {
            if self.sender.send(ExecutorMessage::stop()).is_err() {
                return false;
            }
            sent = sent + 1;
        }
        true
    }

    /// Joins the workers whose handles are there, `workers` of them at
    /// most. Returns whether each of them ended well; it stops at the first
    /// that did not.
    fn join_all<F: Fn(J) -> bool>(&self, workers: usize, join: F) -> (joined: bool)
        requires
            forall|handle: J| #[trigger] join.requires((handle,)),
        ensures
            !joined ==> exists|handle: J| join.ensures((handle,), false),
    {
        let mut left: usize = workers;
        while left > 0
            invariant
                forall|handle: J| #[trigger] join.requires((handle,)),
            decreases left,
        {
            match self.handles.try_recv() {
                Ok(handle) => {
                    if !join(handle) {
                        return false;
                    }
                },
                Err(_) => {
                    return true;
                },
            }
            left = left - 1;
        }
        true
    }

    /// How a stop went: the workers are counted, ordered to stop and joined.
    fn stopping<F: Fn(J) -> bool>(&self, join: F) -> (outcome: Stopping)
        requires
            forall|handle: J| #[trigger] join.requires((handle,)),
        ensures
            outcome == Stopping::JoinFailed ==> exists|handle: J| join.ensures((handle,), false),
    {
        if self.handles.is_empty() {
            return Stopping::NoWorker;
        }
        let workers = self.handles.len();
        if !self.order_stops(workers) {
            return Stopping::Refused;
        }
        if !self.join_all(workers, join) {
            return Stopping::JoinFailed;
        }
        Stopping::Joined
    }

    /// Stops the pool: sends one stop order for each worker and joins the
    /// workers. `join` waits for one worker and returns whether it ended
    /// well. The result is what `stopped` makes of how the stop went: it
    /// fails with `Stop` when no worker is left to stop or an order cannot
    /// be sent, and with `Join` at the first worker that did not end well.
    pub fn stop<F: Fn(J) -> bool>(&self, join: F) -> (r: Result<(), PoolError>)
        requires
            forall|handle: J| #[trigger] join.requires((handle,)),
        ensures
            exists|outcome: Stopping| r == stop_result(outcome),
            r is Ok || r == Err::<(), PoolError>(PoolError::Stop) || r == Err::<(), PoolError>(
                PoolError::Join,
            ),
            r == Err::<(), PoolError>(PoolError::Join) ==> exists|handle: J|
                join.ensures((handle,), false),
    {
        let outcome = self.stopping(join);
        let r = stopped(outcome);
        assert(r == stop_result(outcome));
        r
    }
}

impl<T, J> Clone for PoolHandle<T, J> {
    /// Another handle to the same pool.
    fn clone(&self) -> PoolHandle<T, J> {
        PoolHandle { sender: self.sender.clone(), handles: self.handles.clone() }
    }
}

} // verus!
