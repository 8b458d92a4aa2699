use vstd::prelude::*;
use crate::data::DEFAULT_SIZE;
use crate::executor::{
    stop_result, wait_result, Placement, PoolError, PoolHandle, Stopping, Worker,
};

verus! {

/// Why the runtime context did not do what it was asked.
#[derive(Debug, Clone, Copy, PartialEq, Eq, Structural)]
pub enum ContextError {
    /// The context holds no executor: the runtime was not started here.
    NotStarted,
    /// The executor failed.
    Pool(PoolError),
}

/// The result of the executor as the context hands it on.
pub open spec fn handed_on(r: Result<(), PoolError>) -> Result<(), ContextError> {
    match r {
        Ok(_) => Ok(()),
        Err(e) => Err(ContextError::Pool(e)),
    }
}

/// Hands on a result of the executor: its error becomes the context's
/// error `Pool`.
pub fn from_pool(r: Result<(), PoolError>) -> (out: Result<(), ContextError>)
    ensures
        out == handed_on(r),
{
    match r {
        Ok(_) => Ok(()),
        Err(e) => Err(ContextError::Pool(e)),
    }
}

/// The runtime as one thread sees it: the handle to the executor and, on a
/// worker thread, the worker itself.
#[verifier::reject_recursive_types(T)]
#[verifier::reject_recursive_types(J)]
pub struct Context<T, J> {
    executor: Option<PoolHandle<T, J>>,
    worker: Option<Worker<T>>,
}

impl<T, J> Context<T, J> {
    /// Whether the context holds a handle to the executor.
    pub closed spec fn started(&self) -> bool {
        self.executor is Some
    }

    /// Whether the context belongs to a worker thread.
    pub closed spec fn on_worker(&self) -> bool {
        self.worker is Some
    }

    /// The tasks on the queue of the worker that the context belongs to;
    /// none outside a worker thread.
    pub closed spec fn local(&self) -> Seq<T> {
        match self.worker {
            Some(worker) => worker.local(),
            None => Seq::empty(),
        }
    }

    /// The context of a thread on which the runtime was not started.
    pub fn new() -> (c: Context<T, J>)
        ensures
            !c.started(),
            !c.on_worker(),
    {
        Context { executor: None, worker: None }
    }

    /// Whether the context holds a handle to the executor.
    pub fn is_started(&self) -> (r: bool)
        ensures
            r == self.started(),
    {
        self.executor.is_some()
    }

    /// Installs the handle to the executor.
    pub fn set_pool(&mut self, pool: PoolHandle<T, J>)
        ensures
            final(self).started(),
            final(self).on_worker() == old(self).on_worker(),
            final(self).local() == old(self).local(),
    {
        self.executor = Some(pool);
    }

    /// Installs the worker of this thread.
    pub fn set_worker(&mut self, worker: Worker<T>)
        ensures
            final(self).on_worker(),
            final(self).started() == old(self).started(),
            final(self).local() == worker.local(),
    {
        self.worker = Some(worker);
    }

    /// Schedules a task by the cheaper path: on a worker thread onto the
    /// worker's own queue, which spills onto the shared queue when it is
    /// full; elsewhere onto the shared queue. Fails with `NotStarted` where
    /// the runtime was not started, and with `Spawn` when the shared queue
    /// was needed and is closed.
    pub fn spawn(&mut self, task: T) -> (r: Result<(), ContextError>)
        ensures
            final(self).started() == old(self).started(),
            final(self).on_worker() == old(self).on_worker(),
            !old(self).on_worker() && !old(self).started() ==> r == Err::<(), ContextError>(
                ContextError::NotStarted,
            ),
            old(self).on_worker() || old(self).started() ==> r is Ok || r == Err::<
                (),
                ContextError,
            >(ContextError::Pool(PoolError::Spawn)),
            old(self).on_worker() && old(self).local().len() < DEFAULT_SIZE ==> r is Ok
                && final(self).local() == old(self).local().push(task),
            !(old(self).on_worker() && old(self).local().len() < DEFAULT_SIZE)
                ==> final(self).local() == old(self).local(),
    {
        let mut worker: Option<Worker<T>> = None;
        std::mem::swap(&mut worker, &mut self.worker);
        match worker {
            Some(mut w) => {
                let placed = w.enqueue(task);
                self.worker = Some(w);
                match placed {
                    Placement::Lost(_) => Err(ContextError::Pool(PoolError::Spawn)),
                    _ => Ok(()),
                }
            },
            None => match &self.executor {
                Some(pool) => from_pool(pool.spawn(task)),
                None => Err(ContextError::NotStarted),
            },
        }
    }

    /// The next task for the worker of this thread to poll, as
    /// `Worker::pop_task` finds it; nothing outside a worker thread.
    pub fn pop_task(&mut self) -> (r: Option<T>)
        ensures
            final(self).started() == old(self).started(),
            final(self).on_worker() == old(self).on_worker(),
            !old(self).on_worker() ==> r is None,
            old(self).local().len() > 0 ==> r == Some(old(self).local().last())
                && final(self).local() == old(self).local().drop_last(),
            old(self).local().len() == 0 ==> final(self).local() == old(self).local(),
    {
        let mut worker: Option<Worker<T>> = None;
        std::mem::swap(&mut worker, &mut self.worker);
        match worker {
            Some(mut w) => {
                let task = w.pop_task();
                self.worker = Some(w);
                task
            },
            None => None,
        }
    }

    /// Schedules a task on the shared queue and waits for its completion,
    /// as `PoolHandle::block_on` does, whose result is handed on. Fails with
    /// `NotStarted`, without calling `wait`, where the runtime was not started.
    pub fn block_on<W: FnOnce() -> bool>(&self, task: T, wait: W) -> (r: Result<(), ContextError>)
        requires
            wait.requires(()),
        ensures
            !self.started() ==> r == Err::<(), ContextError>(ContextError::NotStarted),
            self.started() ==> r == Err::<(), ContextError>(ContextError::Pool(PoolError::Spawn))
                || exists|done: bool| wait.ensures((), done) && r == handed_on(wait_result(done)),
            r is Ok ==> self.started() && wait.ensures((), true),
    {
        match &self.executor {
            Some(pool) => from_pool(pool.block_on(task, wait)),
            None => Err(ContextError::NotStarted),
        }
    }

    /// Stops the executor, as `PoolHandle::stop` does, whose result is
    /// handed on. Fails with `NotStarted`, without calling `join`, where the
    /// runtime was not started.
    pub fn stop<F: Fn(J) -> bool>(&self, join: F) -> (r: Result<(), ContextError>)
        requires
            forall|handle: J| #[trigger] join.requires((handle,)),
        ensures
            !self.started() ==> r == Err::<(), ContextError>(ContextError::NotStarted),
            self.started() ==> exists|outcome: Stopping| r == handed_on(stop_result(outcome)),
            r == Err::<(), ContextError>(ContextError::Pool(PoolError::Join)) ==> exists|handle: J|
                join.ensures((handle,), false),
            r is Ok ==> self.started(),
    {
        match &self.executor {
            Some(pool) => from_pool(pool.stop(join)),
            None => Err(ContextError::NotStarted),
        }
    }
}

} // verus!
