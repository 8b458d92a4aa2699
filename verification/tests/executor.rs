use mini_async_http::data::{global_injector, DEFAULT_SIZE};
use futures::future::{BoxFuture, FutureExt};
use mini_async_http::executor::{
    spawned, stopped, waited, AfterPoll, ExecutorMessage, Placement, PollOutcome, PoolError,
    PoolHandle, Stopping, TaskLife, Worker,
};
use mini_async_http::io::{from_pool, Context, ContextError};
use std::cell::RefCell;
use std::sync::mpsc;
use std::time::Duration;

type Job = BoxFuture<'static, ()>;

fn future_pool(size: usize) -> (PoolHandle<Job, usize>, Vec<Worker<Job>>) {
    let (sender, receiver) = global_injector();
    let (handle_sender, handle_receiver) = global_injector();
    let workers = (0..size)
        .map(|id| {
            handle_sender.send(id).unwrap();
            Worker::new(sender.clone(), receiver.clone())
        })
        .collect();
    (PoolHandle::new(sender, handle_receiver), workers)
}

fn pool() -> (PoolHandle<u32, u8>, Worker<u32>, mini_async_http::data::InjectorSender<u8>) {
    let (sender, receiver) = global_injector();
    let (handle_sender, handle_receiver) = global_injector();
    (PoolHandle::new(sender.clone(), handle_receiver), Worker::new(sender, receiver), handle_sender)
}

#[test]
fn a_spawned_task_reaches_a_worker() {
    let (pool, mut worker, _handles) = pool();
    pool.spawn(7).unwrap();
    pool.spawn(8).unwrap();
    assert_eq!(worker.pop_task(), Some(7));
    assert_eq!(worker.pop_task(), Some(8));
}

#[test]
fn block_on() {
    let (pool, mut workers) = future_pool(20);

    let (sender, receiver) = mpsc::channel();

    pool.block_on(
        async move {
            sender.send(3).unwrap();
        }
        .boxed(),
        || {
            let task = workers[0].pop_task().unwrap();
            futures::executor::block_on(task);
            true
        },
    )
    .expect("Error when spawning block on task");

    assert_eq!(receiver.try_recv().unwrap(), 3);
}

#[test]
fn spawn() {
    let size = 20;
    let (pool, mut workers) = future_pool(size);

    let (sender, receiver) = mpsc::channel();

    for _ in 0..size {
        let sender = sender.clone();
        pool.spawn(
            async move {
                sender.send(3).unwrap();
            }
            .boxed(),
        )
        .unwrap();
    }

    for worker in workers.iter_mut() {
        let task = worker.pop_task().unwrap();
        futures::executor::block_on(task);
    }

    for _ in 0..size {
        assert_eq!(receiver.recv_timeout(Duration::from_secs(1)).unwrap(), 3);
    }
}

#[test]
fn spawn_error() {
    let size = 20;
    let (pool, workers) = future_pool(size);
    let workers = RefCell::new(workers.into_iter().map(Some).collect::<Vec<_>>());

    assert!(pool
        .stop(|id: usize| {
            let mut worker = workers.borrow_mut()[id].take().unwrap();
            worker.pop_task().is_none()
        })
        .is_ok());

    let spawn = pool.spawn(async {}.boxed());
    match spawn {
        Err(PoolError::Spawn) => {}
        _ => panic!("Should be spawn error"),
    }

    let spawn = pool.block_on(async {}.boxed(), || true);
    match spawn {
        Err(PoolError::Spawn) => {}
        _ => panic!("Should be spawn error"),
    }
}

#[test]
fn double_stop() {
    let (pool, _worker, handles) = pool();
    for id in 0..20 {
        handles.send(id).unwrap();
    }

    assert!(pool.stop(|_| true).is_ok());
    let stop = pool.stop(|_| true);

    match stop {
        Err(PoolError::Stop) => {}
        _ => panic!("Should be stop error"),
    };
}

#[test]
fn stop_sends_one_order_for_each_worker_and_joins_them() {
    let (pool, mut worker, handles) = pool();
    for id in 0..3 {
        handles.send(id).unwrap();
    }
    let joined = std::cell::RefCell::new(Vec::new());
    assert_eq!(
        pool.stop(|id| {
            joined.borrow_mut().push(id);
            true
        }),
        Ok(())
    );
    assert_eq!(*joined.borrow(), vec![0, 1, 2]);
    for _ in 0..3 {
        assert_eq!(worker.pop_task(), None);
    }
}

#[test]
fn a_worker_that_did_not_end_well_fails_the_stop() {
    let (pool, _worker, handles) = pool();
    handles.send(1).unwrap();
    handles.send(2).unwrap();
    assert_eq!(pool.stop(|id| id != 1), Err(PoolError::Join));
}

#[test]
fn block_on_waits_for_the_completion() {
    let (pool, mut worker, _handles) = pool();
    let waited = std::cell::Cell::new(false);
    assert_eq!(
        pool.block_on(5, || {
            waited.set(true);
            true
        }),
        Ok(())
    );
    assert!(waited.get());
    assert_eq!(worker.pop_task(), Some(5));
    assert_eq!(pool.block_on(6, || false), Err(PoolError::Block));
}

#[test]
fn a_worker_prefers_its_own_queue_and_takes_the_newest_task() {
    let (pool, mut worker, _handles) = pool();
    pool.spawn(1).unwrap();
    assert!(matches!(worker.enqueue(2), Placement::Local));
    assert!(matches!(worker.enqueue(3), Placement::Local));
    assert_eq!(worker.pop_task(), Some(3));
    assert_eq!(worker.pop_task(), Some(2));
    assert_eq!(worker.pop_task(), Some(1));
}

#[test]
fn a_full_local_queue_spills_onto_the_shared_queue() {
    let (sender, receiver) = global_injector();
    let mut worker: Worker<usize> = Worker::new(sender, receiver.clone());
    for i in 0..DEFAULT_SIZE {
        assert!(matches!(worker.enqueue(i), Placement::Local));
    }
    assert!(receiver.is_empty());
    assert!(matches!(worker.enqueue(70_000), Placement::Global));
    match receiver.try_recv() {
        Ok(ExecutorMessage::Task(task)) => assert_eq!(task, 70_000),
        _ => panic!("the task should be on the shared queue"),
    }
}

#[test]
fn a_task_is_lost_when_both_queues_refuse_it() {
    let (sender, receiver) = global_injector();
    let (_other_sender, other_receiver) = global_injector();
    drop(receiver);
    let mut worker: Worker<usize> = Worker::new(sender, other_receiver);
    for i in 0..DEFAULT_SIZE {
        worker.enqueue(i);
    }
    match worker.enqueue(70_000) {
        Placement::Lost(task) => assert_eq!(task, 70_000),
        _ => panic!("the task should come back"),
    }
}

#[test]
fn a_task_is_notified_once_when_its_future_completes() {
    let mut life = TaskLife::new();
    let mut signals = 0;
    for outcome in [PollOutcome::Pending, PollOutcome::Pending, PollOutcome::Ready] {
        assert!(life.take());
        assert!(!life.take());
        if life.settle(outcome) == AfterPoll::Notify {
            signals += 1;
        }
    }
    assert!(life.is_done());
    assert!(!life.take());
    assert_eq!(life.settle(PollOutcome::Ready), AfterPoll::Nothing);
    assert_eq!(signals, 1);
}

#[test]
fn a_pending_future_goes_back_into_its_task() {
    let mut life = TaskLife::new();
    assert_eq!(life.settle(PollOutcome::Ready), AfterPoll::Nothing);
    assert!(life.take());
    assert_eq!(life.settle(PollOutcome::Pending), AfterPoll::Store);
    assert_eq!(life, TaskLife::Suspended);
    assert!(!life.is_done());
}

#[test]
fn empty_context() {
    let context: Context<u32, u8> = Context::new();
    assert!(!context.is_started());
}

#[test]
fn start_context() {
    let (pool, _worker, _handles) = pool();
    let mut context: Context<u32, u8> = Context::new();
    context.set_pool(pool);
    assert!(context.is_started());
}

#[test]
fn a_context_that_was_not_started_refuses_everything() {
    let mut context: Context<u32, u8> = Context::new();
    assert_eq!(context.spawn(1), Err(ContextError::NotStarted));
    assert_eq!(context.block_on(1, || true), Err(ContextError::NotStarted));
    assert_eq!(context.stop(|_| true), Err(ContextError::NotStarted));
}

#[test]
fn spawn_takes_the_local_queue_on_a_worker_and_the_shared_queue_elsewhere() {
    let (pool, mut worker, handles) = pool();
    let mut outside: Context<u32, u8> = Context::new();
    outside.set_pool(pool);
    assert_eq!(outside.spawn(1), Ok(()));
    assert_eq!(worker.pop_task(), Some(1));

    let (sender, receiver) = global_injector();
    let mut inside: Context<u32, u8> = Context::new();
    inside.set_worker(Worker::new(sender, receiver.clone()));
    assert_eq!(inside.spawn(2), Ok(()));
    assert!(receiver.is_empty());

    handles.send(9).unwrap();
    assert_eq!(outside.stop(|_| true), Ok(()));
    drop(worker);
    assert_eq!(outside.spawn(3), Err(ContextError::Pool(PoolError::Spawn)));
    assert_eq!(outside.block_on(3, || true), Err(ContextError::Pool(PoolError::Spawn)));
    assert_eq!(outside.stop(|_| true), Err(ContextError::Pool(PoolError::Stop)));
}

#[test]
fn the_results_of_the_pool_follow_from_what_came_back() {
    assert_eq!(waited(true), Ok(()));
    assert_eq!(waited(false), Err(PoolError::Block));
    assert_eq!(stopped(Stopping::NoWorker), Err(PoolError::Stop));
    assert_eq!(stopped(Stopping::Refused), Err(PoolError::Stop));
    assert_eq!(stopped(Stopping::JoinFailed), Err(PoolError::Join));
    assert_eq!(stopped(Stopping::Joined), Ok(()));
    assert_eq!(spawned::<u8>(Ok(())), Ok(()));
    assert_eq!(from_pool(Ok(())), Ok(()));
    assert_eq!(from_pool(Err(PoolError::Join)), Err(ContextError::Pool(PoolError::Join)));
}

#[test]
fn a_stop_hands_each_worker_one_stop_order() {
    let (pool, mut worker, handles) = pool();
    handles.send(1).unwrap();
    handles.send(2).unwrap();
    pool.spawn(9).unwrap();
    assert_eq!(pool.stop(|_| true), Ok(()));
    assert_eq!(worker.pop_task(), Some(9));
    assert_eq!(worker.pop_task(), None);
    assert_eq!(worker.pop_task(), None);
    assert!(matches!(ExecutorMessage::task(4), ExecutorMessage::Task(4)));
    assert!(matches!(ExecutorMessage::<u8>::stop(), ExecutorMessage::Stop));
}

#[test]
fn a_stop_without_workers_and_a_refused_order_fail_with_stop() {
    let (pool, worker, handles) = pool();
    assert_eq!(pool.stop(|_| true), Err(PoolError::Stop));
    handles.send(1).unwrap();
    drop(worker);
    assert_eq!(pool.stop(|_| true), Err(PoolError::Stop));
}
