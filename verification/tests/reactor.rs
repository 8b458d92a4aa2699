use mini_async_http::io::{IoWaker, Reactor, DEFAULT_SLAB_SIZE};

#[test]
fn init() {
    let reactor = Reactor::new();

    assert_eq!(reactor.size(), DEFAULT_SLAB_SIZE);
}

#[test]
fn empty_waker() {
    let waker = IoWaker::new(0);
    assert!(waker.take().is_none());
}

#[test]
fn register() {
    let mut reactor = Reactor::new();

    assert_eq!(DEFAULT_SLAB_SIZE - 1, reactor.free_count());

    let waker = reactor.register().unwrap();

    assert_eq!(DEFAULT_SLAB_SIZE - 2, reactor.free_count());

    assert!(reactor.deregister(waker));

    assert_eq!(DEFAULT_SLAB_SIZE - 1, reactor.free_count());
}

#[test]
fn a_binding_holds_the_wake_handle_set_last() {
    let binding = IoWaker::new(5);
    assert_eq!(binding.key(), 5);
    binding.set_waker(futures::task::noop_waker());
    binding.set_waker(futures::task::noop_waker());
    assert!(binding.take().is_some());
    assert!(binding.take().is_none());
}

#[test]
fn slot_0_is_the_reactors_own_and_the_others_are_free_in_order() {
    let mut reactor = Reactor::new();
    assert_eq!(reactor.waker_token(), 0);
    for expected in 1..DEFAULT_SLAB_SIZE {
        let key = reactor.register().unwrap();
        assert_eq!(key, expected);
        assert!(1 <= key && key < 16384);
    }
    assert_eq!(reactor.register(), None);
}

#[test]
fn a_slot_is_given_back_only_once() {
    let mut reactor = Reactor::new();
    let key = reactor.register().unwrap();
    assert!(reactor.deregister(key));
    assert!(!reactor.deregister(key));
    assert_eq!(reactor.free_count(), DEFAULT_SLAB_SIZE - 1);
}

#[test]
fn the_reactors_own_slot_is_never_handed_out() {
    let mut reactor = Reactor::new();
    let mut keys = Vec::new();
    while let Some(key) = reactor.register() {
        keys.push(key);
    }
    assert_eq!(keys.len(), DEFAULT_SLAB_SIZE - 1);
    assert_eq!(reactor.free_count(), 0);
    assert!(reactor.register().is_none());
    let mut sorted = keys.clone();
    sorted.sort();
    sorted.dedup();
    assert_eq!(sorted.len(), keys.len());
    let own: Vec<usize> = (0..DEFAULT_SLAB_SIZE).filter(|k| !keys.contains(k)).collect();
    assert_eq!(own.len(), 1);
    assert!(!reactor.deregister(own[0]));
    assert!(!reactor.set_waker(own[0]));
    assert_eq!(reactor.handle_event(own[0]), None);
    for key in keys {
        assert!(reactor.deregister(key));
    }
    assert_eq!(reactor.free_count(), DEFAULT_SLAB_SIZE - 1);
    assert_eq!(reactor.size(), DEFAULT_SLAB_SIZE);
}

#[test]
fn an_event_wakes_the_waiting_task_once() {
    let mut reactor = Reactor::new();
    let key = reactor.register().unwrap();
    assert_eq!(reactor.handle_event(key), None);
    assert!(reactor.set_waker(key));
    assert!(reactor.set_waker(key));
    assert_eq!(reactor.handle_event(key), Some(key));
    assert_eq!(reactor.handle_event(key), None);
    assert!(reactor.deregister(key));
    assert!(!reactor.set_waker(key));
    assert_eq!(reactor.handle_event(key), None);
    assert_eq!(reactor.handle_event(DEFAULT_SLAB_SIZE + 7), None);
}

#[test]
fn free_slots_are_handed_out_in_the_order_they_became_free() {
    let mut reactor = Reactor::new();
    let a = reactor.register().unwrap();
    let b = reactor.register().unwrap();
    assert_ne!(a, b);
    assert!(reactor.deregister(b));
    assert!(reactor.deregister(a));
    for _ in 0..DEFAULT_SLAB_SIZE - 3 {
        reactor.register().unwrap();
    }
    assert_eq!(reactor.register(), Some(b));
    assert_eq!(reactor.register(), Some(a));
}

#[test]
fn after_twenty_connections_close_every_slot_is_free_again() {
    let mut reactor = Reactor::new();
    let start = reactor.free_count();
    let listener = reactor.register().unwrap();
    let keys: Vec<usize> = (0..20).map(|_| reactor.register().unwrap()).collect();
    assert_eq!(reactor.free_count(), start - 21);
    for key in keys.iter() {
        assert!(reactor.set_waker(*key));
    }
    for key in keys {
        assert!(reactor.deregister(key));
    }
    assert!(reactor.deregister(listener));
    assert_eq!(reactor.free_count(), start);
}
