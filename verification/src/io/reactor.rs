use vstd::prelude::*;
use std::collections::VecDeque;
use crate::data::AtomicTake;

verus! {

/// How many slots the reactor has, the one for its own wake-ups included.
pub const DEFAULT_SLAB_SIZE: usize = 16384;

/// The state of one slot of the reactor.
#[derive(Debug, Clone, Copy, PartialEq, Eq, Structural)]
pub enum Slot {
    /// No source is bound to the slot; it waits in the free queue.
    Free,
    /// A source is bound to the slot and no task waits for it.
    Idle,
    /// A source is bound to the slot and a task waits to be woken.
    Armed,
}

/// The slab of the `slab` crate.
#[verifier::external_type_specification]
#[verifier::external_body]
#[verifier::reject_recursive_types(T)]
pub struct ExSlab<T>(slab::Slab<T>);

/// What a slab of slots holds: the slot under each key in use.
pub uninterp spec fn slab_slots(table: slab::Slab<Slot>) -> Map<usize, Slot>;

/// The keys that the slab has given up and will hand out again, in the
/// order in which the next insertions take them: the chain of vacant entries
/// that the slab keeps. It is empty on a slab from which nothing was removed.
pub uninterp spec fn slab_vacant(table: slab::Slab<Slot>) -> Seq<usize>;

/// The key that the next insertion takes: the first of the vacant keys, or,
/// where there is none, the number of keys in use.
pub open spec fn next_key(table: slab::Slab<Slot>) -> usize {
    if slab_vacant(table).len() > 0 {
        slab_vacant(table)[0]
    } else {
        slab_slots(table).dom().len() as usize
    }
}

/// The vacant keys that are left once the next insertion has taken its key.
pub open spec fn vacant_after(table: slab::Slab<Slot>) -> Seq<usize> {
    if slab_vacant(table).len() > 0 {
        slab_vacant(table).skip(1)
    } else {
        slab_vacant(table)
    }
}

/// `slab::Slab::with_capacity`: an empty slab with room for `capacity`
/// values and no vacant key to hand out again.
#[verifier::external_body]
fn slab_new(capacity: usize) -> (made: slab::Slab<Slot>)
    requires
        capacity <= DEFAULT_SLAB_SIZE,
    ensures
        slab_slots(made).dom() == Set::<usize>::empty(),
        slab_vacant(made) == Seq::<usize>::empty(),
{
    slab::Slab::with_capacity(capacity)
}

/// `slab::Slab::insert`: stores the value under a key that was not in use
/// and returns the key. The key is the first of the vacant keys, which
/// leaves their chain; where the slab has no vacant key, every key below
/// the number of keys in use is taken, and the key is that number.
#[verifier::external_body]
fn slab_insert(table: &mut slab::Slab<Slot>, slot: Slot) -> (key: usize)
    ensures
        !slab_slots(*old(table)).contains_key(key),
        slab_slots(*final(table)) == slab_slots(*old(table)).insert(key, slot),
        key == next_key(*old(table)),
        slab_vacant(*final(table)) == vacant_after(*old(table)),
{
    table.insert(slot)
}

/// `slab::Slab::get`: the value under the key, if the key is in use.
#[verifier::external_body]
fn slab_get(table: &slab::Slab<Slot>, key: usize) -> (r: Option<Slot>)
    ensures
        r == if slab_slots(*table).contains_key(key) {
            Some(slab_slots(*table)[key])
        } else {
            None::<Slot>
        },
{
    table.get(key).copied()
}

/// `slab::Slab::index_mut`, for a key in use: puts the value in place of the
/// one under the key. The vacant keys stay as they are.
#[verifier::external_body]
fn slab_set(table: &mut slab::Slab<Slot>, key: usize, slot: Slot)
    requires
        slab_slots(*old(table)).contains_key(key),
    ensures
        slab_slots(*final(table)) == slab_slots(*old(table)).insert(key, slot),
        slab_vacant(*final(table)) == slab_vacant(*old(table)),
{
    table[key] = slot;
}

/// `slab::Slab::len`: how many keys are in use.
#[verifier::external_body]
fn slab_len(table: &slab::Slab<Slot>) -> (n: usize)
    ensures
        n == slab_slots(*table).dom().len(),
{
    table.len()
}

/// The wake handle of std, by which a suspended task is scheduled again.
#[verifier::external_type_specification]
#[verifier::external_body]
pub struct ExTaskWaker(std::task::Waker);

/// The binding between one slot of the reactor and the task that waits for
/// the source of that slot. It holds at most one wake handle: setting
/// another replaces it, and taking it leaves the binding empty.
pub struct IoWaker {
    key: usize,
    waker: AtomicTake<std::task::Waker>,
}

impl IoWaker {
    /// The binding of slot `key`, with no task waiting.
    pub fn new(key: usize) -> (w: IoWaker)
        ensures
            w.slot() == key,
    {
        IoWaker { key, waker: AtomicTake::new() }
    }

    /// The key of the slot.
    pub closed spec fn slot(&self) -> usize {
        self.key
    }

    /// The key of the slot.
    pub fn key(&self) -> (k: usize)
        ensures
            k == self.slot(),
    {
        self.key
    }

    /// Takes the wake handle out of the binding, if there is one.
    pub fn take(&self) -> Option<std::task::Waker> {
        self.waker.take()
    }

    /// Puts a wake handle into the binding, in place of the one it held.
    pub fn set_waker(&self, waker: std::task::Waker) {
        self.waker.store(waker);
    }
}

/// The slot table of the reactor and its queue of free slots.
///
/// One slot is the reactor's own: events on it only interrupt the poll.
/// Every other slot is either in the free queue or bound to exactly one
/// registered source.
pub struct Reactor {
    io_wakers: slab::Slab<Slot>,
    free: VecDeque<usize>,
    waker_token: usize,
}

impl Reactor {
    /// The slot under each key of the table.
    pub closed spec fn slots(&self) -> Map<usize, Slot> {
        slab_slots(self.io_wakers)
    }

    /// The free keys, in the order in which they will be handed out.
    pub closed spec fn free_keys(&self) -> Seq<usize> {
        self.free@
    }

    /// The key of the reactor's own slot.
    pub closed spec fn token(&self) -> usize {
        self.waker_token
    }

    /// The keys bound to a registered source.
    pub open spec fn registered(&self) -> Set<usize> {
        Set::new(
            |k: usize| self.slots().contains_key(k) && k != self.token() && self.slots()[k] != Slot::Free,
        )
    }

    /// Whether the table and the free queue agree: the keys are the numbers
    /// below `DEFAULT_SLAB_SIZE`, key 0 is the reactor's own and never free,
    /// and the free queue holds, once each, exactly the keys of the free slots.
    pub open spec fn wf(&self) -> bool {
        &&& self.slots().dom().finite()
        &&& self.token() == 0
        &&& forall|k: usize| self.slots().contains_key(k) <==> k < DEFAULT_SLAB_SIZE
        &&& self.slots().contains_key(self.token())
        &&& self.slots()[self.token()] == Slot::Idle
        &&& self.free_keys().no_duplicates()
        &&& forall|k: usize|
            self.free_keys().contains(k) <==> (self.slots().contains_key(k) && k != self.token()
                && self.slots()[k] == Slot::Free)
    }

    /// A reactor with `DEFAULT_SLAB_SIZE` slots: slot 0 is its own, and the
    /// slots 1 to `DEFAULT_SLAB_SIZE - 1` wait in the free queue in that order.
    pub fn new() -> (r: Reactor)
        ensures
            r.wf(),
            r.token() == 0,
            r.slots().dom().len() == DEFAULT_SLAB_SIZE,
            r.free_keys() == Seq::new((DEFAULT_SLAB_SIZE - 1) as nat, |i: int| (i + 1) as usize),
            r.registered() == Set::<usize>::empty(),
    {
        let mut io_wakers = slab_new(DEFAULT_SLAB_SIZE);
        let waker_token = slab_insert(&mut io_wakers, Slot::Idle);
        let mut free: VecDeque<usize> = VecDeque::new();
        let mut count: usize = 1;
        proof {
            assert(slab_slots(io_wakers).dom() =~= set![waker_token]);
            assert(set![waker_token].finite());
            assert(free@ =~= Seq::new(0, |i: int| (i + 1) as usize));
        }
        while count < DEFAULT_SLAB_SIZE
            invariant
                1 <= count <= DEFAULT_SLAB_SIZE,
                waker_token == 0,
                slab_vacant(io_wakers) == Seq::<usize>::empty(),
                slab_slots(io_wakers).dom().finite(),
                slab_slots(io_wakers).dom().len() == count,
                forall|k: usize| slab_slots(io_wakers).contains_key(k) <==> k < count,
                slab_slots(io_wakers)[waker_token] == Slot::Idle,
                free@ == Seq::new((count - 1) as nat, |i: int| (i + 1) as usize),
                forall|k: usize|
                    slab_slots(io_wakers).contains_key(k) && k != waker_token ==> slab_slots(
                        io_wakers,
                    )[k] == Slot::Free,
            decreases DEFAULT_SLAB_SIZE - count,
        {
            let ghost before = free@;
            let key = slab_insert(&mut io_wakers, Slot::Free);
            assert(key == count);
            free.push_back(key);
            count = count + 1;
            assert(free@ =~= Seq::new((count - 1) as nat, |i: int| (i + 1) as usize));
        }
        let r = Reactor { io_wakers, free, waker_token };
        proof {
            let keys = r.free_keys();
            assert forall|k: usize|
                keys.contains(k) <==> (r.slots().contains_key(k) && k != r.token() && r.slots()[k]
                    == Slot::Free) by {
                if keys.contains(k) {
                    let i = choose|i: int| 0 <= i < keys.len() && keys[i] == k;
                    assert(k == i + 1);
                }
                if r.slots().contains_key(k) && k != r.token() {
                    assert(keys[k - 1] == k);
                }
            }
            assert(r.registered() =~= Set::<usize>::empty());
        }
        r
    }

    /// The key of the reactor's own slot, under which its wake-up source is
    /// to be registered with the poller.
    pub fn waker_token(&self) -> (key: usize)
        ensures
            key == self.token(),
    {
        self.waker_token
    }

    /// How many slots the table has.
    pub fn size(&self) -> (n: usize)
        ensures
            n == self.slots().dom().len(),
    {
        slab_len(&self.io_wakers)
    }

    /// How many slots are free.
    pub fn free_count(&self) -> (n: usize)
        ensures
            n == self.free_keys().len(),
    {
        self.free.len()
    }

    /// Binds a source to a free slot and returns the key of the slot, under
    /// which the source is to be registered with the poller. The key is
    /// never the reactor's own. The slots are handed out in the order in
    /// which they became free. Nothing is bound, and nothing returned, when
    /// no slot is free.
    pub fn register(&mut self) -> (r: Option<usize>)
        requires
            old(self).wf(),
        ensures
            final(self).wf(),
            final(self).token() == old(self).token(),
            match r {
                Some(key) => {
                    &&& old(self).free_keys().len() > 0
                    &&& key == old(self).free_keys()[0]
                    &&& 1 <= key < DEFAULT_SLAB_SIZE
                    &&& !old(self).registered().contains(key)
                    &&& final(self).free_keys() == old(self).free_keys().skip(1)
                    &&& final(self).slots() == old(self).slots().insert(key, Slot::Idle)
                    &&& final(self).registered() == old(self).registered().insert(key)
                },
                None => {
                    &&& old(self).free_keys().len() == 0
                    &&& final(self).free_keys() == old(self).free_keys()
                    &&& final(self).slots() == old(self).slots()
                },
            },
    {
        let ghost before = self.free@;
        match self.free.pop_front() {
            Some(key) => {
                proof {
                    assert(before[0] == key);
                    assert(before.contains(key));
                }
                slab_set(&mut self.io_wakers, key, Slot::Idle);
                proof {
                    let after = self.free@;
                    assert(after =~= before.skip(1));
                    assert forall|k: usize|
                        after.contains(k) <==> (self.slots().contains_key(k) && k != self.token()
                            && self.slots()[k] == Slot::Free) by {
                        if after.contains(k) {
                            let i = choose|i: int| 0 <= i < after.len() && after[i] == k;
                            assert(before[i + 1] == k);
                            assert(before.contains(k));
                        }
                        if self.slots().contains_key(k) && k != self.token() && self.slots()[k]
                            == Slot::Free {
                            assert(before.contains(k));
                            let i = choose|i: int| 0 <= i < before.len() && before[i] == k;
                            assert(after[i - 1] == k);
                        }
                    }
                    assert(final(self).registered() =~= old(self).registered().insert(key));
                }
                Some(key)
            },
            None => None,
        }
    }

    /// Unbinds the source of slot `key` and puts the slot at the end of the
    /// free queue. Returns whether a source was bound to the slot; a key
    /// that is not bound, the reactor's own key among them, changes nothing.
    pub fn deregister(&mut self, key: usize) -> (r: bool)
        requires
            old(self).wf(),
        ensures
            final(self).wf(),
            final(self).token() == old(self).token(),
            r == old(self).registered().contains(key),
            r ==> {
                &&& final(self).free_keys() == old(self).free_keys().push(key)
                &&& final(self).slots() == old(self).slots().insert(key, Slot::Free)
                &&& final(self).registered() == old(self).registered().remove(key)
            },
            !r ==> {
                &&& final(self).free_keys() == old(self).free_keys()
                &&& final(self).slots() == old(self).slots()
            },
    {
        if key == self.waker_token {
            return false;
        }
        match slab_get(&self.io_wakers, key) {
            Some(Slot::Idle) | Some(Slot::Armed) => {
                let ghost before = self.free@;
                slab_set(&mut self.io_wakers, key, Slot::Free);
                self.free.push_back(key);
                proof {
                    let after = self.free@;
                    assert(!before.contains(key));
                    assert(after == before.push(key));
                    assert forall|k: usize|
                        after.contains(k) <==> (self.slots().contains_key(k) && k != self.token()
                            && self.slots()[k] == Slot::Free) by {
                        if after.contains(k) {
                            let i = choose|i: int| 0 <= i < after.len() && after[i] == k;
                            if i < before.len() {
                                assert(before[i] == k);
                                assert(before.contains(k));
                            }
                        }
                        if self.slots().contains_key(k) && k != self.token() && self.slots()[k]
                            == Slot::Free {
                            if k == key {
                                assert(after[before.len() as int] == k);
                            } else {
                                assert(before.contains(k));
                                let i = choose|i: int| 0 <= i < before.len() && before[i] == k;
                                assert(after[i] == k);
                            }
                        }
                    }
                    assert(final(self).registered() =~= old(self).registered().remove(key));
                }
                true
            },
            _ => false,
        }
    }

    /// Notes that a task waits for the source of slot `key`. Returns whether
    /// a source is bound to the slot; for a key that is not bound nothing
    /// changes. A waiting task noted before is replaced.
    pub fn set_waker(&mut self, key: usize) -> (r: bool)
        requires
            old(self).wf(),
        ensures
            final(self).wf(),
            final(self).token() == old(self).token(),
            final(self).free_keys() == old(self).free_keys(),
            final(self).registered() == old(self).registered(),
            r == old(self).registered().contains(key),
            final(self).slots() == if r {
                old(self).slots().insert(key, Slot::Armed)
            } else {
                old(self).slots()
            },
    {
        if key == self.waker_token {
            return false;
        }
        match slab_get(&self.io_wakers, key) {
            Some(Slot::Idle) | Some(Slot::Armed) => {
                slab_set(&mut self.io_wakers, key, Slot::Armed);
                assert(final(self).registered() =~= old(self).registered());
                true
            },
            _ => false,
        }
    }

    /// Routes a readiness event. An event on the reactor's own slot is
    /// discarded. An event on a slot with a waiting task takes the task out
    /// of the slot and returns the key: that task is to be woken. Any other
    /// event wakes nobody.
    pub fn handle_event(&mut self, token: usize) -> (r: Option<usize>)
        requires
            old(self).wf(),
        ensures
            final(self).wf(),
            final(self).token() == old(self).token(),
            final(self).free_keys() == old(self).free_keys(),
            final(self).registered() == old(self).registered(),
            r == if token != old(self).token() && old(self).slots().contains_key(token)
                && old(self).slots()[token] == Slot::Armed {
                Some(token)
            } else {
                None::<usize>
            },
            final(self).slots() == if r is Some {
                old(self).slots().insert(token, Slot::Idle)
            } else {
                old(self).slots()
            },
    {
        if token == self.waker_token {
            return None;
        }
        match slab_get(&self.io_wakers, token) {
            Some(Slot::Armed) => {
                slab_set(&mut self.io_wakers, token, Slot::Idle);
                assert(final(self).registered() =~= old(self).registered());
                Some(token)
            },
            _ => None,
        }
    }
}

/// Every slot but the reactor's own is either free or bound: the free
/// slots and the bound slots together are all the slots but one.
pub proof fn lemma_slots_accounted(r: Reactor)
    requires
        r.wf(),
    ensures
        r.registered().finite(),
        r.free_keys().len() + r.registered().len() + 1 == r.slots().dom().len(),
{
    let dom = r.slots().dom();
    let free = r.free_keys().to_set();
    let bound = r.registered();
    let own = set![r.token()];
    r.free_keys().unique_seq_to_set();
    assert forall|k: usize| free.contains(k) <==> r.free_keys().contains(k) by {}
    vstd::set_lib::lemma_len_subset(bound, dom);
    vstd::set_lib::lemma_len_subset(free, dom);
    assert(free.disjoint(bound));
    vstd::set_lib::lemma_set_disjoint_lens(free, bound);
    assert((free + bound).disjoint(own));
    vstd::set_lib::lemma_set_disjoint_lens(free + bound, own);
    assert((free + bound) + own =~= dom);
}

/// Once every source that was registered is deregistered again, as many
/// slots are free as at the start: all but the reactor's own.
pub proof fn lemma_all_free_again(start: Reactor, end: Reactor)
    requires
        start.wf(),
        end.wf(),
        start.registered() == Set::<usize>::empty(),
        end.registered() == Set::<usize>::empty(),
    ensures
        end.free_keys().len() == start.free_keys().len(),
        end.free_keys().len() == DEFAULT_SLAB_SIZE - 1,
{
    lemma_slots_accounted(start);
    lemma_slots_accounted(end);
    assert(end.slots().dom() =~= start.slots().dom());
    lemma_keys_counted(start);
}

/// A reactor has `DEFAULT_SLAB_SIZE` slots.
pub proof fn lemma_keys_counted(r: Reactor)
    requires
        r.wf(),
    ensures
        r.slots().dom().len() == DEFAULT_SLAB_SIZE,
{
    let dom = r.slots().dom();
    let range = Set::new(|k: usize| k < DEFAULT_SLAB_SIZE);
    assert(dom =~= range);
    lemma_range_counted(DEFAULT_SLAB_SIZE);
}

/// There are `n` machine words below `n`.
proof fn lemma_range_counted(n: usize)
    ensures
        Set::new(|k: usize| k < n).finite(),
        Set::new(|k: usize| k < n).len() == n,
    decreases n,
{
    let all = Set::new(|k: usize| k < n);
    if n == 0 {
        assert(all =~= Set::<usize>::empty());
    } else {
        let fewer = Set::new(|k: usize| k < (n - 1) as usize);
        lemma_range_counted((n - 1) as usize);
        assert(all =~= fewer.insert((n - 1) as usize));
    }
}

} // verus!
