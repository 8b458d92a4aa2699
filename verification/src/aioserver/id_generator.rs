use vstd::prelude::*;
use std::collections::HashMap;

verus! {

broadcast use vstd::std_specs::hash::group_hash_axioms;

/// Hands out identifiers: each one the smallest number, from a moving
/// position upwards, that is not in use.
pub struct IdGenerator {
    used: HashMap<usize, ()>,
    pos: usize,
}

impl IdGenerator {
    /// The identifiers in use.
    pub closed spec fn used(&self) -> Set<usize> {
        self.used@.dom()
    }

    /// The position from which the next identifier is looked for.
    pub closed spec fn position(&self) -> usize {
        self.pos
    }

    /// The smallest identifier at or above the position that is not in use.
    pub open spec fn next_free(&self) -> int {
        choose|k: int| self.is_next_free(k)
    }

    /// Whether `k` is free, at or above the position, with every number from
    /// the position up to it in use.
    pub open spec fn is_next_free(&self, k: int) -> bool {
        &&& self.position() <= k <= usize::MAX
        &&& !self.used().contains(k as usize)
        &&& forall|j: usize| self.position() <= j < k ==> self.used().contains(j)
    }

    /// Whether an identifier can still be handed out: a free number exists
    /// at or above the position, below the largest machine word.
    pub open spec fn has_room(&self) -> bool {
        exists|k: int| #[trigger] self.is_next_free(k) && k < usize::MAX
    }

    /// A generator that starts at `start` with no identifier in use.
    pub fn new(start: usize) -> (g: IdGenerator)
        ensures
            g.used() == Set::<usize>::empty(),
            g.position() == start,
    {
        let g = IdGenerator { used: HashMap::new(), pos: start };
        assert(g.used() =~= Set::<usize>::empty());
        g
    }

    /// Hands out the next free identifier and marks it as in use.
    pub fn id(&mut self) -> (id: usize)
        requires
            old(self).has_room(),
        ensures
            old(self).is_next_free(id as int),
            final(self).used() == old(self).used().insert(id),
            final(self).position() == id + 1,
    {
        let ghost goal = choose|k: int| #[trigger] old(self).is_next_free(k) && k < usize::MAX;
        loop
            invariant
                self.used == old(self).used,
                old(self).pos <= self.pos <= goal,
                goal < usize::MAX,
                old(self).is_next_free(goal),
                forall|j: usize| old(self).pos <= j < self.pos ==> self.used().contains(j),
            decreases goal - self.pos,
        {
            match self.used.get(&self.pos) {
                Some(_) => {
                    assert(self.used().contains(self.pos));
                    self.pos += 1;
                },
                None => {
                    self.used.insert(self.pos, ());
                    let id = self.pos;
                    self.pos += 1;
                    assert(final(self).used() =~= old(self).used().insert(id));
                    return id;
                },
            };
        }
    }

    /// Gives an identifier back, so that it may be handed out again.
    pub fn remove(&mut self, id: usize)
        ensures
            final(self).used() == old(self).used().remove(id),
            final(self).position() == old(self).position(),
    {
        self.used.remove(&id);
        assert(final(self).used() =~= old(self).used().remove(id));
    }
}

/// Two identifiers handed out one after the other differ.
pub proof fn lemma_ids_differ(before: IdGenerator, between: IdGenerator, first: usize, second: usize)
    requires
        before.is_next_free(first as int),
        between.used() == before.used().insert(first),
        between.is_next_free(second as int),
    ensures
        first != second,
{
}

} // verus!
