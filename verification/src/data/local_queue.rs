use vstd::prelude::*;

verus! {

/// How many tasks a local queue holds at most.
pub const DEFAULT_SIZE: usize = 65535;

/// Why a queue operation did nothing.
#[derive(Debug)]
pub enum QueueError<T> {
    /// The queue is full; the value that did not fit comes back.
    Push(T),
    /// The queue is empty.
    Empty,
}

/// The bounded queue of one worker. Only its worker pushes and pops; what
/// does not fit goes to the shared queue. The value pushed last is popped first.
pub struct LocalQueue<T> {
    inner: Vec<T>,
}

impl<T> View for LocalQueue<T> {
    type V = Seq<T>;

    closed spec fn view(&self) -> Seq<T> {
        self.inner@
    }
}

impl<T> LocalQueue<T> {
    /// An empty queue.
    pub fn new() -> (q: LocalQueue<T>)
        ensures
            q@ == Seq::<T>::empty(),
    {
        LocalQueue { inner: Vec::with_capacity(DEFAULT_SIZE) }
    }

    /// How many values the queue holds.
    pub fn len(&self) -> (n: usize)
        ensures
            n == self@.len(),
    {
        self.inner.len()
    }

    /// Puts a value on the queue, or hands it back if the queue is full.
    pub fn push(&mut self, val: T) -> (r: Result<(), QueueError<T>>)
        ensures
            match r {
                Ok(_) => old(self)@.len() < DEFAULT_SIZE && final(self)@ == old(self)@.push(val),
                Err(e) => old(self)@.len() >= DEFAULT_SIZE && e == QueueError::Push(val)
                    && final(self)@ == old(self)@,
            },
    {
        if self.inner.len() >= DEFAULT_SIZE {
            return Err(QueueError::Push(val));
        }
        self.inner.push(val);
        Ok(())
    }

    /// Takes the value pushed last off the queue.
    pub fn pop(&mut self) -> (r: Result<T, QueueError<T>>)
        ensures
            match r {
                Ok(val) => old(self)@.len() > 0 && val == old(self)@.last() && final(self)@
                    == old(self)@.drop_last(),
                Err(e) => old(self)@.len() == 0 && e == QueueError::<T>::Empty && final(self)@
                    == old(self)@,
            },
    {
        if let Some(val) = self.inner.pop() {
            return Ok(val);
        }
        Err(QueueError::Empty)
    }
}

} // verus!
