use vstd::prelude::*;

verus! {

/// The atomic cell of `crossbeam_utils`.
#[verifier::external_type_specification]
#[verifier::external_body]
#[verifier::reject_recursive_types(T)]
pub struct ExAtomicCell<T>(crossbeam_utils::atomic::AtomicCell<T>);

/// `crossbeam_utils::atomic::AtomicCell::new`: a cell that holds the value.
#[verifier::external_body]
fn cell_new<T>(value: Option<T>) -> crossbeam_utils::atomic::AtomicCell<Option<T>> {
    crossbeam_utils::atomic::AtomicCell::new(value)
}

/// `crossbeam_utils::atomic::AtomicCell::take`: takes what the cell holds
/// and leaves the default, here nothing, in one atomic step. Other threads
/// share the cell, so what comes out is not stated.
#[verifier::external_body]
fn cell_take<T>(cell: &crossbeam_utils::atomic::AtomicCell<Option<T>>) -> Option<T> {
    cell.take()
}

/// `crossbeam_utils::atomic::AtomicCell::store`: puts a value into the cell
/// and drops what it held before.
#[verifier::external_body]
fn cell_store<T>(cell: &crossbeam_utils::atomic::AtomicCell<Option<T>>, value: Option<T>) {
    cell.store(value)
}

/// A slot that any thread may fill, and whose value exactly one thread gets
/// when several try to take it at once.
#[verifier::reject_recursive_types(T)]
pub struct AtomicTake<T> {
    inner: crossbeam_utils::atomic::AtomicCell<Option<T>>,
}

impl<T> AtomicTake<T> {
    /// An empty slot.
    pub fn new() -> AtomicTake<T> {
        AtomicTake { inner: cell_new(None) }
    }

    /// A slot that holds `value`.
    pub fn from(value: T) -> AtomicTake<T> {
        AtomicTake { inner: cell_new(Some(value)) }
    }

    /// Takes the value out of the slot, if there is one, and leaves it empty.
    pub fn take(&self) -> Option<T> {
        cell_take(&self.inner)
    }

    /// Puts `value` into the slot, in place of what it held.
    pub fn store(&self, value: T) {
        cell_store(&self.inner, Some(value));
    }
}

} // verus!
