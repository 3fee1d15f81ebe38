//! How a statement locks the table that it works on.

use vstd::prelude::*;

verus! {

/// Whether a table is locked for a statement, and what happens where the
/// lock is not to be had at once.
#[derive(Clone, Copy, Debug, PartialEq, Eq, Structural)]
pub enum LockTableOption {
    NoLock,
    LockWithRetry,
    LockNoRetry,
}

impl LockTableOption {
    /// Whether the statement takes a lock.
    pub fn takes_lock(&self) -> (r: bool)
        ensures
            r == !(*self is NoLock),
    {
        match self {
            LockTableOption::NoLock => false,
            _ => true,
        }
    }

    /// Whether the statement tries again where the lock is not to be had.
    pub fn should_retry(&self) -> (r: bool)
        ensures
            r == (*self is LockWithRetry),
    {
        match self {
            LockTableOption::LockWithRetry => true,
            _ => false,
        }
    }
}

} // verus!
