//! The lock on the shared memory.
//!
//! The daemon writes the shared memory and must not wait long for it. It
//! raises a flag while it waits for the lock. A reader which finds the flag
//! raised stands back, so that the daemon gets the lock first.

use vstd::prelude::*;

verus! {

/// The proof that the lock on the shared memory is held.
pub struct ShmLockGuard {
    held: (),
}

impl ShmLockGuard {
    /// The proof of a lock that was just taken.
    pub(crate) fn taken() -> ShmLockGuard {
        ShmLockGuard { held: () }
    }
}

/// The lock structure used to synchronize access to shared memory
#[derive(Clone, Copy, Debug, PartialEq, Eq, Structural)]
pub struct FtlLock {
    /// Whether someone holds the lock.
    pub held: bool,
    /// Whether the daemon waits for the lock.
    pub ftl_waiting_for_lock: bool,
}

impl FtlLock {
    /// Whether a reader may take the lock: nobody holds it, and the daemon
    /// does not wait for it.
    pub open spec fn open_to_reader(&self) -> bool {
        !self.held && !self.ftl_waiting_for_lock
    }

    /// A lock which nobody holds and nobody waits for.
    pub fn new() -> (lock: FtlLock)
        ensures
            lock == (FtlLock { held: false, ftl_waiting_for_lock: false }),
    {
        FtlLock { held: false, ftl_waiting_for_lock: false }
    }

    /// Take the lock for a reader, if the reader may take it. A reader who
    /// may not take it gets nothing and leaves the lock as it is.
    pub fn try_read(&mut self) -> (guard: Option<ShmLockGuard>)
        ensures
            guard is Some == old(self).open_to_reader(),
            guard is Some ==> *final(self) == (FtlLock { held: true, ..*old(self) }),
            guard is None ==> *final(self) == *old(self),
    {
        if self.held || self.ftl_waiting_for_lock {
            None
        } else {
            self.held = true;
            Some(ShmLockGuard::taken())
        }
    }

    /// Give the lock back.
    pub fn release(&mut self, guard: ShmLockGuard)
        ensures
            *final(self) == (FtlLock { held: false, ..*old(self) }),
    {
        self.held = false;
    }
}

/// Whether a value is what a reading under the lock gave.
pub open spec fn was_read<R, F: FnOnce(&ShmLockGuard) -> R>(read: F, value: R) -> bool {
    exists|guard: &ShmLockGuard| #[trigger] call_ensures(read, (guard,), value)
}

/// Read under the lock, if a reader may take it. The lock is taken for the
/// time of the reading and given back on the way out, whatever the reading
/// returns. A reader who may not take the lock reads nothing.
pub fn with_lock<R, F: FnOnce(&ShmLockGuard) -> R>(lock: &mut FtlLock, read: F) -> (r: Option<R>)
    requires
        forall|guard: &ShmLockGuard| call_requires(read, (guard,)),
    ensures
        *final(lock) == *old(lock),
        r is Some == old(lock).open_to_reader(),
        match r {
            Some(value) => was_read(read, value),
            None => true,
        },
{
    match lock.try_read() {
        Some(guard) => {
            let value = read(&guard);
            assert(call_ensures(read, (&guard,), value));
            assert(was_read(read, value));
            lock.release(guard);
            Some(value)
        },
        None => None,
    }
}

} // verus!
