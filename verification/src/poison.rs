//! Error taxonomy shared by all lock variants: poisoning, non-blocking
//! failure, and the hook answer that may veto an acquisition attempt.

use vstd::prelude::*;

verus! {

/// Answer returned by a lock hook when an acquisition is attempted: either
/// let the attempt proceed, or make it block (reported as `WouldBlock` by the
/// non-blocking operations and retried by the blocking ones).
#[derive(Clone, Copy, Debug, PartialEq, Eq, Hash, Structural)]
pub enum ShouldBlock {
    Allow,
    Block,
}

impl ShouldBlock {
    /// Turns the hook answer into the early-exit result used by the `try_*`
    /// operations.
    pub fn to_result<E>(self) -> (r: Result<(), TryLockError<E>>)
        ensures
            self is Allow <==> r is Ok,
            r is Err ==> r->Err_0 is WouldBlock,
    {
        match self {
            ShouldBlock::Allow => Ok(()),
            ShouldBlock::Block => Err(TryLockError::WouldBlock),
        }
    }
}

/// Error returned when a lock is acquired after a previous holder released it
/// while unwinding. The payload still grants access to the guarded value; the
/// caller opts in to using it.
pub struct PoisonError<T> {
    pub data: T,
}

impl<T> PoisonError<T> {
    /// Wraps the value that was in transit when poisoning was observed.
    pub fn new(data: T) -> (r: PoisonError<T>)
        ensures
            r.data == data,
    {
        PoisonError { data }
    }

    /// Consumes the error, returning the wrapped value.
    pub fn into_inner(self) -> (r: T)
        ensures
            r == self.data,
    {
        self.data
    }

    /// Borrows the wrapped value.
    pub fn get_ref(&self) -> (r: &T)
        ensures
            r == self.data,
    {
        &self.data
    }

    /// A human-readable description of the error.
    pub fn message(&self) -> &'static str {
        "poisoned lock: another task failed inside"
    }

    /// Mutably borrows the wrapped value.
    pub fn get_mut(&mut self) -> (r: &mut T)
        ensures
            *r == old(self).data,
            final(self).data == *final(r),
    {
        &mut self.data
    }
}

impl<T> TryLockError<T> {
    /// A human-readable description of the error.
    pub fn message(&self) -> &'static str {
        match *self {
            TryLockError::Poisoned(_) => "poisoned lock: another task failed inside",
            TryLockError::WouldBlock => "try_lock failed because the operation would block",
        }
    }
}

/// Error returned by the non-blocking acquisition operations.
pub enum TryLockError<T> {
    /// A previous holder panicked while holding the lock.
    Poisoned(PoisonError<T>),
    /// The lock is currently held; the operation would otherwise block.
    WouldBlock,
}

/// Result of a blocking acquisition: the payload is handed back either
/// plainly or wrapped in a `PoisonError`.
pub type LockResult<T> = Result<T, PoisonError<T>>;

/// Result of a non-blocking acquisition.
pub type TryLockResult<Guard> = Result<Guard, TryLockError<Guard>>;

/// Wraps an exclusive-access payload in the poison result demanded by the
/// lock's poison bit.
pub fn wrap_lock_result<T>(poisoned: bool, t: T) -> (r: LockResult<T>)
    ensures
        poisoned <==> r is Err,
        r is Err ==> r->Err_0.data == t,
        r is Ok ==> r->Ok_0 == t,
{
    if poisoned {
        Err(PoisonError::new(t))
    } else {
        Ok(t)
    }
}

/// The poison bit after a run of releases: each release ORs in whether the
/// releasing actor was unwinding — the protocol of every lock variant's
/// write-release path.
pub open spec fn poison_after(init: bool, unwinding: Seq<bool>) -> bool
    decreases unwinding.len(),
{
    if unwinding.len() == 0 {
        init
    } else {
        poison_after(init || unwinding[0], unwinding.drop_first())
    }
}

/// A poisoned lock stays poisoned through any run of releases.
pub proof fn lemma_poison_sticky(init: bool, unwinding: Seq<bool>)
    requires
        init,
    ensures
        poison_after(init, unwinding),
    decreases unwinding.len(),
{
    if unwinding.len() > 0 {
        lemma_poison_sticky(init || unwinding[0], unwinding.drop_first());
    }
}

/// Clear-poison idempotence: after the bit is cleared, the lock reports
/// poisoned exactly when some later release happened while unwinding — so
/// `is_poisoned()` stays false until the next unwinding write release.
pub proof fn lemma_clear_poison_idempotence(unwinding: Seq<bool>)
    ensures
        poison_after(false, unwinding) <==> (exists|i: int|
            0 <= i < unwinding.len() && unwinding[i]),
    decreases unwinding.len(),
{
    if unwinding.len() == 0 {
    } else {
        let head = unwinding[0];
        let tail = unwinding.drop_first();
        if head {
            lemma_poison_sticky(true, tail);
            assert(unwinding[0]);
        } else {
            lemma_clear_poison_idempotence(tail);
            if poison_after(false, unwinding) {
                let i = choose|i: int| 0 <= i < tail.len() && tail[i];
                assert(unwinding[i + 1]);
            } else {
                if exists|i: int| 0 <= i < unwinding.len() && unwinding[i] {
                    let i = choose|i: int| 0 <= i < unwinding.len() && unwinding[i];
                    assert(i >= 1);
                    assert(tail[i - 1]);
                }
            }
        }
    }
}

} // verus!
