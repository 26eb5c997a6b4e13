//! The spinning mutex, modelled as a two-state machine with a poison bit.
//!
//! Acquisition moves the guarded value into a [`BaseMutexGuard`], so holding
//! the value and holding the lock are the same thing: a second guard cannot
//! exist while one is out, which is the mutual-exclusion property. Release
//! consumes the guard, puts the value back, and ORs the releasing actor's
//! unwinding state into the poison bit.
//!
//! In the running system the acquisition loop spins on a compare-and-swap,
//! yielding between attempts; in this model the machine is quiescent while a
//! caller holds `&mut self`, so one attempt decides and the blocking `lock`
//! is enabled exactly on the states from which it would not spin forever.

use vstd::prelude::*;

use crate::handle::ThreadEnv;
use crate::poison::{LockResult, PoisonError, ShouldBlock, TryLockError, TryLockResult, wrap_lock_result};
use core::marker::PhantomData;

verus! {

/// Extension point invoked on the lock and unlock boundaries of a
/// [`BaseMutex`]. The trivial `()` hook allows every attempt and does
/// nothing on release.
///
/// A hook answers acquisition attempts according to its own state: `allows`
/// is the hook's admission predicate, and `try_lock` must answer `Allow`
/// exactly when it holds. A veto makes `try_lock` on the mutex report
/// `WouldBlock`; the blocking `lock` of the running system retries a vetoed
/// attempt, so it is enabled only where the hook allows.
pub trait MutexHook {
    /// Whether this hook currently admits an acquisition.
    spec fn allows(&self) -> bool;

    fn new() -> Self where Self: Sized;

    /// Consulted before an acquisition attempt.
    fn try_lock(&self) -> (r: ShouldBlock)
        ensures
            r is Allow <==> self.allows(),
    ;

    /// Invoked after the lock has been released.
    fn after_lock(&self);
}

impl MutexHook for () {
    open spec fn allows(&self) -> bool {
        true
    }

    fn new() -> (r: ()) {
        ()
    }

    fn try_lock(&self) -> (r: ShouldBlock)
        ensures
            r is Allow <==> self.allows(),
    {
        ShouldBlock::Allow
    }

    fn after_lock(&self) {
    }
}

/// Exclusive lease on the value guarded by a [`BaseMutex`]. The guard owns
/// the value while the lock is held; it is released by handing the guard
/// back to [`BaseMutex::unlock`] or [`BaseMutex::unlock_with`].
#[must_use]
pub struct BaseMutexGuard<T> {
    data: T,
}

impl<T> BaseMutexGuard<T> {
    /// The guarded value.
    pub closed spec fn data_spec(&self) -> T {
        self.data
    }

    /// Read access to the guarded value.
    pub fn get(&self) -> (r: &T)
        ensures
            r == self.data_spec(),
    {
        &self.data
    }

    /// Write access to the guarded value.
    pub fn data_mut(&mut self) -> (r: &mut T)
        ensures
            *r == old(self).data_spec(),
            final(self).data_spec() == *final(r),
    {
        &mut self.data
    }

    /// Replaces the guarded value.
    pub fn set(&mut self, v: T)
        ensures
            final(self).data_spec() == v,
    {
        self.data = v;
    }
}

/// A spinning mutual-exclusion lock with poisoning.
///
/// The state is the tuple (lock bit, poison bit, value). The lock bit and
/// the value move together: the value is present exactly while the lock is
/// free, and lives inside the issued guard while the lock is held.
pub struct BaseMutex<T, Hook, Env> where Hook: MutexHook, Env: ThreadEnv {
    locked: bool,
    poison: bool,
    hook: Hook,
    env: PhantomData<Env>,
    data: Option<T>,
}

impl<T, Env> BaseMutex<T, (), Env> where Env: ThreadEnv {
    /// Builds an unlocked, unpoisoned mutex with the trivial hook.
    pub fn new_unhooked(data: T) -> (r: Self)
        ensures
            r.wf(),
            !r.locked(),
            !r.poisoned(),
            r.hook_allows(),
            r.data_spec() == data,
    {
        BaseMutex { locked: false, poison: false, hook: (), env: PhantomData, data: Some(data) }
    }
}

impl<T, Hook, Env> BaseMutex<T, Hook, Env> where Hook: MutexHook, Env: ThreadEnv {
    /// Whether the lock is currently held, that is, whether a guard is out.
    pub closed spec fn locked(&self) -> bool {
        self.locked
    }

    /// The poison bit.
    pub closed spec fn poisoned(&self) -> bool {
        self.poison
    }

    /// The stored value slot: the value is here exactly while the lock is
    /// free.
    pub closed spec fn data_opt(&self) -> Option<T> {
        self.data
    }

    /// The stored value; meaningful while the lock is free.
    pub open spec fn data_spec(&self) -> T {
        self.data_opt()->Some_0
    }

    /// Whether this lock's hook currently admits an acquisition.
    pub closed spec fn hook_allows(&self) -> bool {
        self.hook.allows()
    }

    /// The lock bit and the value slot agree: the value is out exactly while
    /// the lock is held.
    pub open spec fn wf(&self) -> bool {
        self.locked() <==> self.data_opt() is None
    }

    /// Whether an acquisition step is enabled: every path that hands a guard
    /// out demands this of the state it acquired from.
    pub open spec fn can_acquire(&self) -> bool {
        !self.locked()
    }

    /// Builds an unlocked, unpoisoned mutex around `data`.
    pub fn new(data: T) -> (r: Self)
        ensures
            r.wf(),
            !r.locked(),
            !r.poisoned(),
            r.data_spec() == data,
    {
        BaseMutex { locked: false, poison: false, hook: Hook::new(), env: PhantomData, data: Some(data) }
    }

    /// Consumes the mutex and hands the value back, wrapped in the poison
    /// result.
    pub fn into_inner(self) -> (r: LockResult<T>)
        requires
            self.wf(),
            !self.locked(),
        ensures
            self.poisoned() <==> r is Err,
            r is Err ==> r->Err_0.data == self.data_spec(),
            r is Ok ==> r->Ok_0 == self.data_spec(),
    {
        let poisoned = self.poison;
        wrap_lock_result(poisoned, self.data.unwrap())
    }

    /// Exclusive access to the value without locking, possible because the
    /// caller already holds the mutex exclusively. The poison state is read
    /// with [`Self::is_poisoned`].
    pub fn get_mut(&mut self) -> (r: &mut T)
        requires
            old(self).wf(),
            !old(self).locked(),
        ensures
            *r == old(self).data_spec(),
            final(self).data_opt() == Some(*final(r)),
            final(self).locked() == old(self).locked(),
            final(self).poisoned() == old(self).poisoned(),
            final(self).hook_allows() == old(self).hook_allows(),
            final(self).wf(),
    {
        if let Some(d) = &mut self.data {
            d
        } else {
            unreached()
        }
    }

    /// Whether a previous holder released the lock while unwinding.
    pub fn is_poisoned(&self) -> (r: bool)
        ensures
            r == self.poisoned(),
    {
        self.poison
    }

    /// Clears the poison bit; the lock state and the value are untouched.
    pub fn clear_poison(&mut self)
        ensures
            !final(self).poisoned(),
            final(self).locked() == old(self).locked(),
            final(self).data_opt() == old(self).data_opt(),
            final(self).hook_allows() == old(self).hook_allows(),
    {
        self.poison = false;
    }

    /// One compare-and-swap attempt on the lock bit. In this model a weak
    /// attempt succeeds exactly when a strong one would; the `strong` flag
    /// only mirrors the retry discipline of the running system's spin loop.
    fn try_acquire_locker(&mut self, strong: bool) -> (r: bool)
        ensures
            r == !old(self).locked,
            r ==> final(self).locked && final(self).poison == old(self).poison
                && final(self).data == old(self).data && final(self).hook == old(self).hook,
            !r ==> *final(self) == *old(self),
    {
        let _ = strong;
        if !self.locked {
            self.locked = true;
            true
        } else {
            false
        }
    }

    /// Builds the guard after the lock bit has been won: moves the value out
    /// and wraps the guard in the poison result.
    fn do_lock(&mut self) -> (r: LockResult<BaseMutexGuard<T>>)
        requires
            old(self).locked,
            old(self).data is Some,
        ensures
            final(self).locked,
            final(self).data is None,
            final(self).poison == old(self).poison,
            final(self).hook == old(self).hook,
            old(self).poison <==> r is Err,
            r is Err ==> r->Err_0.data.data_spec() == old(self).data->Some_0,
            r is Ok ==> r->Ok_0.data_spec() == old(self).data->Some_0,
    {
        let data = self.data.take();
        let guard = BaseMutexGuard { data: data.unwrap() };
        if self.poison {
            Err(PoisonError::new(guard))
        } else {
            Ok(guard)
        }
    }

    /// Non-blocking acquisition: consults the hook, then attempts one strong
    /// compare-and-swap. A held lock or a hook veto answers `WouldBlock` and
    /// changes nothing; a won lock hands the guard out, wrapped as
    /// `Poisoned` exactly when the poison bit is set.
    pub fn try_lock(&mut self) -> (r: TryLockResult<BaseMutexGuard<T>>)
        requires
            old(self).wf(),
        ensures
            final(self).wf(),
            final(self).poisoned() == old(self).poisoned(),
            final(self).hook_allows() == old(self).hook_allows(),
            r is Err && r->Err_0 is WouldBlock <==> old(self).locked() || !old(self).hook_allows(),
            r is Err && r->Err_0 is WouldBlock ==> *final(self) == *old(self),
            old(self).hook_allows() && !old(self).locked() ==> final(self).locked()
                && (if old(self).poisoned() {
                    r is Err && r->Err_0 is Poisoned
                        && r->Err_0->Poisoned_0.data.data_spec() == old(self).data_spec()
                } else {
                    r is Ok && r->Ok_0.data_spec() == old(self).data_spec()
                }),
    {
        let answer = self.hook.try_lock();
        if let ShouldBlock::Block = answer {
            return Err(TryLockError::WouldBlock);
        }
        if self.try_acquire_locker(true) {
            match self.do_lock() {
                Ok(guard) => Ok(guard),
                Err(poison) => Err(TryLockError::Poisoned(poison)),
            }
        } else {
            Err(TryLockError::WouldBlock)
        }
    }

    /// Blocking acquisition. The running system spins — hook consult,
    /// compare-and-swap, yield — until it wins the lock; here the machine
    /// cannot change while the caller holds it, so the operation is enabled
    /// exactly where that spin would terminate at once: the lock is free and
    /// the hook allows. On return the lock is held by the returned guard,
    /// which is wrapped as `Err` exactly when the lock was poisoned.
    pub fn lock(&mut self) -> (r: LockResult<BaseMutexGuard<T>>)
        requires
            old(self).wf(),
            old(self).can_acquire(),
            old(self).hook_allows(),
        ensures
            final(self).wf(),
            final(self).locked(),
            final(self).poisoned() == old(self).poisoned(),
            final(self).hook_allows() == old(self).hook_allows(),
            old(self).poisoned() <==> r is Err,
            r is Err ==> r->Err_0.data.data_spec() == old(self).data_spec(),
            r is Ok ==> r->Ok_0.data_spec() == old(self).data_spec(),
    {
        let answer = self.hook.try_lock();
        if let ShouldBlock::Block = answer {
            return unreached();
        }
        let won = self.try_acquire_locker(true);
        if won {
            self.do_lock()
        } else {
            unreached()
        }
    }

    /// Release with an explicit unwinding flag: the exact release protocol.
    /// The value returns to the lock, the lock bit clears, and the poison
    /// bit ORs in `panicking` — so an unwinding release leaves the lock
    /// poisoned and a normal release never changes the poison state.
    pub fn unlock_with(&mut self, guard: BaseMutexGuard<T>, panicking: bool)
        requires
            old(self).wf(),
            old(self).locked(),
        ensures
            final(self).wf(),
            !final(self).locked(),
            final(self).data_spec() == guard.data_spec(),
            final(self).poisoned() == (old(self).poisoned() || panicking),
            final(self).hook_allows() == old(self).hook_allows(),
    {
        let BaseMutexGuard { data } = guard;
        self.locked = false;
        self.data = Some(data);
        self.poison = self.poison || panicking;
        self.hook.after_lock();
    }

    /// Release: reads whether the environment is unwinding, then runs the
    /// exact release protocol of [`Self::unlock_with`]. Whatever the
    /// environment answered, an already poisoned lock stays poisoned.
    pub fn unlock(&mut self, guard: BaseMutexGuard<T>)
        requires
            old(self).wf(),
            old(self).locked(),
        ensures
            final(self).wf(),
            !final(self).locked(),
            final(self).data_spec() == guard.data_spec(),
            old(self).poisoned() ==> final(self).poisoned(),
            final(self).hook_allows() == old(self).hook_allows(),
    {
        let panicking = Env::panicking();
        self.unlock_with(guard, panicking);
    }
}

/// Mutual exclusion: at most one guard exists at any instant. Handing a
/// guard out requires `can_acquire` and leaves the lock in the held state
/// (contracts of `try_lock` and `lock`), and a held lock enables no further
/// acquisition step — so a second guard cannot be created until the first is
/// consumed by `unlock`, which alone clears the lock bit. The guarded value
/// itself moves into the guard, so it exists in exactly one place: the lock
/// while free, the single guard while held.
pub proof fn lemma_mutex_mutual_exclusion<T, Hook: MutexHook, Env: ThreadEnv>(
    m: BaseMutex<T, Hook, Env>,
)
    ensures
        m.locked() ==> !m.can_acquire(),
        m.wf() && m.locked() ==> m.data_opt() is None,
{
}

/// Round trip: a freshly built mutex is unpoisoned and stores its value,
/// and on any unpoisoned state the contract of `into_inner` admits only
/// `Ok` with the stored value — so `new(v)` followed by `into_inner()`
/// yields `v`.
pub proof fn lemma_mutex_round_trip<T, Hook: MutexHook, Env: ThreadEnv>(
    m: BaseMutex<T, Hook, Env>,
    v: T,
    r: LockResult<T>,
)
    requires
        !m.poisoned(),
        m.data_spec() == v,
        m.poisoned() <==> r is Err,
        r is Ok ==> r->Ok_0 == m.data_spec(),
    ensures
        r is Ok,
        r->Ok_0 == v,
{
}

} // verus!
