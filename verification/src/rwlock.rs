//! The counter-based reader/writer lock.
//!
//! Occupancy is a single counter: `0` is free, `1 ..= usize::MAX - 2` counts
//! active readers, and `usize::MAX` marks the one active writer. The value
//! `usize::MAX - 1` is an unreachable ceiling — read attempts fail before
//! reaching it — so a writer is always distinguishable from a full house of
//! readers. The writer moves the guarded value into its guard, so writer
//! exclusivity is ownership, not bookkeeping.
//!
//! As with [`crate::mutex`], the running system wraps these transitions in a
//! short spin-locked critical section and retries blocked attempts; in this
//! model the machine is quiescent while a caller holds `&mut self`, so the
//! blocking operations are enabled exactly where their spin would end at
//! once.

use vstd::prelude::*;

use crate::handle::ThreadEnv;
use crate::poison::{LockResult, PoisonError, ShouldBlock, TryLockError, TryLockResult, wrap_lock_result};
use crate::strategies::Method;
use core::marker::PhantomData;

verus! {

/// Extension point invoked on the acquire and release boundaries of a
/// [`BaseRwLock`]. The trivial `()` hook allows every attempt and does
/// nothing on release. `allows_read` and `allows_write` are the hook's
/// admission predicates; the consult methods must answer accordingly.
pub trait RwLockHook {
    /// Whether this hook currently admits a read acquisition.
    spec fn allows_read(&self) -> bool;

    /// Whether this hook currently admits a write acquisition.
    spec fn allows_write(&self) -> bool;

    fn new() -> Self where Self: Sized;

    /// Consulted before a read attempt; `Block` turns the attempt into
    /// `WouldBlock`.
    fn try_read(&self) -> (r: ShouldBlock)
        ensures
            r is Allow <==> self.allows_read(),
    ;

    /// Consulted before a write attempt; `Block` turns the attempt into
    /// `WouldBlock`.
    fn try_write(&self) -> (r: ShouldBlock)
        ensures
            r is Allow <==> self.allows_write(),
    ;

    /// Invoked after a read lease has been released.
    fn after_read(&self);

    /// Invoked after a write lease has been released.
    fn after_write(&self);
}

impl RwLockHook for () {
    open spec fn allows_read(&self) -> bool {
        true
    }

    open spec fn allows_write(&self) -> bool {
        true
    }

    fn new() -> (r: ()) {
        ()
    }

    fn try_read(&self) -> (r: ShouldBlock)
        ensures
            r is Allow <==> self.allows_read(),
    {
        ShouldBlock::Allow
    }

    fn try_write(&self) -> (r: ShouldBlock)
        ensures
            r is Allow <==> self.allows_write(),
    {
        ShouldBlock::Allow
    }

    fn after_read(&self) {
    }

    fn after_write(&self) {
    }
}

/// The occupancy counter of a [`BaseRwLock`]: `0` free, `1 ..= usize::MAX - 2`
/// readers, `usize::MAX` one writer, `usize::MAX - 1` unreachable.
#[derive(Debug, Clone, Copy, PartialEq, Eq, Hash, Structural)]
pub struct State(pub usize);

impl State {
    /// No lease is out.
    pub open spec fn is_free(&self) -> bool {
        self.0 == 0
    }

    /// The writer lease is out.
    pub open spec fn has_writer(&self) -> bool {
        self.0 == usize::MAX
    }

    /// How many read leases are out.
    pub open spec fn reader_count(&self) -> int {
        if self.has_writer() {
            0
        } else {
            self.0 as int
        }
    }

    /// Whether a lease of the given kind can be allocated: a reader while
    /// the counter stays below the ceiling, a writer only from the free
    /// state.
    pub open spec fn can_allocate(&self, method: Method) -> bool {
        match method {
            Method::Read => self.0 < usize::MAX - 1,
            Method::Write => self.0 == 0,
        }
    }

    /// The free counter.
    pub fn new() -> (r: State)
        ensures
            r.is_free(),
    {
        State(0)
    }

    /// Tries to allocate a lease: a reader increments the counter, a writer
    /// jumps it to the ceiling. Fails — leaving the counter unchanged —
    /// exactly when the lease is not allocatable.
    pub fn allocate(&mut self, method: Method) -> (r: bool)
        ensures
            r == old(self).can_allocate(method),
            !r ==> *final(self) == *old(self),
            r && method is Read ==> final(self).0 == old(self).0 + 1,
            r && method is Write ==> final(self).has_writer(),
    {
        let available = match method {
            Method::Read => self.0 < usize::MAX - 1,
            Method::Write => self.0 == 0,
        };
        if available {
            self.0 = match method {
                Method::Read => self.0 + 1,
                Method::Write => usize::MAX,
            };
        }
        available
    }

    /// Returns a lease: a reader decrements the counter, the writer resets
    /// it to free. Only leases that are actually out can be returned.
    pub fn free(&mut self, method: Method)
        requires
            method is Read ==> 0 < old(self).0 < usize::MAX,
            method is Write ==> old(self).has_writer(),
        ensures
            method is Read ==> final(self).0 == old(self).0 - 1,
            method is Write ==> final(self).is_free(),
    {
        self.0 = match method {
            Method::Read => self.0 - 1,
            Method::Write => 0,
        };
    }
}

/// Read lease on a [`BaseRwLock`]; handed back to
/// [`BaseRwLock::unlock_read`]. Several read guards may be out at once.
#[must_use]
pub struct BaseRwLockReadGuard {
    _lease: (),
}

/// Write lease on a [`BaseRwLock`]: owns the guarded value while it is out.
/// Handed back to [`BaseRwLock::unlock_write`] or
/// [`BaseRwLock::unlock_write_with`].
#[must_use]
pub struct BaseRwLockWriteGuard<T> {
    data: T,
}

impl<T> BaseRwLockWriteGuard<T> {
    /// The guarded value.
    pub closed spec fn data_spec(&self) -> T {
        self.data
    }

    /// Read access to the guarded value.
    pub fn get(&self) -> (r: &T)
        ensures
            r == self.data_spec(),
    {
        &self.data
    }

    /// Write access to the guarded value.
    pub fn data_mut(&mut self) -> (r: &mut T)
        ensures
            *r == old(self).data_spec(),
            final(self).data_spec() == *final(r),
    {
        &mut self.data
    }

    /// Replaces the guarded value.
    pub fn set(&mut self, v: T)
        ensures
            final(self).data_spec() == v,
    {
        self.data = v;
    }
}

/// A reader/writer lock over an occupancy counter, with poisoning.
///
/// The state is (counter, poison bit, value). The value is present exactly
/// while no writer is active: the writer's guard owns it, readers borrow it
/// in place.
pub struct BaseRwLock<T, Hook, Env> where Hook: RwLockHook, Env: ThreadEnv {
    state: State,
    poison: bool,
    hook: Hook,
    env: PhantomData<Env>,
    data: Option<T>,
}

impl<T, Env> BaseRwLock<T, (), Env> where Env: ThreadEnv {
    /// Builds a free, unpoisoned lock with the trivial hook.
    pub fn new_unhooked(t: T) -> (r: Self)
        ensures
            r.wf(),
            r.state_spec().is_free(),
            !r.poisoned(),
            r.hook_allows_read(),
            r.hook_allows_write(),
            r.data_spec() == t,
    {
        BaseRwLock { state: State(0), poison: false, hook: (), env: PhantomData, data: Some(t) }
    }
}

impl<T, Hook, Env> BaseRwLock<T, Hook, Env> where Hook: RwLockHook, Env: ThreadEnv {
    /// The occupancy counter.
    pub closed spec fn state_spec(&self) -> State {
        self.state
    }

    /// The poison bit.
    pub closed spec fn poisoned(&self) -> bool {
        self.poison
    }

    /// The value slot: occupied exactly while no writer is active.
    pub closed spec fn data_opt(&self) -> Option<T> {
        self.data
    }

    /// The stored value; meaningful while no writer is active.
    pub open spec fn data_spec(&self) -> T {
        self.data_opt()->Some_0
    }

    /// Whether the hook currently admits a read acquisition.
    pub closed spec fn hook_allows_read(&self) -> bool {
        self.hook.allows_read()
    }

    /// Whether the hook currently admits a write acquisition.
    pub closed spec fn hook_allows_write(&self) -> bool {
        self.hook.allows_write()
    }

    /// The counter and the value slot agree: the value is out exactly while
    /// the writer is.
    pub open spec fn wf(&self) -> bool {
        self.state_spec().has_writer() <==> self.data_opt() is None
    }

    /// Builds a free, unpoisoned lock around `t`.
    pub fn new(t: T) -> (r: Self)
        ensures
            r.wf(),
            r.state_spec().is_free(),
            !r.poisoned(),
            r.data_spec() == t,
    {
        BaseRwLock { state: State(0), poison: false, hook: Hook::new(), env: PhantomData, data: Some(t) }
    }

    /// Exclusive access to the value without locking, possible because the
    /// caller already holds the lock exclusively. The poison state is read
    /// with [`Self::is_poisoned`].
    pub fn get_mut(&mut self) -> (r: &mut T)
        requires
            old(self).wf(),
            old(self).state_spec().is_free(),
        ensures
            *r == old(self).data_spec(),
            final(self).data_opt() == Some(*final(r)),
            final(self).state_spec() == old(self).state_spec(),
            final(self).poisoned() == old(self).poisoned(),
            final(self).hook_allows_read() == old(self).hook_allows_read(),
            final(self).hook_allows_write() == old(self).hook_allows_write(),
            final(self).wf(),
    {
        if let Some(d) = &mut self.data {
            d
        } else {
            unreached()
        }
    }

    /// Consumes the lock and hands the value back, wrapped in the poison
    /// result.
    pub fn into_inner(self) -> (r: LockResult<T>)
        requires
            self.wf(),
            self.state_spec().is_free(),
        ensures
            self.poisoned() <==> r is Err,
            r is Err ==> r->Err_0.data == self.data_spec(),
            r is Ok ==> r->Ok_0 == self.data_spec(),
    {
        let poisoned = self.poison;
        wrap_lock_result(poisoned, self.data.unwrap())
    }

    /// Whether a writer released this lock while unwinding.
    pub fn is_poisoned(&self) -> (r: bool)
        ensures
            r == self.poisoned(),
    {
        self.poison
    }

    /// Clears the poison bit; the occupancy and the value are untouched.
    pub fn clear_poison(&mut self)
        ensures
            !final(self).poisoned(),
            final(self).state_spec() == old(self).state_spec(),
            final(self).data_opt() == old(self).data_opt(),
            final(self).hook_allows_read() == old(self).hook_allows_read(),
            final(self).hook_allows_write() == old(self).hook_allows_write(),
    {
        self.poison = false;
    }

    /// Non-blocking read acquisition: consults the hook, then tries to
    /// allocate a read lease. A veto or a full counter or an active writer
    /// answers `WouldBlock` and changes nothing; an allocated lease comes
    /// back as a guard, wrapped as `Poisoned` exactly when the poison bit
    /// is set.
    pub fn try_read(&mut self) -> (r: TryLockResult<BaseRwLockReadGuard>)
        requires
            old(self).wf(),
        ensures
            final(self).wf(),
            final(self).poisoned() == old(self).poisoned(),
            final(self).data_opt() == old(self).data_opt(),
            final(self).hook_allows_read() == old(self).hook_allows_read(),
            final(self).hook_allows_write() == old(self).hook_allows_write(),
            r is Err && r->Err_0 is WouldBlock <==> !old(self).hook_allows_read()
                || !old(self).state_spec().can_allocate(Method::Read),
            r is Err && r->Err_0 is WouldBlock ==> *final(self) == *old(self),
            old(self).hook_allows_read() && old(self).state_spec().can_allocate(Method::Read) ==>
                final(self).state_spec().0 == old(self).state_spec().0 + 1
                && (if old(self).poisoned() {
                    r is Err && r->Err_0 is Poisoned
                } else {
                    r is Ok
                }),
    {
        let answer = self.hook.try_read();
        if let ShouldBlock::Block = answer {
            return Err(TryLockError::WouldBlock);
        }
        if self.state.allocate(Method::Read) {
            let guard = BaseRwLockReadGuard { _lease: () };
            if self.poison {
                Err(TryLockError::Poisoned(PoisonError::new(guard)))
            } else {
                Ok(guard)
            }
        } else {
            Err(TryLockError::WouldBlock)
        }
    }

    /// Blocking read acquisition: enabled exactly where the running
    /// system's retry loop would succeed at once — the hook allows and the
    /// counter can take another reader.
    pub fn read(&mut self) -> (r: LockResult<BaseRwLockReadGuard>)
        requires
            old(self).wf(),
            old(self).hook_allows_read(),
            old(self).state_spec().can_allocate(Method::Read),
        ensures
            final(self).wf(),
            final(self).poisoned() == old(self).poisoned(),
            final(self).data_opt() == old(self).data_opt(),
            final(self).hook_allows_read() == old(self).hook_allows_read(),
            final(self).hook_allows_write() == old(self).hook_allows_write(),
            final(self).state_spec().0 == old(self).state_spec().0 + 1,
            old(self).poisoned() <==> r is Err,
    {
        match self.try_read() {
            Ok(guard) => Ok(guard),
            Err(TryLockError::Poisoned(poison)) => Err(poison),
            Err(TryLockError::WouldBlock) => unreached(),
        }
    }

    /// Non-blocking write acquisition: consults the hook, then tries to
    /// allocate the writer lease. A veto or any occupancy answers
    /// `WouldBlock` and changes nothing; on success the guarded value moves
    /// into the guard, wrapped as `Poisoned` exactly when the poison bit is
    /// set.
    pub fn try_write(&mut self) -> (r: TryLockResult<BaseRwLockWriteGuard<T>>)
        requires
            old(self).wf(),
        ensures
            final(self).wf(),
            final(self).poisoned() == old(self).poisoned(),
            final(self).hook_allows_read() == old(self).hook_allows_read(),
            final(self).hook_allows_write() == old(self).hook_allows_write(),
            r is Err && r->Err_0 is WouldBlock <==> !old(self).hook_allows_write()
                || !old(self).state_spec().can_allocate(Method::Write),
            r is Err && r->Err_0 is WouldBlock ==> *final(self) == *old(self),
            old(self).hook_allows_write() && old(self).state_spec().can_allocate(Method::Write) ==>
                final(self).state_spec().has_writer()
                && (if old(self).poisoned() {
                    r is Err && r->Err_0 is Poisoned
                        && r->Err_0->Poisoned_0.data.data_spec() == old(self).data_spec()
                } else {
                    r is Ok && r->Ok_0.data_spec() == old(self).data_spec()
                }),
    {
        let answer = self.hook.try_write();
        if let ShouldBlock::Block = answer {
            return Err(TryLockError::WouldBlock);
        }
        if self.state.allocate(Method::Write) {
            let data = self.data.take();
            let guard = BaseRwLockWriteGuard { data: data.unwrap() };
            if self.poison {
                Err(TryLockError::Poisoned(PoisonError::new(guard)))
            } else {
                Ok(guard)
            }
        } else {
            Err(TryLockError::WouldBlock)
        }
    }

    /// Blocking write acquisition: enabled exactly where the running
    /// system's retry loop would succeed at once — the hook allows and the
    /// lock is free.
    pub fn write(&mut self) -> (r: LockResult<BaseRwLockWriteGuard<T>>)
        requires
            old(self).wf(),
            old(self).hook_allows_write(),
            old(self).state_spec().can_allocate(Method::Write),
        ensures
            final(self).wf(),
            final(self).poisoned() == old(self).poisoned(),
            final(self).hook_allows_read() == old(self).hook_allows_read(),
            final(self).hook_allows_write() == old(self).hook_allows_write(),
            final(self).state_spec().has_writer(),
            old(self).poisoned() <==> r is Err,
            r is Err ==> r->Err_0.data.data_spec() == old(self).data_spec(),
            r is Ok ==> r->Ok_0.data_spec() == old(self).data_spec(),
    {
        match self.try_write() {
            Ok(guard) => Ok(guard),
            Err(TryLockError::Poisoned(poison)) => Err(poison),
            Err(TryLockError::WouldBlock) => unreached(),
        }
    }

    /// Borrows the guarded value through an outstanding read lease: while
    /// readers are counted, no writer is active and the value is in place.
    pub fn read_data(&self, guard: &BaseRwLockReadGuard) -> (r: &T)
        requires
            self.wf(),
            0 < self.state_spec().0 < usize::MAX,
        ensures
            r == self.data_spec(),
            self.data_opt() is Some,
    {
        let _ = guard;
        if let Some(d) = &self.data {
            d
        } else {
            unreached()
        }
    }

    /// Returns a read lease. Dropping a read lease never touches the poison
    /// bit, unwinding or not: a reader cannot have left the value in a
    /// partial state.
    pub fn unlock_read(&mut self, guard: BaseRwLockReadGuard)
        requires
            old(self).wf(),
            0 < old(self).state_spec().0 < usize::MAX,
        ensures
            final(self).wf(),
            final(self).state_spec().0 == old(self).state_spec().0 - 1,
            final(self).poisoned() == old(self).poisoned(),
            final(self).data_opt() == old(self).data_opt(),
            final(self).hook_allows_read() == old(self).hook_allows_read(),
            final(self).hook_allows_write() == old(self).hook_allows_write(),
    {
        let BaseRwLockReadGuard { _lease } = guard;
        self.state.free(Method::Read);
        self.hook.after_read();
    }

    /// Returns the writer lease with an explicit unwinding flag: the value
    /// moves back into the lock, the counter resets to free, and the poison
    /// bit ORs in `panicking` — so an unwinding release leaves the lock
    /// poisoned and a normal release never changes the poison state.
    pub fn unlock_write_with(&mut self, guard: BaseRwLockWriteGuard<T>, panicking: bool)
        requires
            old(self).wf(),
            old(self).state_spec().has_writer(),
        ensures
            final(self).wf(),
            final(self).state_spec().is_free(),
            final(self).data_spec() == guard.data_spec(),
            final(self).data_opt() is Some,
            final(self).poisoned() == (old(self).poisoned() || panicking),
            final(self).hook_allows_read() == old(self).hook_allows_read(),
            final(self).hook_allows_write() == old(self).hook_allows_write(),
    {
        let BaseRwLockWriteGuard { data } = guard;
        self.state.free(Method::Write);
        self.data = Some(data);
        self.poison = self.poison || panicking;
        self.hook.after_write();
    }

    /// Returns the writer lease: reads whether the environment is
    /// unwinding, then runs the exact protocol of
    /// [`Self::unlock_write_with`]. Whatever the environment answered, an
    /// already poisoned lock stays poisoned.
    pub fn unlock_write(&mut self, guard: BaseRwLockWriteGuard<T>)
        requires
            old(self).wf(),
            old(self).state_spec().has_writer(),
        ensures
            final(self).wf(),
            final(self).state_spec().is_free(),
            final(self).data_spec() == guard.data_spec(),
            final(self).data_opt() is Some,
            old(self).poisoned() ==> final(self).poisoned(),
            final(self).hook_allows_read() == old(self).hook_allows_read(),
            final(self).hook_allows_write() == old(self).hook_allows_write(),
    {
        let panicking = Env::panicking();
        self.unlock_write_with(guard, panicking);
    }
}

/// Writer exclusivity for the counter lock: while the writer lease is out,
/// there are no readers, no second writer can be allocated, and no reader
/// can be allocated; and while any reader is out, the writer lease cannot
/// be allocated. The writer's guard also owns the guarded value outright.
pub proof fn lemma_rwlock_writer_exclusivity(s: State)
    ensures
        s.has_writer() ==> s.reader_count() == 0,
        s.has_writer() ==> !s.can_allocate(Method::Write) && !s.can_allocate(Method::Read),
        s.reader_count() > 0 ==> !s.can_allocate(Method::Write),
{
}

/// Read concurrency for the counter lock: a lock that is already read-held
/// still admits further readers until the ceiling, so multiple read guards
/// may be out at once.
pub proof fn lemma_rwlock_read_concurrency(s: State)
    ensures
        0 < s.0 < usize::MAX - 1 ==> s.can_allocate(Method::Read),
        s.can_allocate(Method::Read) ==> s.reader_count() < usize::MAX - 1,
{
}

/// Round trip: a freshly built lock is unpoisoned and stores its value,
/// and on any unpoisoned state the contract of `into_inner` admits only
/// `Ok` with the stored value — so `new(v)` followed by `into_inner()`
/// yields `v`.
pub proof fn lemma_rwlock_round_trip<T, Hook: RwLockHook, Env: ThreadEnv>(
    l: BaseRwLock<T, Hook, Env>,
    v: T,
    r: LockResult<T>,
)
    requires
        !l.poisoned(),
        l.data_spec() == v,
        l.poisoned() <==> r is Err,
        r is Ok ==> r->Ok_0 == l.data_spec(),
    ensures
        r is Ok,
        r->Ok_0 == v,
{
}

} // verus!
