//! The strategy-driven, queued reader/writer lock.
//!
//! Composes a [`LockedQueue`] scheduler with the guarded value and a poison
//! bit. Acquisition enqueues a fresh waiter and runs the caller-supplied
//! strategy; a writer that is admitted takes the value into its guard, and
//! readers borrow it in place through [`StrategiedRwLock::read_data`].
//! Release removes the waiter and re-runs the strategy over the shorter
//! queue.
//!
//! Where the running system panics on a strategy logic error, these
//! operations report the [`StrategyLogicError`] as a value; the lock is
//! marked broken all the same, further acquisitions are refused, and
//! releases stay best-effort so that guard drops complete.
//!
//! The lock composes the scheduler sequentially; an embedding that parks
//! real threads drives [`LockedQueue`] directly, which hands back the
//! identities to unpark after every decision.

use vstd::prelude::*;

use crate::handle::{HandleId, ThreadEnv};
use crate::poison::{LockResult, PoisonError, TryLockError, TryLockResult};
use crate::queue::{
    LockEntry, LockedQueue, StrategyLogicError, admitted_id, contains_id, decision_of,
    enforce_verdict, enforced_state, has_admitted_writer, has_write_entry, id_index, keys_of,
    method_of, revocation_among, rw_conflict_among, state_of, ww_conflict_among,
};
use crate::strategies::{FairStrategy, Method, State, Strategy};
use core::marker::PhantomData;

verus! {

/// Read lease on a [`StrategiedRwLock`]; handed back to
/// [`StrategiedRwLock::finish_read`]. Several read guards may be out at
/// once.
#[must_use]
pub struct StrategiedRwLockReadGuard {
    handle_id: HandleId,
}

impl StrategiedRwLockReadGuard {
    /// The identity of the waiter this guard belongs to.
    pub closed spec fn id_spec(&self) -> HandleId {
        self.handle_id
    }

    /// The identity of the waiter this guard belongs to.
    pub fn id(&self) -> (r: HandleId)
        ensures
            r == self.id_spec(),
    {
        self.handle_id
    }
}

/// Write lease on a [`StrategiedRwLock`]: owns the guarded value while it
/// is out. Handed back to [`StrategiedRwLock::finish_write`] or
/// [`StrategiedRwLock::finish_write_with`].
#[must_use]
pub struct StrategiedRwLockWriteGuard<T> {
    handle_id: HandleId,
    data: T,
}

impl<T> StrategiedRwLockWriteGuard<T> {
    /// The identity of the waiter this guard belongs to.
    pub closed spec fn id_spec(&self) -> HandleId {
        self.handle_id
    }

    /// The guarded value.
    pub closed spec fn data_spec(&self) -> T {
        self.data
    }

    /// The identity of the waiter this guard belongs to.
    pub fn id(&self) -> (r: HandleId)
        ensures
            r == self.id_spec(),
    {
        self.handle_id
    }

    /// Read access to the guarded value.
    pub fn get(&self) -> (r: &T)
        ensures
            r == self.data_spec(),
    {
        &self.data
    }

    /// Write access to the guarded value.
    pub fn data_mut(&mut self) -> (r: &mut T)
        ensures
            *r == old(self).data_spec(),
            final(self).data_spec() == *final(r),
            final(self).id_spec() == old(self).id_spec(),
    {
        &mut self.data
    }

    /// Replaces the guarded value.
    pub fn set(&mut self, v: T)
        ensures
            final(self).data_spec() == v,
            final(self).id_spec() == old(self).id_spec(),
    {
        self.data = v;
    }
}

/// A reader/writer lock whose admissions are decided by a caller-supplied
/// [`Strategy`] over a FIFO waiter queue.
///
/// The state is (queue, poison bit, value). The value is present exactly
/// while no write guard is out; while one is out, its waiter stands
/// admitted in the queue — unless a logic error has broken the lock, after
/// which only the waiter's presence is still guaranteed.
pub struct StrategiedRwLock<T, S, Env> where S: Strategy, Env: ThreadEnv {
    queue: LockedQueue<S>,
    poisoned: bool,
    env: PhantomData<Env>,
    data: Option<T>,
}

impl<T, Env> StrategiedRwLock<T, FairStrategy, Env> where Env: ThreadEnv {
    /// Builds a lock driven by the FIFO fair strategy.
    pub fn new(t: T) -> (r: Self)
        ensures
            r.wf(),
            !r.broken(),
            !r.poisoned_spec(),
            r.entries_spec().len() == 0,
            r.data_spec() == t,
            r.data_opt() is Some,
            r.can_enqueue(),
            r.next_id_spec() == 1,
            r.all_readers(),
    {
        Self::new_strategied(t, FairStrategy)
    }

    /// Whether every queued waiter asks for read access.
    pub open spec fn all_readers(&self) -> bool {
        forall|i: int| 0 <= i < self.entries_spec().len() ==> self.entries_spec()[i].method is Read
    }

    /// Blocking read acquisition under the fair policy. The running system
    /// enqueues, then parks until admitted; here the machine is quiescent
    /// while the caller holds it, so the operation is enabled exactly where
    /// the fair policy admits the new reader at once: every queued waiter
    /// is a reader. The fair policy provably admits the whole batch, so the
    /// guard is owed, wrapped as `Err` exactly when the lock is poisoned.
    pub fn read(&mut self) -> (r: LockResult<StrategiedRwLockReadGuard>)
        requires
            old(self).wf(),
            old(self).can_enqueue(),
            !old(self).broken(),
            old(self).all_readers(),
        ensures
            final(self).wf(),
            !final(self).broken(),
            final(self).all_readers(),
            final(self).poisoned_spec() == old(self).poisoned_spec(),
            final(self).data_opt() == old(self).data_opt(),
            final(self).next_id_spec() == old(self).next_id_spec() + 1,
            final(self).entries_spec().len() == old(self).entries_spec().len() + 1,
            forall|x: HandleId|
                contains_id(old(self).entries_spec(), x) ==> contains_id(
                    final(self).entries_spec(),
                    x,
                ) && method_of(final(self).entries_spec(), x) == method_of(
                    old(self).entries_spec(),
                    x,
                ),
            forall|i: int|
                0 <= i < final(self).entries_spec().len() ==> final(self).entries_spec()[i].state is Admitted,
            old(self).poisoned_spec() <==> r is Err,
            ({
                let g = if r is Ok {
                    r->Ok_0
                } else {
                    r->Err_0.data
                };
                &&& g.id_spec() == HandleId(old(self).next_id_spec())
                &&& contains_id(final(self).entries_spec(), g.id_spec())
                &&& state_of(final(self).entries_spec(), g.id_spec()) is Admitted
                &&& method_of(final(self).entries_spec(), g.id_spec()) is Read
            }),
    {
        let ghost pre = *self;
        let ghost id_g = HandleId(pre.next_id_spec());
        let ghost grown = pre.entries_spec().push(
            (LockEntry { handle_id: id_g, method: Method::Read, state: State::Blocked }),
        );
        proof {
            lemma_fair_admits_read_batch_queue(grown, pre.queue_spec().strategy_spec(), id_g);
        }
        let result = self.queue.do_acquire(Method::Read);
        proof {
            crate::queue::lemma_prefix_keeps_identity(
                pre.entries_spec(),
                self.queue.entries_spec(),
            );
        }
        match result {
            Err(_) => unreached(),
            Ok((id, st, _unparks)) => {
                proof {
                    let s = self.queue.entries_spec();
                    let prop = decision_of(pre.queue_spec().strategy_spec(), keys_of(grown));
                    assert(s[s.len() - 1].state == enforced_state(grown, prop, id_g, s.len() - 1));
                    assert forall|i: int| 0 <= i < s.len() implies s[i].state is Admitted by {
                        assert(s[i].state == enforced_state(grown, prop, id_g, i));
                    }
                    crate::queue::lemma_id_index_unique(s, id, s.len() - 1);
                }
                if st == State::Blocked {
                    return unreached();
                }
                let guard = StrategiedRwLockReadGuard { handle_id: id };
                if self.poisoned {
                    Err(PoisonError::new(guard))
                } else {
                    Ok(guard)
                }
            }
        }
    }

    /// Blocking write acquisition under the fair policy: enabled exactly
    /// where the running system's writer would not park — the queue is
    /// empty. The fair policy provably admits a writer at the head, so the
    /// guard is owed, holding the value, wrapped as `Err` exactly when the
    /// lock is poisoned.
    pub fn write(&mut self) -> (r: LockResult<StrategiedRwLockWriteGuard<T>>)
        requires
            old(self).wf(),
            old(self).can_enqueue(),
            !old(self).broken(),
            old(self).entries_spec().len() == 0,
        ensures
            final(self).wf(),
            !final(self).broken(),
            final(self).poisoned_spec() == old(self).poisoned_spec(),
            final(self).next_id_spec() == old(self).next_id_spec() + 1,
            final(self).entries_spec().len() == 1,
            final(self).data_opt() is None,
            old(self).data_opt() is Some,
            old(self).poisoned_spec() <==> r is Err,
            ({
                let g = if r is Ok {
                    r->Ok_0
                } else {
                    r->Err_0.data
                };
                &&& g.id_spec() == HandleId(old(self).next_id_spec())
                &&& g.data_spec() == old(self).data_spec()
                &&& contains_id(final(self).entries_spec(), g.id_spec())
                &&& state_of(final(self).entries_spec(), g.id_spec()) is Admitted
                &&& method_of(final(self).entries_spec(), g.id_spec()) is Write
            }),
    {
        let ghost pre = *self;
        let ghost id_g = HandleId(pre.next_id_spec());
        let ghost grown = pre.entries_spec().push(
            (LockEntry { handle_id: id_g, method: Method::Write, state: State::Blocked }),
        );
        proof {
            lemma_fair_admits_lone_writer(grown, pre.queue_spec().strategy_spec(), id_g);
            if pre.data_opt() is None {
                let j = choose|j: int|
                    0 <= j < pre.entries_spec().len() && pre.entries_spec()[j].method is Write;
                assert(false);
            }
        }
        let result = self.queue.do_acquire(Method::Write);
        match result {
            Err(_) => unreached(),
            Ok((id, st, _unparks)) => {
                proof {
                    let s = self.queue.entries_spec();
                    assert(s[s.len() - 1].state == enforced_state(
                        grown,
                        decision_of(pre.queue_spec().strategy_spec(), keys_of(grown)),
                        id_g,
                        s.len() - 1,
                    ));
                    crate::queue::lemma_id_index_unique(s, id, s.len() - 1);
                }
                if st == State::Blocked {
                    return unreached();
                }
                let data = self.data.take();
                let guard = StrategiedRwLockWriteGuard { handle_id: id, data: data.unwrap() };
                if self.poisoned {
                    Err(PoisonError::new(guard))
                } else {
                    Ok(guard)
                }
            }
        }
    }
}

impl<T, S, Env> StrategiedRwLock<T, S, Env> where S: Strategy, Env: ThreadEnv {
    /// The scheduler state.
    pub closed spec fn queue_spec(&self) -> LockedQueue<S> {
        self.queue
    }

    /// The waiters, in arrival order.
    pub open spec fn entries_spec(&self) -> Seq<LockEntry> {
        self.queue_spec().entries_spec()
    }

    /// The sticky bit set when a strategy logic error broke the lock.
    pub open spec fn broken(&self) -> bool {
        self.queue_spec().broken_spec()
    }

    /// The next fresh actor identity.
    pub open spec fn next_id_spec(&self) -> u128 {
        self.queue_spec().next_id_spec()
    }

    /// The identity source is not exhausted.
    pub open spec fn can_enqueue(&self) -> bool {
        self.queue_spec().can_enqueue()
    }

    /// The poison bit.
    pub closed spec fn poisoned_spec(&self) -> bool {
        self.poisoned
    }

    /// The value slot: occupied exactly while no write guard is out.
    pub closed spec fn data_opt(&self) -> Option<T> {
        self.data
    }

    /// The stored value; meaningful while no write guard is out.
    pub open spec fn data_spec(&self) -> T {
        self.data_opt()->Some_0
    }

    /// Lock sanity: the queue is sane; while the value is out a writer
    /// stands in the queue — an admitted one, as long as no logic error
    /// has broken the lock.
    pub open spec fn wf(&self) -> bool {
        &&& self.queue_spec().wf()
        &&& self.data_opt() is None ==> has_write_entry(self.entries_spec())
        &&& !self.broken() && self.data_opt() is None ==> has_admitted_writer(self.entries_spec())
    }

    /// Builds a lock around `t`, driven by `strategy`.
    pub fn new_strategied(t: T, strategy: S) -> (r: Self)
        ensures
            r.wf(),
            !r.broken(),
            !r.poisoned_spec(),
            r.entries_spec().len() == 0,
            r.data_spec() == t,
            r.data_opt() is Some,
            r.can_enqueue(),
            r.next_id_spec() == 1,
    {
        StrategiedRwLock {
            queue: LockedQueue::new(strategy),
            poisoned: false,
            env: PhantomData,
            data: Some(t),
        }
    }

    /// Whether a write guard was dropped while unwinding.
    pub fn is_poisoned(&self) -> (r: bool)
        ensures
            r == self.poisoned_spec(),
    {
        self.poisoned
    }

    /// Clears the poison bit; queue and value are untouched.
    pub fn clear_poison(&mut self)
        ensures
            !final(self).poisoned_spec(),
            final(self).queue_spec() == old(self).queue_spec(),
            final(self).data_opt() == old(self).data_opt(),
    {
        self.poisoned = false;
    }

    /// Exclusive access to the value without locking, possible because the
    /// caller already holds the lock exclusively.
    pub fn get_mut(&mut self) -> (r: &mut T)
        requires
            old(self).wf(),
            old(self).data_opt() is Some,
        ensures
            *r == old(self).data_spec(),
            final(self).data_opt() == Some(*final(r)),
            final(self).queue_spec() == old(self).queue_spec(),
            final(self).poisoned_spec() == old(self).poisoned_spec(),
            final(self).wf(),
    {
        if let Some(d) = &mut self.data {
            d
        } else {
            unreached()
        }
    }

    /// Consumes the lock and hands the value back, wrapped in the poison
    /// result.
    pub fn into_inner(self) -> (r: LockResult<T>)
        requires
            self.wf(),
            self.data_opt() is Some,
        ensures
            self.poisoned_spec() <==> r is Err,
            r is Err ==> r->Err_0.data == self.data_spec(),
            r is Ok ==> r->Ok_0 == self.data_spec(),
    {
        let poisoned = self.poisoned;
        crate::poison::wrap_lock_result(poisoned, self.data.unwrap())
    }

    /// Borrows the guarded value through an outstanding read guard. The
    /// guard's waiter is an admitted reader, so no write guard can be out
    /// and the value is in place.
    pub fn read_data(&self, guard: &StrategiedRwLockReadGuard) -> (r: &T)
        requires
            self.wf(),
            !self.broken(),
            contains_id(self.entries_spec(), guard.id_spec()),
            state_of(self.entries_spec(), guard.id_spec()) is Admitted,
            method_of(self.entries_spec(), guard.id_spec()) is Read,
        ensures
            r == self.data_spec(),
            self.data_opt() is Some,
    {
        proof {
            if self.data_opt() is None {
                let s = self.entries_spec();
                let i = id_index(s, guard.id_spec());
                let j = choose|j: int|
                    0 <= j < s.len() && s[j].state is Admitted && s[j].method is Write;
                assert(s[i].state is Admitted && s[i].method is Read);
                assert(i != j);
                assert(false);
            }
        }
        if let Some(d) = &self.data {
            d
        } else {
            unreached()
        }
    }

    /// Non-blocking read acquisition. A broken lock refuses outright; a
    /// strategy logic error is reported, breaks the lock, and leaves the
    /// fresh waiter enqueued; a blocked verdict answers `WouldBlock` with
    /// the queue as if the attempt had not been enqueued; an admission
    /// hands out a read guard, wrapped as `Poisoned` exactly when the
    /// poison bit is set. The value itself never moves on a read.
    pub fn try_read(&mut self) -> (r: Result<
        TryLockResult<StrategiedRwLockReadGuard>,
        StrategyLogicError,
    >)
        requires
            old(self).wf(),
            old(self).can_enqueue(),
        ensures
            final(self).wf(),
            final(self).poisoned_spec() == old(self).poisoned_spec(),
            final(self).data_opt() == old(self).data_opt(),
            old(self).broken() ==> r is Err && r->Err_0 is BrokenLock && *final(self) == *old(self),
            !old(self).broken() ==> final(self).next_id_spec() == old(self).next_id_spec() + 1
                && final(self).broken() == (r is Err && !(r->Err_0 is BrokenLock)),
            !old(self).broken() && r is Err ==> final(self).entries_spec().len() == old(self).entries_spec().len() + 1,
            !old(self).broken() && r is Ok && r->Ok_0 is Err && r->Ok_0->Err_0 is WouldBlock
                ==> final(self).entries_spec().len() == old(self).entries_spec().len(),
            !old(self).broken() && r is Ok && r->Ok_0 is Ok ==> !old(self).poisoned_spec() && ({
                let g = r->Ok_0->Ok_0;
                &&& g.id_spec() == HandleId(old(self).next_id_spec())
                &&& contains_id(final(self).entries_spec(), g.id_spec())
                &&& state_of(final(self).entries_spec(), g.id_spec()) is Admitted
                &&& method_of(final(self).entries_spec(), g.id_spec()) is Read
            }),
            !old(self).broken() && r is Ok && r->Ok_0 is Err && r->Ok_0->Err_0 is Poisoned ==> old(self).poisoned_spec() && ({
                let g = r->Ok_0->Err_0->Poisoned_0.data;
                &&& g.id_spec() == HandleId(old(self).next_id_spec())
                &&& contains_id(final(self).entries_spec(), g.id_spec())
                &&& state_of(final(self).entries_spec(), g.id_spec()) is Admitted
                &&& method_of(final(self).entries_spec(), g.id_spec()) is Read
            }),
    {
        let ghost pre = *self;
        match self.queue.try_acquire(Method::Read) {
            Err(e) => {
                proof {
                    lemma_write_entry_kept_on_grow(
                        pre.entries_spec(),
                        self.queue.entries_spec(),
                    );
                }
                Err(e)
            }
            Ok((None, _unparks)) => {
                proof {
                    lemma_write_entry_kept_same_keys(
                        pre.entries_spec(),
                        self.queue.entries_spec(),
                    );
                    lemma_admitted_writer_kept(pre.entries_spec(), self.queue.entries_spec());
                }
                Ok(Err(TryLockError::WouldBlock))
            }
            Ok((Some(id), _unparks)) => {
                proof {
                    let s = self.queue.entries_spec();
                    crate::queue::lemma_id_index_unique(s, id, s.len() - 1);
                    lemma_write_entry_kept_on_grow(pre.entries_spec(), s);
                    lemma_admitted_writer_kept(pre.entries_spec(), s);
                }
                let guard = StrategiedRwLockReadGuard { handle_id: id };
                if self.poisoned {
                    Ok(Err(TryLockError::Poisoned(PoisonError::new(guard))))
                } else {
                    Ok(Ok(guard))
                }
            }
        }
    }

    /// Non-blocking write acquisition. As [`Self::try_read`], but an
    /// admitted writer takes the value into its guard: the admitted writer
    /// stands alone, so the value is necessarily in place when admission
    /// succeeds.
    pub fn try_write(&mut self) -> (r: Result<
        TryLockResult<StrategiedRwLockWriteGuard<T>>,
        StrategyLogicError,
    >)
        requires
            old(self).wf(),
            old(self).can_enqueue(),
        ensures
            final(self).wf(),
            final(self).poisoned_spec() == old(self).poisoned_spec(),
            old(self).broken() ==> r is Err && r->Err_0 is BrokenLock && *final(self) == *old(self),
            !old(self).broken() ==> final(self).next_id_spec() == old(self).next_id_spec() + 1
                && final(self).broken() == (r is Err && !(r->Err_0 is BrokenLock)),
            !old(self).broken() && r is Err ==> final(self).entries_spec().len() == old(self).entries_spec().len() + 1 && final(self).data_opt() == old(self).data_opt(),
            !old(self).broken() && r is Ok && r->Ok_0 is Err && r->Ok_0->Err_0 is WouldBlock
                ==> final(self).entries_spec().len() == old(self).entries_spec().len() && final(self).data_opt() == old(self).data_opt(),
            !old(self).broken() && r is Ok && r->Ok_0 is Ok ==> !old(self).poisoned_spec() && ({
                let g = r->Ok_0->Ok_0;
                &&& g.id_spec() == HandleId(old(self).next_id_spec())
                &&& g.data_spec() == old(self).data_spec()
                &&& old(self).data_opt() is Some
                &&& final(self).data_opt() is None
                &&& contains_id(final(self).entries_spec(), g.id_spec())
                &&& state_of(final(self).entries_spec(), g.id_spec()) is Admitted
                &&& method_of(final(self).entries_spec(), g.id_spec()) is Write
            }),
            !old(self).broken() && r is Ok && r->Ok_0 is Err && r->Ok_0->Err_0 is Poisoned ==> old(self).poisoned_spec() && ({
                let g = r->Ok_0->Err_0->Poisoned_0.data;
                &&& g.id_spec() == HandleId(old(self).next_id_spec())
                &&& g.data_spec() == old(self).data_spec()
                &&& old(self).data_opt() is Some
                &&& final(self).data_opt() is None
                &&& contains_id(final(self).entries_spec(), g.id_spec())
                &&& state_of(final(self).entries_spec(), g.id_spec()) is Admitted
                &&& method_of(final(self).entries_spec(), g.id_spec()) is Write
            }),
    {
        let ghost pre = *self;
        match self.queue.try_acquire(Method::Write) {
            Err(e) => {
                proof {
                    lemma_write_entry_kept_on_grow(
                        pre.entries_spec(),
                        self.queue.entries_spec(),
                    );
                }
                Err(e)
            }
            Ok((None, _unparks)) => {
                proof {
                    lemma_write_entry_kept_same_keys(
                        pre.entries_spec(),
                        self.queue.entries_spec(),
                    );
                    lemma_admitted_writer_kept(pre.entries_spec(), self.queue.entries_spec());
                }
                Ok(Err(TryLockError::WouldBlock))
            }
            Ok((Some(id), _unparks)) => {
                proof {
                    let s = self.queue.entries_spec();
                    let n = s.len() as int;
                    crate::queue::lemma_id_index_unique(s, id, n - 1);
                    if pre.data_opt() is None {
                        let j = choose|j: int|
                            0 <= j < pre.entries_spec().len() && pre.entries_spec()[j].state
                                is Admitted && pre.entries_spec()[j].method is Write;
                        assert(s[j].state is Admitted);
                        assert(s[j].method is Write);
                        assert(s[n - 1].state is Admitted);
                        assert(j != n - 1);
                        assert(false);
                    }
                }
                let data = self.data.take();
                let guard = StrategiedRwLockWriteGuard { handle_id: id, data: data.unwrap() };
                proof {
                    let s = self.queue.entries_spec();
                    assert(s[s.len() - 1].state is Admitted && s[s.len() - 1].method is Write);
                }
                if self.poisoned {
                    Ok(Err(TryLockError::Poisoned(PoisonError::new(guard))))
                } else {
                    Ok(Ok(guard))
                }
            }
        }
    }

    /// Releases a read guard. Never touches the poison bit, unwinding or
    /// not. On a broken lock the waiter is removed best-effort without
    /// re-running the strategy; otherwise the strategy is re-run over the
    /// shorter queue and may admit further waiters or be caught in a fresh
    /// logic error.
    pub fn finish_read(&mut self, guard: StrategiedRwLockReadGuard) -> (r: Result<
        (),
        StrategyLogicError,
    >)
        requires
            old(self).wf(),
            old(self).broken() || contains_id(old(self).entries_spec(), guard.id_spec()),
            contains_id(old(self).entries_spec(), guard.id_spec()) ==> method_of(
                old(self).entries_spec(),
                guard.id_spec(),
            ) is Read,
        ensures
            final(self).wf(),
            final(self).poisoned_spec() == old(self).poisoned_spec(),
            final(self).data_opt() == old(self).data_opt(),
            final(self).next_id_spec() == old(self).next_id_spec(),
            !contains_id(final(self).entries_spec(), guard.id_spec()),
            old(self).broken() ==> final(self).broken() && r is Ok,
            !old(self).broken() ==> final(self).broken() == (r is Err && !(r->Err_0
                is BrokenLock)),
            !old(self).broken() && r is Ok ==> (forall|x: HandleId|
                x != guard.id_spec() && admitted_id(old(self).entries_spec(), x) ==> admitted_id(
                    final(self).entries_spec(),
                    x,
                )),
            contains_id(old(self).entries_spec(), guard.id_spec()) ==> final(self).entries_spec().len() == old(self).entries_spec().len() - 1,
            forall|x: HandleId|
                x != guard.id_spec() && contains_id(old(self).entries_spec(), x) ==> contains_id(
                    final(self).entries_spec(),
                    x,
                ) && method_of(final(self).entries_spec(), x) == method_of(
                    old(self).entries_spec(),
                    x,
                ),
            (forall|i: int|
                0 <= i < old(self).entries_spec().len() ==> old(self).entries_spec()[i].method
                    is Read) ==> (forall|i: int|
                0 <= i < final(self).entries_spec().len() ==> final(self).entries_spec()[i].method
                    is Read),
    {
        let ghost pre = *self;
        let id = guard.id();
        let _ = guard;
        let result = self.queue.release(id);
        proof {
            let s0 = pre.entries_spec();
            let post = self.queue.entries_spec();
            if forall|i: int| 0 <= i < s0.len() ==> s0[i].method is Read {
                assert forall|i: int| 0 <= i < post.len() implies post[i].method is Read by {
                    if contains_id(s0, id) {
                        let idx = id_index(s0, id);
                        let ii = if i < idx {
                            i
                        } else {
                            i + 1
                        };
                        assert(s0.remove(idx)[i] == s0[ii]);
                        assert(s0[ii].method is Read);
                    } else {
                        assert(post == s0);
                    }
                }
            }
            if pre.data_opt() is None {
                if contains_id(s0, id) {
                    let idx = id_index(s0, id);
                    lemma_write_entry_survives_removal(s0, id, post);
                    if has_admitted_writer(s0) {
                        if pre.broken() || (result is Err && result->Err_0 is BrokenLock) {
                            assert forall|x: HandleId|
                                x != id && admitted_id(s0, x) implies admitted_id(post, x) by {
                                let j = choose|j: int|
                                    0 <= j < s0.len() && s0[j].handle_id == x && s0[j].state
                                        is Admitted;
                                assert(j != idx);
                                let jj = if j < idx { j } else { j - 1 };
                                assert(s0.remove(idx)[jj] == s0[j]);
                                assert(post[jj].handle_id == x && post[jj].state is Admitted);
                            }
                        }
                        if !self.queue.broken_spec() {
                            lemma_admitted_writer_survives_removal(s0, id, post);
                        }
                    }
                } else {
                    assert(post == s0);
                }
            }
        }
        match result {
            Ok(_unparks) => Ok(()),
            Err(e) => Err(e),
        }
    }

    /// Releases a write guard with an explicit unwinding flag: the value
    /// returns to the lock and the poison bit ORs in `panicking` — an
    /// unwinding release poisons the lock, a normal one never changes the
    /// poison state. The waiter is removed as for [`Self::finish_read`].
    pub fn finish_write_with(&mut self, guard: StrategiedRwLockWriteGuard<T>, panicking: bool) -> (r:
        Result<(), StrategyLogicError>)
        requires
            old(self).wf(),
            old(self).broken() || contains_id(old(self).entries_spec(), guard.id_spec()),
        ensures
            final(self).wf(),
            final(self).poisoned_spec() == (old(self).poisoned_spec() || panicking),
            final(self).data_opt() == Some(guard.data_spec()),
            final(self).data_spec() == guard.data_spec(),
            final(self).next_id_spec() == old(self).next_id_spec(),
            !contains_id(final(self).entries_spec(), guard.id_spec()),
            old(self).broken() ==> final(self).broken() && r is Ok,
            !old(self).broken() ==> final(self).broken() == (r is Err && !(r->Err_0
                is BrokenLock)),
            !old(self).broken() && r is Ok ==> (forall|x: HandleId|
                x != guard.id_spec() && admitted_id(old(self).entries_spec(), x) ==> admitted_id(
                    final(self).entries_spec(),
                    x,
                )),
            contains_id(old(self).entries_spec(), guard.id_spec()) ==> final(self).entries_spec().len() == old(self).entries_spec().len() - 1,
            forall|x: HandleId|
                x != guard.id_spec() && contains_id(old(self).entries_spec(), x) ==> contains_id(
                    final(self).entries_spec(),
                    x,
                ) && method_of(final(self).entries_spec(), x) == method_of(
                    old(self).entries_spec(),
                    x,
                ),
            (forall|i: int|
                0 <= i < old(self).entries_spec().len() ==> old(self).entries_spec()[i].method
                    is Read) ==> (forall|i: int|
                0 <= i < final(self).entries_spec().len() ==> final(self).entries_spec()[i].method
                    is Read),
    {
        let ghost pre = *self;
        let StrategiedRwLockWriteGuard { handle_id, data } = guard;
        self.data = Some(data);
        self.poisoned = self.poisoned || panicking;
        let result = self.queue.release(handle_id);
        proof {
            let s0 = pre.entries_spec();
            let post = self.queue.entries_spec();
            if forall|i: int| 0 <= i < s0.len() ==> s0[i].method is Read {
                assert forall|i: int| 0 <= i < post.len() implies post[i].method is Read by {
                    if contains_id(s0, handle_id) {
                        let idx = id_index(s0, handle_id);
                        let ii = if i < idx {
                            i
                        } else {
                            i + 1
                        };
                        assert(s0.remove(idx)[i] == s0[ii]);
                        assert(s0[ii].method is Read);
                    } else {
                        assert(post == s0);
                    }
                }
            }
        }
        match result {
            Ok(_unparks) => Ok(()),
            Err(e) => Err(e),
        }
    }

    /// Releases a write guard: reads whether the environment is unwinding,
    /// then runs the exact protocol of [`Self::finish_write_with`].
    /// Whatever the environment answered, an already poisoned lock stays
    /// poisoned.
    pub fn finish_write(&mut self, guard: StrategiedRwLockWriteGuard<T>) -> (r: Result<
        (),
        StrategyLogicError,
    >)
        requires
            old(self).wf(),
            old(self).broken() || contains_id(old(self).entries_spec(), guard.id_spec()),
        ensures
            final(self).wf(),
            old(self).poisoned_spec() ==> final(self).poisoned_spec(),
            final(self).data_opt() == Some(guard.data_spec()),
            final(self).next_id_spec() == old(self).next_id_spec(),
            !contains_id(final(self).entries_spec(), guard.id_spec()),
    {
        let panicking = Env::panicking();
        self.finish_write_with(guard, panicking)
    }
}

/// A write entry survives any change that preserves the first
/// `old` positions' methods and only appends.
proof fn lemma_write_entry_kept_on_grow(pre: Seq<LockEntry>, post: Seq<LockEntry>)
    requires
        post.len() >= pre.len(),
        forall|i: int| 0 <= i < pre.len() ==> post[i].method == pre[i].method,
    ensures
        has_write_entry(pre) ==> has_write_entry(post),
{
    if has_write_entry(pre) {
        let j = choose|j: int| 0 <= j < pre.len() && pre[j].method is Write;
        assert(post[j].method is Write);
    }
}

/// A write entry survives any change that keeps length and methods.
proof fn lemma_write_entry_kept_same_keys(pre: Seq<LockEntry>, post: Seq<LockEntry>)
    requires
        post.len() == pre.len(),
        forall|i: int| 0 <= i < pre.len() ==> post[i].method == pre[i].method,
    ensures
        has_write_entry(pre) ==> has_write_entry(post),
{
    if has_write_entry(pre) {
        let j = choose|j: int| 0 <= j < pre.len() && pre[j].method is Write;
        assert(post[j].method is Write);
    }
}

/// An admitted writer survives a change that keeps positions, methods and
/// admissions of the first `pre.len()` positions.
proof fn lemma_admitted_writer_kept(pre: Seq<LockEntry>, post: Seq<LockEntry>)
    requires
        post.len() >= pre.len(),
        forall|i: int| 0 <= i < pre.len() ==> post[i].method == pre[i].method,
        forall|i: int|
            0 <= i < pre.len() && pre[i].state is Admitted ==> post[i].state is Admitted,
    ensures
        has_admitted_writer(pre) ==> has_admitted_writer(post),
{
    if has_admitted_writer(pre) {
        let j = choose|j: int| 0 <= j < pre.len() && pre[j].state is Admitted && pre[j].method is Write;
        assert(post[j].state is Admitted && post[j].method is Write);
    }
}

/// Removing the reader `id` keeps a write entry in the queue, as long as
/// the remaining positions keep the removed sequence's methods.
proof fn lemma_write_entry_survives_removal(s0: Seq<LockEntry>, id: HandleId, post: Seq<LockEntry>)
    requires
        crate::queue::distinct_ids(s0),
        contains_id(s0, id),
        s0[id_index(s0, id)].method is Read,
        has_write_entry(s0),
        post.len() == s0.len() - 1,
        forall|i: int|
            0 <= i < post.len() ==> post[i].method == s0.remove(id_index(s0, id))[i].method,
    ensures
        has_write_entry(post),
{
    let idx = id_index(s0, id);
    let j = choose|j: int| 0 <= j < s0.len() && s0[j].method is Write;
    assert(j != idx);
    let jj = if j < idx { j } else { j - 1 };
    assert(s0.remove(idx)[jj] == s0[j]);
    assert(post[jj].method is Write);
}

/// Removing the reader `id` keeps an admitted writer in the queue, as long
/// as every other admitted identity stays admitted and the remaining
/// positions keep the removed sequence's identities and methods.
proof fn lemma_admitted_writer_survives_removal(
    s0: Seq<LockEntry>,
    id: HandleId,
    post: Seq<LockEntry>,
)
    requires
        crate::queue::distinct_ids(s0),
        contains_id(s0, id),
        s0[id_index(s0, id)].method is Read,
        has_admitted_writer(s0),
        post.len() == s0.len() - 1,
        forall|i: int|
            0 <= i < post.len() ==> post[i].handle_id == s0.remove(id_index(s0, id))[i].handle_id
                && post[i].method == s0.remove(id_index(s0, id))[i].method,
        forall|x: HandleId| x != id && admitted_id(s0, x) ==> admitted_id(post, x),
    ensures
        has_admitted_writer(post),
{
    let idx = id_index(s0, id);
    let j = choose|j: int| 0 <= j < s0.len() && s0[j].state is Admitted && s0[j].method is Write;
    assert(j != idx);
    let x = s0[j].handle_id;
    assert(s0[idx].handle_id == id);
    if j < idx {
        assert(s0[j].handle_id != s0[idx].handle_id);
    } else {
        assert(s0[idx].handle_id != s0[j].handle_id);
    }
    assert(x != id);
    assert(admitted_id(s0, x));
    assert(admitted_id(post, x));
    let i2 = choose|i2: int| 0 <= i2 < post.len() && post[i2].handle_id == x && post[i2].state is Admitted;
    let jj = if i2 < idx { i2 } else { i2 + 1 };
    assert(s0.remove(idx)[i2] == s0[jj]);
    assert(s0[jj].handle_id == x);
    if jj < j {
        assert(s0[jj].handle_id != s0[j].handle_id);
    } else if j < jj {
        assert(s0[j].handle_id != s0[jj].handle_id);
    }
    assert(jj == j);
    assert(post[i2].method == s0[j].method);
}

/// When every waiter in `grown` asks to read, the fair policy admits the
/// whole queue and the enforcement pass accepts its verdict unchanged.
proof fn lemma_fair_admits_read_batch_queue(
    grown: Seq<LockEntry>,
    strat: FairStrategy,
    current: HandleId,
)
    requires
        forall|i: int| 0 <= i < grown.len() ==> grown[i].method is Read,
    ensures
        enforce_verdict(grown, decision_of(strat, keys_of(grown)), current) is Ok,
        forall|i: int|
            0 <= i < grown.len() ==> enforced_state(
                grown,
                decision_of(strat, keys_of(grown)),
                current,
                i,
            ) is Admitted,
{
    let keys = keys_of(grown);
    let prop = decision_of(strat, keys);
    let n = grown.len() as int;
    assert forall|i: int| 0 <= i < n implies prop[i] is Admitted by {
        assert(keys[i] == (grown[i].handle_id, grown[i].method));
        assert forall|j: int| 0 <= j < i implies crate::strategies::methods_of(keys)[j]
            is Read by {
            assert(keys[j] == (grown[j].handle_id, grown[j].method));
        }
        assert(crate::strategies::fair_admits(crate::strategies::methods_of(keys), i));
    }
    assert(!revocation_among(grown, prop, current, n)) by {
        if revocation_among(grown, prop, current, n) {
            let i = choose|i: int|
                0 <= i < n && grown[i].state is Admitted && grown[i].handle_id != current
                    && prop[i] is Blocked;
            assert(prop[i] is Admitted);
        }
    }
    assert(!rw_conflict_among(grown, prop, current, n)) by {
        if rw_conflict_among(grown, prop, current, n) {
            let (i, j) = choose|i: int, j: int|
                0 <= i < n && 0 <= j < n && i != j && crate::queue::eff_admit(
                    grown,
                    prop,
                    current,
                    i,
                ) && crate::queue::eff_admit(grown, prop, current, j) && grown[i].method
                    is Write && grown[j].method is Read;
            assert(grown[i].method is Read);
        }
    }
    assert(!ww_conflict_among(grown, prop, current, n)) by {
        if ww_conflict_among(grown, prop, current, n) {
            let (i, j) = choose|i: int, j: int|
                0 <= i < j < n && crate::queue::eff_admit(grown, prop, current, i)
                    && crate::queue::eff_admit(grown, prop, current, j) && grown[i].method
                    is Write && grown[j].method is Write;
            assert(grown[i].method is Read);
        }
    }
    assert forall|i: int| 0 <= i < n implies enforced_state(grown, prop, current, i)
        is Admitted by {
        assert(prop[i] is Admitted);
        assert(crate::queue::eff_admit(grown, prop, current, i));
        if rw_conflict_among(grown, prop, current, i + 1) {
            let (a, b) = choose|a: int, b: int|
                0 <= a < i + 1 && 0 <= b < i + 1 && a != b && crate::queue::eff_admit(
                    grown,
                    prop,
                    current,
                    a,
                ) && crate::queue::eff_admit(grown, prop, current, b) && grown[a].method
                    is Write && grown[b].method is Read;
            assert(grown[a].method is Read);
        }
        if ww_conflict_among(grown, prop, current, i + 1) {
            let (a, b) = choose|a: int, b: int|
                0 <= a < b < i + 1 && crate::queue::eff_admit(grown, prop, current, a)
                    && crate::queue::eff_admit(grown, prop, current, b) && grown[a].method
                    is Write && grown[b].method is Write;
            assert(grown[a].method is Read);
        }
    }
}

/// A lone writer at the head of an otherwise empty queue is admitted by
/// the fair policy, and the enforcement pass accepts the verdict.
proof fn lemma_fair_admits_lone_writer(
    grown: Seq<LockEntry>,
    strat: FairStrategy,
    current: HandleId,
)
    requires
        grown.len() == 1,
        grown[0].method is Write,
    ensures
        enforce_verdict(grown, decision_of(strat, keys_of(grown)), current) is Ok,
        enforced_state(grown, decision_of(strat, keys_of(grown)), current, 0) is Admitted,
{
    let keys = keys_of(grown);
    let prop = decision_of(strat, keys);
    assert(keys[0] == (grown[0].handle_id, grown[0].method));
    assert(crate::strategies::fair_admits(crate::strategies::methods_of(keys), 0));
    assert(prop[0] is Admitted);
    assert(!revocation_among(grown, prop, current, 1)) by {
        if revocation_among(grown, prop, current, 1) {
            let i = choose|i: int|
                0 <= i < 1 && grown[i].state is Admitted && grown[i].handle_id != current
                    && prop[i] is Blocked;
            assert(prop[0] is Blocked);
        }
    }
    assert(!rw_conflict_among(grown, prop, current, 1)) by {
        if rw_conflict_among(grown, prop, current, 1) {
            let (i, j) = choose|i: int, j: int|
                0 <= i < 1 && 0 <= j < 1 && i != j && crate::queue::eff_admit(
                    grown,
                    prop,
                    current,
                    i,
                ) && crate::queue::eff_admit(grown, prop, current, j) && grown[i].method
                    is Write && grown[j].method is Read;
            assert(i == 0 && j == 0);
        }
    }
    assert(!ww_conflict_among(grown, prop, current, 1)) by {
        if ww_conflict_among(grown, prop, current, 1) {
            let (i, j) = choose|i: int, j: int|
                0 <= i < j < 1 && crate::queue::eff_admit(grown, prop, current, i)
                    && crate::queue::eff_admit(grown, prop, current, j) && grown[i].method
                    is Write && grown[j].method is Write;
            assert(0 <= i < j < 1);
        }
    }
}

/// FIFO handoff under the fair policy: whatever queue remains after a
/// release, the enforcement pass leaves a writer standing at the head
/// admitted. Together with the exact release contract of
/// [`LockedQueue::release`], this is the writer's turn arriving once the
/// readers in front of it have drained.
pub proof fn lemma_fair_head_writer_admitted(
    remaining: Seq<LockEntry>,
    strat: FairStrategy,
    current: HandleId,
)
    requires
        remaining.len() > 0,
        remaining[0].method is Write,
    ensures
        enforced_state(
            remaining,
            decision_of(strat, keys_of(remaining)),
            current,
            0,
        ) is Admitted,
{
    let keys = keys_of(remaining);
    let prop = decision_of(strat, keys);
    assert(keys[0] == (remaining[0].handle_id, remaining[0].method));
    assert(crate::strategies::fair_admits(crate::strategies::methods_of(keys), 0));
    assert(prop[0] is Admitted);
    assert(!rw_conflict_among(remaining, prop, current, 1)) by {
        if rw_conflict_among(remaining, prop, current, 1) {
            let (i, j) = choose|i: int, j: int|
                0 <= i < 1 && 0 <= j < 1 && i != j && crate::queue::eff_admit(
                    remaining,
                    prop,
                    current,
                    i,
                ) && crate::queue::eff_admit(remaining, prop, current, j) && remaining[i].method
                    is Write && remaining[j].method is Read;
            assert(i == 0 && j == 0);
        }
    }
    assert(!ww_conflict_among(remaining, prop, current, 1)) by {
        if ww_conflict_among(remaining, prop, current, 1) {
            let (i, j) = choose|i: int, j: int|
                0 <= i < j < 1 && crate::queue::eff_admit(remaining, prop, current, i)
                    && crate::queue::eff_admit(remaining, prop, current, j)
                    && remaining[i].method is Write && remaining[j].method is Write;
            assert(0 <= i < j < 1);
        }
    }
}

/// Round trip: a freshly built lock is unpoisoned and stores its value,
/// and on any unpoisoned state the contract of `into_inner` admits only
/// `Ok` with the stored value — so `new(v)` followed by `into_inner()`
/// yields `v`.
pub proof fn lemma_strategied_round_trip<T, S: Strategy, Env: ThreadEnv>(
    l: StrategiedRwLock<T, S, Env>,
    v: T,
    r: LockResult<T>,
)
    requires
        !l.poisoned_spec(),
        l.data_spec() == v,
        l.poisoned_spec() <==> r is Err,
        r is Ok ==> r->Ok_0 == l.data_spec(),
    ensures
        r is Ok,
        r->Ok_0 == v,
{
}

} // verus!
