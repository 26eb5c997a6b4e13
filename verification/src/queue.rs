//! The queue scheduler of the strategied reader/writer lock.
//!
//! Waiters stand in a FIFO of [`LockEntry`] records. On every acquisition
//! and release the scheduler snapshots the queue, asks the
//! [`crate::strategies::Strategy`] for a fresh admission verdict, and then
//! validates it: a strategy may never admit a writer beside anything else,
//! and may never re-block a waiter that was already admitted (except the
//! waiter that is acquiring right now, whose fresh entry may legitimately
//! be held back). A violating verdict is corrected on the spot — the queue
//! stays admissible — the lock is marked broken, and the offending
//! operation reports a [`StrategyLogicError`].

use vstd::prelude::*;

use crate::handle::{HandleId, HandleIdSource};
use crate::strategies::{Method, State, Strategy};

verus! {

/// A logic error of a caller-supplied strategy, detected by the scheduler.
#[derive(Debug, Clone, Copy, PartialEq, Eq, Hash, Structural)]
pub enum StrategyLogicError {
    /// The strategy admitted a writer and a reader together.
    ConcurrentReadAndWrite,
    /// The strategy admitted two or more writers.
    ConcurrentMultipleWrites,
    /// The strategy re-blocked a waiter that was already admitted.
    BlockedAfterOkState,
    /// The lock was already broken by an earlier logic error, or the
    /// strategy answered with the wrong number of states.
    BrokenLock,
}

impl StrategyLogicError {
    /// A human-readable description of the error.
    pub fn message(&self) -> &'static str {
        match *self {
            StrategyLogicError::ConcurrentReadAndWrite => {
                "The provided `Strategy` wanted to admit a writer and a reader together."
            }
            StrategyLogicError::ConcurrentMultipleWrites => {
                "The provided `Strategy` wanted to admit two or more writers."
            }
            StrategyLogicError::BlockedAfterOkState => {
                "The provided `Strategy` wanted to re-block an already admitted thread."
            }
            StrategyLogicError::BrokenLock => {
                "There is a logic error in the provided `Strategy`. Can't continue."
            }
        }
    }
}

/// One waiter in the queue: an actor identity, the access it asked for, and
/// its current admission state.
#[derive(Debug, Clone, Copy, PartialEq, Eq, Hash, Structural)]
pub struct LockEntry {
    pub handle_id: HandleId,
    pub method: Method,
    pub state: State,
}

impl LockEntry {
    pub fn new(handle_id: HandleId, method: Method, state: State) -> (r: LockEntry)
        ensures
            r == (LockEntry { handle_id, method, state }),
    {
        LockEntry { handle_id, method, state }
    }

    /// The current admission state of this waiter.
    pub fn state(&self) -> (r: State)
        ensures
            r == self.state,
    {
        self.state
    }
}

/// The identity/method pairs of the queue, in arrival order: what a
/// strategy gets to see.
pub open spec fn keys_of(s: Seq<LockEntry>) -> Seq<(HandleId, Method)> {
    s.map_values(|e: LockEntry| (e.handle_id, e.method))
}

/// No two waiters share an identity.
pub open spec fn distinct_ids(s: Seq<LockEntry>) -> bool {
    forall|i: int, j: int| 0 <= i < j < s.len() ==> s[i].handle_id != s[j].handle_id
}

/// The admitted set is safe: any two distinct admitted waiters are both
/// readers — equivalently, an admitted writer stands alone.
pub open spec fn admissible(s: Seq<LockEntry>) -> bool {
    forall|i: int, j: int|
        0 <= i < s.len() && 0 <= j < s.len() && i != j && s[i].state is Admitted
            && s[j].state is Admitted ==> s[i].method is Read && s[j].method is Read
}

/// Whether some waiter carries `id`.
pub open spec fn contains_id(s: Seq<LockEntry>, id: HandleId) -> bool {
    exists|i: int| 0 <= i < s.len() && s[i].handle_id == id
}

/// The position of the waiter carrying `id`; meaningful when `contains_id`
/// holds, unique when ids are distinct.
pub open spec fn id_index(s: Seq<LockEntry>, id: HandleId) -> int {
    choose|i: int| 0 <= i < s.len() && s[i].handle_id == id
}

/// The admission state of the waiter carrying `id`.
pub open spec fn state_of(s: Seq<LockEntry>, id: HandleId) -> State {
    s[id_index(s, id)].state
}

/// The access requested by the waiter carrying `id`.
pub open spec fn method_of(s: Seq<LockEntry>, id: HandleId) -> Method {
    s[id_index(s, id)].method
}

/// Some waiter is an admitted writer.
pub open spec fn has_admitted_writer(s: Seq<LockEntry>) -> bool {
    exists|i: int| 0 <= i < s.len() && s[i].state is Admitted && s[i].method is Write
}

/// Some waiter asked for write access.
pub open spec fn has_write_entry(s: Seq<LockEntry>) -> bool {
    exists|i: int| 0 <= i < s.len() && s[i].method is Write
}

/// The verdict a conforming strategy gives over the snapshot `keys`, as a
/// positional state sequence.
pub open spec fn decision_of<S: Strategy>(s: S, keys: Seq<(HandleId, Method)>) -> Seq<State> {
    Seq::new(
        keys.len(),
        |i: int|
            if s.admits_spec(keys, i) {
                State::Admitted
            } else {
                State::Blocked
            },
    )
}

/// Under distinct ids, any position holding `id` is the position.
pub proof fn lemma_id_index_unique(s: Seq<LockEntry>, id: HandleId, i: int)
    requires
        distinct_ids(s),
        0 <= i < s.len(),
        s[i].handle_id == id,
    ensures
        contains_id(s, id),
        id_index(s, id) == i,
{
    assert(contains_id(s, id));
    let j = id_index(s, id);
    if i < j {
        assert(s[i].handle_id != s[j].handle_id);
    } else if j < i {
        assert(s[j].handle_id != s[i].handle_id);
    }
}

/// The effective admission the scheduler works with at position `i`: the
/// strategy's proposal, except that a proposal to re-block an already
/// admitted waiter other than the acquiring one is overridden back to
/// admitted.
pub open spec fn eff_admit(pre: Seq<LockEntry>, prop: Seq<State>, current: HandleId, i: int) -> bool {
    prop[i] is Admitted || (pre[i].state is Admitted && pre[i].handle_id != current)
}

/// Among the first `k` positions, some already admitted waiter other than
/// the acquiring one was proposed for re-blocking.
pub open spec fn revocation_among(
    pre: Seq<LockEntry>,
    prop: Seq<State>,
    current: HandleId,
    k: int,
) -> bool {
    exists|i: int|
        0 <= i < k && pre[i].state is Admitted && pre[i].handle_id != current
            && prop[i] is Blocked
}

/// Among the first `k` positions, a writer and a reader are both
/// effectively admitted.
pub open spec fn rw_conflict_among(
    pre: Seq<LockEntry>,
    prop: Seq<State>,
    current: HandleId,
    k: int,
) -> bool {
    exists|i: int, j: int|
        0 <= i < k && 0 <= j < k && i != j && eff_admit(pre, prop, current, i)
            && eff_admit(pre, prop, current, j) && pre[i].method is Write
            && pre[j].method is Read
}

/// Among the first `k` positions, two writers are both effectively
/// admitted.
pub open spec fn ww_conflict_among(
    pre: Seq<LockEntry>,
    prop: Seq<State>,
    current: HandleId,
    k: int,
) -> bool {
    exists|i: int, j: int|
        0 <= i < j < k && eff_admit(pre, prop, current, i) && eff_admit(pre, prop, current, j)
            && pre[i].method is Write && pre[j].method is Write
}

/// The state the enforcement pass leaves at position `i`: the effective
/// admission, demoted to blocked from the first position at which a
/// conflict has been seen.
pub open spec fn enforced_state(
    pre: Seq<LockEntry>,
    prop: Seq<State>,
    current: HandleId,
    i: int,
) -> State {
    if eff_admit(pre, prop, current, i) && !rw_conflict_among(pre, prop, current, i + 1)
        && !ww_conflict_among(pre, prop, current, i + 1) {
        State::Admitted
    } else {
        State::Blocked
    }
}

/// The verdict of the enforcement pass over the whole queue, by priority:
/// re-blocking an admitted waiter, then mixed admission, then double
/// writers.
pub open spec fn enforce_verdict(
    pre: Seq<LockEntry>,
    prop: Seq<State>,
    current: HandleId,
) -> Result<(), StrategyLogicError> {
    let n = pre.len() as int;
    if revocation_among(pre, prop, current, n) {
        Err(StrategyLogicError::BlockedAfterOkState)
    } else if rw_conflict_among(pre, prop, current, n) {
        Err(StrategyLogicError::ConcurrentReadAndWrite)
    } else if ww_conflict_among(pre, prop, current, n) {
        Err(StrategyLogicError::ConcurrentMultipleWrites)
    } else {
        Ok(())
    }
}

/// Applies a strategy's proposal to the queue while enforcing the safety
/// preconditions, exactly as [`enforced_state`] and [`enforce_verdict`]
/// describe: re-blocking proposals for admitted waiters (other than the
/// acquiring `current`) are overridden, and from the first conflicting
/// admission onward every further admission is demoted to blocked.
pub fn set_and_enforce_preconditions(
    entries: &mut Vec<LockEntry>,
    current: HandleId,
    new_states: &Vec<State>,
) -> (r: Result<(), StrategyLogicError>)
    requires
        new_states.len() == old(entries).len(),
    ensures
        final(entries).len() == old(entries).len(),
        forall|i: int|
            0 <= i < old(entries).len() ==> final(entries)[i].handle_id == old(
                entries,
            )[i].handle_id && final(entries)[i].method == old(entries)[i].method,
        forall|i: int|
            0 <= i < old(entries).len() ==> final(entries)[i].state == enforced_state(
                old(entries)@,
                new_states@,
                current,
                i,
            ),
        r == enforce_verdict(old(entries)@, new_states@, current),
{
    let ghost pre = entries@;
    let ghost prop = new_states@;
    let n = entries.len();
    let mut has_ok_read = false;
    let mut has_ok_write = false;
    let mut err_bao = false;
    let mut err_crw = false;
    let mut err_cmw = false;
    let mut k: usize = 0;
    while k < n
        invariant
            n == pre.len(),
            prop.len() == n,
            entries.len() == n,
            prop == new_states@,
            k <= n,
            forall|i: int| k <= i < n ==> entries[i] == pre[i],
            forall|i: int|
                0 <= i < k ==> entries[i].handle_id == pre[i].handle_id && entries[i].method
                    == pre[i].method,
            forall|i: int|
                0 <= i < k ==> entries[i].state == enforced_state(pre, prop, current, i),
            has_ok_read == exists|i: int|
                0 <= i < k && eff_admit(pre, prop, current, i) && pre[i].method is Read,
            has_ok_write == exists|i: int|
                0 <= i < k && eff_admit(pre, prop, current, i) && pre[i].method is Write,
            err_bao == revocation_among(pre, prop, current, k as int),
            err_crw == rw_conflict_among(pre, prop, current, k as int),
            err_cmw == ww_conflict_among(pre, prop, current, k as int),
        decreases n - k,
    {
        let ghost kk = k as int;
        let entry = entries[k];
        let mut n_state = new_states[k];

        if entry.handle_id != current && entry.state == State::Admitted && n_state
            == State::Blocked {
            err_bao = true;
            n_state = State::Admitted;
        }
        proof {
            assert(eff_admit(pre, prop, current, kk) == (n_state is Admitted));
            assert(revocation_among(pre, prop, current, kk + 1) == err_bao) by {
                if err_bao {
                } else {
                    if revocation_among(pre, prop, current, kk + 1) {
                        let i = choose|i: int|
                            0 <= i < kk + 1 && pre[i].state is Admitted && pre[i].handle_id
                                != current && prop[i] is Blocked;
                        if i < kk {
                            assert(revocation_among(pre, prop, current, kk));
                        }
                    }
                }
            }
        }

        let ghost old_has_ok_read = has_ok_read;
        let ghost old_has_ok_write = has_ok_write;
        if n_state == State::Admitted {
            match entry.method {
                Method::Read => {
                    if has_ok_write {
                        err_crw = true;
                    }
                    has_ok_read = true;
                }
                Method::Write => {
                    if has_ok_read {
                        err_crw = true;
                    }
                    if has_ok_write {
                        err_cmw = true;
                    }
                    has_ok_write = true;
                }
            }
            if err_crw || err_cmw {
                n_state = State::Blocked;
            }
        }

        proof {
            lemma_enforce_step(pre, prop, current, kk, old_has_ok_read, old_has_ok_write);
            assert(has_ok_read == (old_has_ok_read || (eff_admit(pre, prop, current, kk)
                && pre[kk].method is Read)));
            assert(has_ok_write == (old_has_ok_write || (eff_admit(pre, prop, current, kk)
                && pre[kk].method is Write)));
        }

        entries[k] = LockEntry { handle_id: entry.handle_id, method: entry.method, state: n_state };
        k = k + 1;
    }
    if err_bao {
        Err(StrategyLogicError::BlockedAfterOkState)
    } else if err_crw {
        Err(StrategyLogicError::ConcurrentReadAndWrite)
    } else if err_cmw {
        Err(StrategyLogicError::ConcurrentMultipleWrites)
    } else {
        Ok(())
    }
}

/// How each conflict predicate and admission witness grows by one position:
/// the step relation behind the enforcement loop.
proof fn lemma_enforce_step(
    pre: Seq<LockEntry>,
    prop: Seq<State>,
    current: HandleId,
    k: int,
    had_read: bool,
    had_write: bool,
)
    requires
        0 <= k < pre.len(),
        prop.len() == pre.len(),
        had_read == exists|i: int|
            0 <= i < k && eff_admit(pre, prop, current, i) && pre[i].method is Read,
        had_write == exists|i: int|
            0 <= i < k && eff_admit(pre, prop, current, i) && pre[i].method is Write,
    ensures
        (exists|i: int| 0 <= i < k + 1 && eff_admit(pre, prop, current, i) && pre[i].method is Read)
            == (had_read || (eff_admit(pre, prop, current, k) && pre[k].method is Read)),
        (exists|i: int|
            0 <= i < k + 1 && eff_admit(pre, prop, current, i) && pre[i].method is Write) == (
        had_write || (eff_admit(pre, prop, current, k) && pre[k].method is Write)),
        rw_conflict_among(pre, prop, current, k + 1) == (rw_conflict_among(pre, prop, current, k)
            || (eff_admit(pre, prop, current, k) && ((pre[k].method is Read && had_write) || (
        pre[k].method is Write && had_read)))),
        ww_conflict_among(pre, prop, current, k + 1) == (ww_conflict_among(pre, prop, current, k)
            || (eff_admit(pre, prop, current, k) && pre[k].method is Write && had_write)),
{
    let effk = eff_admit(pre, prop, current, k);

    if rw_conflict_among(pre, prop, current, k) {
        assert(rw_conflict_among(pre, prop, current, k + 1));
    }
    if effk && pre[k].method is Read && had_write {
        let i = choose|i: int|
            0 <= i < k && eff_admit(pre, prop, current, i) && pre[i].method is Write;
        assert(0 <= i < k + 1 && 0 <= k < k + 1 && i != k && eff_admit(pre, prop, current, i)
            && eff_admit(pre, prop, current, k) && pre[i].method is Write
            && pre[k].method is Read);
        assert(rw_conflict_among(pre, prop, current, k + 1));
    }
    if effk && pre[k].method is Write && had_read {
        let j = choose|j: int|
            0 <= j < k && eff_admit(pre, prop, current, j) && pre[j].method is Read;
        assert(rw_conflict_among(pre, prop, current, k + 1));
    }
    if rw_conflict_among(pre, prop, current, k + 1) {
        let (i, j) = choose|i: int, j: int|
            0 <= i < k + 1 && 0 <= j < k + 1 && i != j && eff_admit(pre, prop, current, i)
                && eff_admit(pre, prop, current, j) && pre[i].method is Write
                && pre[j].method is Read;
        if i < k && j < k {
            assert(rw_conflict_among(pre, prop, current, k));
        } else if i == k {
            assert(effk && pre[k].method is Write);
            assert(0 <= j < k && eff_admit(pre, prop, current, j) && pre[j].method is Read);
        } else {
            assert(j == k);
            assert(effk && pre[k].method is Read);
            assert(0 <= i < k && eff_admit(pre, prop, current, i) && pre[i].method is Write);
        }
    }

    if ww_conflict_among(pre, prop, current, k) {
        let (i, j) = choose|i: int, j: int|
            0 <= i < j < k && eff_admit(pre, prop, current, i) && eff_admit(pre, prop, current, j)
                && pre[i].method is Write && pre[j].method is Write;
        assert(0 <= i < j < k + 1);
        assert(ww_conflict_among(pre, prop, current, k + 1));
    }
    if effk && pre[k].method is Write && had_write {
        let i = choose|i: int|
            0 <= i < k && eff_admit(pre, prop, current, i) && pre[i].method is Write;
        assert(0 <= i < k < k + 1 && eff_admit(pre, prop, current, i) && eff_admit(
            pre,
            prop,
            current,
            k,
        ) && pre[i].method is Write && pre[k].method is Write);
        assert(ww_conflict_among(pre, prop, current, k + 1));
    }
    if ww_conflict_among(pre, prop, current, k + 1) {
        let (i, j) = choose|i: int, j: int|
            0 <= i < j < k + 1 && eff_admit(pre, prop, current, i) && eff_admit(
                pre,
                prop,
                current,
                j,
            ) && pre[i].method is Write && pre[j].method is Write;
        if j < k {
            assert(ww_conflict_among(pre, prop, current, k));
        } else {
            assert(j == k);
            assert(effk && pre[k].method is Write);
            assert(0 <= i < k && eff_admit(pre, prop, current, i) && pre[i].method is Write);
        }
    }
}


/// Some waiter carries `x` and is admitted.
pub open spec fn admitted_id(s: Seq<LockEntry>, x: HandleId) -> bool {
    exists|i: int| 0 <= i < s.len() && s[i].handle_id == x && s[i].state is Admitted
}

/// Whatever a strategy proposed, the states the enforcement pass leaves
/// behind are admissible: an admitted writer stands alone.
pub proof fn lemma_enforced_admissible(
    pre: Seq<LockEntry>,
    prop: Seq<State>,
    current: HandleId,
    post: Seq<LockEntry>,
)
    requires
        post.len() == pre.len(),
        forall|i: int| 0 <= i < post.len() ==> post[i].method == pre[i].method,
        forall|i: int| 0 <= i < post.len() ==> post[i].state == enforced_state(pre, prop, current, i),
    ensures
        admissible(post),
{
    assert forall|i: int, j: int|
        0 <= i < post.len() && 0 <= j < post.len() && i != j && post[i].state is Admitted
            && post[j].state is Admitted implies post[i].method is Read
        && post[j].method is Read by {
        assert(post[i].state == enforced_state(pre, prop, current, i));
        assert(post[j].state == enforced_state(pre, prop, current, j));
        assert(eff_admit(pre, prop, current, i));
        assert(eff_admit(pre, prop, current, j));
        let m = if i < j { j } else { i };
        if pre[i].method is Write {
            if pre[j].method is Write {
                let a = if i < j { i } else { j };
                let b = if i < j { j } else { i };
                assert(0 <= a < b < m + 1 && eff_admit(pre, prop, current, a) && eff_admit(
                    pre,
                    prop,
                    current,
                    b,
                ) && pre[a].method is Write && pre[b].method is Write);
                assert(ww_conflict_among(pre, prop, current, m + 1));
                assert(post[m].state is Blocked);
            } else {
                assert(pre[j].method is Read);
                assert(0 <= i < m + 1 && 0 <= j < m + 1 && i != j);
                assert(rw_conflict_among(pre, prop, current, m + 1));
                assert(post[m].state is Blocked);
            }
            assert(false);
        } else if pre[j].method is Write {
            assert(pre[i].method is Read);
            assert(0 <= j < m + 1 && 0 <= i < m + 1 && j != i && eff_admit(pre, prop, current, j)
                && eff_admit(pre, prop, current, i) && pre[j].method is Write
                && pre[i].method is Read);
            assert(rw_conflict_among(pre, prop, current, m + 1));
            assert(post[m].state is Blocked);
            assert(false);
        }
    }
}

/// When the enforcement pass accepts a proposal, it applies it verbatim:
/// every state is the proposed one, and in particular no admitted waiter
/// other than the acquiring one loses its admission.
pub proof fn lemma_enforced_when_ok(pre: Seq<LockEntry>, prop: Seq<State>, current: HandleId)
    requires
        prop.len() == pre.len(),
        enforce_verdict(pre, prop, current) is Ok,
    ensures
        forall|i: int| 0 <= i < pre.len() ==> enforced_state(pre, prop, current, i) == prop[i],
        forall|i: int|
            0 <= i < pre.len() && pre[i].state is Admitted && pre[i].handle_id != current
                ==> enforced_state(pre, prop, current, i) is Admitted,
{
    let n = pre.len() as int;
    assert forall|i: int| 0 <= i < n implies enforced_state(pre, prop, current, i) == prop[i] by {
        if rw_conflict_among(pre, prop, current, i + 1) {
            let (a, b) = choose|a: int, b: int|
                0 <= a < i + 1 && 0 <= b < i + 1 && a != b && eff_admit(pre, prop, current, a)
                    && eff_admit(pre, prop, current, b) && pre[a].method is Write
                    && pre[b].method is Read;
            assert(0 <= a < n && 0 <= b < n);
            assert(rw_conflict_among(pre, prop, current, n));
        }
        if ww_conflict_among(pre, prop, current, i + 1) {
            let (a, b) = choose|a: int, b: int|
                0 <= a < b < i + 1 && eff_admit(pre, prop, current, a) && eff_admit(
                    pre,
                    prop,
                    current,
                    b,
                ) && pre[a].method is Write && pre[b].method is Write;
            assert(0 <= a < b < n);
            assert(ww_conflict_among(pre, prop, current, n));
        }
        if pre[i].state is Admitted && pre[i].handle_id != current && prop[i] is Blocked {
            assert(revocation_among(pre, prop, current, n));
        }
    }
    assert forall|i: int|
        0 <= i < pre.len() && pre[i].state is Admitted && pre[i].handle_id != current
            implies enforced_state(pre, prop, current, i) is Admitted by {
        if prop[i] is Blocked {
            assert(revocation_among(pre, prop, current, n));
        }
    }
}

/// The scheduler state of the strategied reader/writer lock: the FIFO of
/// waiters, the admission strategy, the sticky `broken` bit, and the source
/// of fresh actor identities.
///
/// In the running system this whole record sits behind the library's own
/// spin mutex and every operation below is one critical section; here each
/// operation is a `&mut self` transition. Admission decisions made for
/// other waiters are returned to the caller as the list of identities to
/// unpark.
pub struct LockedQueue<S: Strategy> {
    entries: Vec<LockEntry>,
    strategy: S,
    broken: bool,
    ids: HandleIdSource,
}

impl<S: Strategy> LockedQueue<S> {
    /// The waiters, in arrival order.
    pub closed spec fn entries_spec(&self) -> Seq<LockEntry> {
        self.entries@
    }

    /// The sticky bit set when a strategy logic error broke the lock.
    pub closed spec fn broken_spec(&self) -> bool {
        self.broken
    }

    /// The admission strategy driving this queue.
    pub closed spec fn strategy_spec(&self) -> S {
        self.strategy
    }

    /// The next fresh actor identity.
    pub closed spec fn next_id_spec(&self) -> u128 {
        self.ids.next_spec()
    }

    /// The identity source is not exhausted.
    pub open spec fn can_enqueue(&self) -> bool {
        self.next_id_spec() < u128::MAX
    }

    /// Queue sanity: identities are distinct, nonzero and below the next
    /// fresh one, and the admitted set is admissible.
    pub open spec fn wf(&self) -> bool {
        &&& distinct_ids(self.entries_spec())
        &&& admissible(self.entries_spec())
        &&& 1 <= self.next_id_spec()
        &&& forall|i: int|
            0 <= i < self.entries_spec().len() ==> 1 <= #[trigger] self.entries_spec()[i].handle_id.0
                < self.next_id_spec()
    }

    /// An empty, unbroken queue driven by `strategy`.
    pub fn new(strategy: S) -> (r: Self)
        ensures
            r.wf(),
            !r.broken_spec(),
            r.entries_spec().len() == 0,
            r.can_enqueue(),
            r.next_id_spec() == 1,
    {
        LockedQueue { entries: Vec::new(), strategy, broken: false, ids: HandleIdSource::new() }
    }

    /// Whether a strategy logic error has broken this lock.
    pub fn is_broken(&self) -> (r: bool)
        ensures
            r == self.broken_spec(),
    {
        self.broken
    }

    /// How many waiters stand in the queue.
    pub fn waiter_count(&self) -> (r: usize)
        ensures
            r == self.entries_spec().len(),
    {
        self.entries.len()
    }

    /// Whether the identity source can still issue a fresh identity.
    pub fn handles_available(&self) -> (r: bool)
        ensures
            r == self.can_enqueue(),
    {
        self.ids.available()
    }

    /// Whether some waiter carries `id`.
    pub fn contains_waiter(&self, id: HandleId) -> (r: bool)
        ensures
            r == contains_id(self.entries_spec(), id),
    {
        match self.find_index(id) {
            Some(i) => {
                proof {
                    let s = self.entries_spec();
                    assert(s[i as int].handle_id == id);
                }
                true
            }
            None => false,
        }
    }

    /// Linear search for the waiter carrying `id`.
    fn find_index(&self, id: HandleId) -> (r: Option<usize>)
        ensures
            r is Some ==> r->Some_0 < self.entries_spec().len()
                && self.entries_spec()[r->Some_0 as int].handle_id == id,
            r is None ==> !contains_id(self.entries_spec(), id),
    {
        let n = self.entries.len();
        let mut k: usize = 0;
        while k < n
            invariant
                n == self.entries_spec().len(),
                k <= n,
                forall|i: int| 0 <= i < k ==> self.entries_spec()[i].handle_id != id,
            decreases n - k,
        {
            if self.entries[k].handle_id == id {
                return Some(k);
            }
            k = k + 1;
        }
        None
    }

    /// Reads the admission state of the waiter carrying `current`.
    pub fn poll(&self, current: HandleId) -> (r: State)
        requires
            self.wf(),
            contains_id(self.entries_spec(), current),
        ensures
            r == state_of(self.entries_spec(), current),
    {
        match self.find_index(current) {
            Some(i) => {
                proof {
                    lemma_id_index_unique(self.entries_spec(), current, i as int);
                }
                self.entries[i].state
            }
            None => unreached(),
        }
    }

    /// Collects the admitted waiters other than `current`: the identities
    /// the caller must unpark.
    fn collect_admitted(entries: &Vec<LockEntry>, current: HandleId) -> (r: Vec<HandleId>)
        ensures
            forall|x: HandleId|
                r@.contains(x) <==> (admitted_id(entries@, x) && x != current),
    {
        let n = entries.len();
        let mut unparks: Vec<HandleId> = Vec::new();
        let mut k: usize = 0;
        while k < n
            invariant
                n == entries@.len(),
                k <= n,
                forall|x: HandleId|
                    unparks@.contains(x) <==> ((exists|i: int|
                        0 <= i < k && entries@[i].handle_id == x && entries@[i].state is Admitted)
                        && x != current),
            decreases n - k,
        {
            let ghost old_unparks = unparks@;
            let entry = entries[k];
            if entry.handle_id != current && entry.state == State::Admitted {
                unparks.push(entry.handle_id);
            }
            proof {
                assert forall|x: HandleId| unparks@.contains(x) implies ((exists|i: int|
                    0 <= i < k + 1 && entries@[i].handle_id == x
                        && entries@[i].state is Admitted) && x != current) by {
                    let l = choose|l: int| 0 <= l < unparks@.len() && unparks@[l] == x;
                    if l < old_unparks.len() {
                        assert(old_unparks[l] == x);
                        assert(old_unparks.contains(x));
                    } else {
                        assert(entries@[k as int].handle_id == x);
                    }
                }
                assert forall|x: HandleId| ((exists|i: int|
                    0 <= i < k + 1 && entries@[i].handle_id == x
                        && entries@[i].state is Admitted) && x != current)
                    implies unparks@.contains(x) by {
                    let i = choose|i: int|
                        0 <= i < k + 1 && entries@[i].handle_id == x
                            && entries@[i].state is Admitted;
                    if i < k {
                        assert(old_unparks.contains(x));
                        let l = choose|l: int| 0 <= l < old_unparks.len() && old_unparks[l] == x;
                        assert(unparks@[l] == x);
                    } else {
                        assert(unparks@[unparks@.len() - 1] == x);
                    }
                }
            }
            k = k + 1;
        }
        unparks
    }

    /// Runs the strategy over the current queue and enforces the safety
    /// preconditions. On success the accepted states are installed and the
    /// admitted waiters other than `current` are returned for unparking; a
    /// verdict of the wrong length is reported as `BrokenLock` and changes
    /// nothing.
    fn run_queue_logic(&mut self, current: HandleId) -> (r: Result<Vec<HandleId>, StrategyLogicError>)
        requires
            old(self).wf(),
        ensures
            final(self).wf(),
            final(self).broken_spec() == old(self).broken_spec(),
            final(self).next_id_spec() == old(self).next_id_spec(),
            final(self).entries_spec().len() == old(self).entries_spec().len(),
            forall|i: int|
                0 <= i < old(self).entries_spec().len()
                    ==> final(self).entries_spec()[i].handle_id == old(self).entries_spec()[i].handle_id && final(self).entries_spec()[i].method == old(self).entries_spec()[i].method,
            r is Err && r->Err_0 is BrokenLock ==> final(self).entries_spec() == old(self).entries_spec(),
            r is Ok ==> forall|i: int|
                0 <= i < old(self).entries_spec().len() && old(self).entries_spec()[i].state is Admitted && old(self).entries_spec()[i].handle_id
                    != current ==> final(self).entries_spec()[i].state is Admitted,
            r is Ok ==> forall|x: HandleId|
                r->Ok_0@.contains(x) <==> (admitted_id(final(self).entries_spec(), x) && x
                    != current),
            old(self).strategy_spec().conforming() ==> final(self).strategy_spec() == old(self).strategy_spec() && !(r is Err && r->Err_0 is BrokenLock) && ({
                let prop = decision_of(
                    old(self).strategy_spec(),
                    keys_of(old(self).entries_spec()),
                );
                let verdict = enforce_verdict(old(self).entries_spec(), prop, current);
                &&& (forall|i: int|
                    0 <= i < old(self).entries_spec().len() ==> final(self).entries_spec()[i].state == enforced_state(
                        old(self).entries_spec(),
                        prop,
                        current,
                        i,
                    ))
                &&& (r is Ok <==> verdict is Ok)
                &&& (r is Err ==> verdict is Err && r->Err_0 == verdict->Err_0)
            }),
    {
        let ghost pre_entries = self.entries@;
        let ghost pre_strategy = self.strategy;
        let n = self.entries.len();
        let mut snapshot: Vec<(HandleId, Method)> = Vec::new();
        let mut k: usize = 0;
        while k < n
            invariant
                n == self.entries@.len(),
                self.entries@ == pre_entries,
                k <= n,
                snapshot@.len() == k,
                forall|i: int|
                    0 <= i < k ==> snapshot@[i] == (self.entries@[i].handle_id,
                    self.entries@[i].method),
            decreases n - k,
        {
            let entry = self.entries[k];
            snapshot.push((entry.handle_id, entry.method));
            k = k + 1;
        }

        let proposal = self.strategy.decide(&snapshot);
        proof {
            if pre_strategy.conforming() {
                assert(snapshot@ =~= keys_of(pre_entries));
                let dec = decision_of(pre_strategy, keys_of(pre_entries));
                assert forall|i: int| 0 <= i < proposal@.len() implies proposal@[i] == dec[i] by {
                    if proposal@[i] is Admitted {
                        assert(dec[i] is Admitted);
                    } else {
                        assert(dec[i] is Blocked);
                    }
                }
                assert(proposal@ =~= dec);
            }
        }
        if proposal.len() != self.entries.len() {
            return Err(StrategyLogicError::BrokenLock);
        }
        let verdict = set_and_enforce_preconditions(&mut self.entries, current, &proposal);
        proof {
            lemma_enforced_admissible(pre_entries, proposal@, current, self.entries@);
        }
        match verdict {
            Err(e) => {
                proof {
                    assert(!(e is BrokenLock));
                }
                Err(e)
            }
            Ok(()) => {
                proof {
                    lemma_enforced_when_ok(pre_entries, proposal@, current);
                }
                let unparks = Self::collect_admitted(&self.entries, current);
                Ok(unparks)
            }
        }
    }

    /// One acquisition step: refuses a broken lock, enqueues a fresh waiter
    /// for `method` at the back, runs the strategy over the grown queue,
    /// and reads the new waiter's admission state. On a logic error the
    /// fresh entry stays enqueued — mirroring an acquisition that aborts
    /// mid-way — and the lock is marked broken unless the error was
    /// `BrokenLock` itself.
    pub fn do_acquire(&mut self, method: Method) -> (r: Result<
        (HandleId, State, Vec<HandleId>),
        StrategyLogicError,
    >)
        requires
            old(self).wf(),
            old(self).can_enqueue(),
        ensures
            final(self).wf(),
            old(self).broken_spec() ==> r is Err && r->Err_0 is BrokenLock && *final(self) == *old(self),
            !old(self).broken_spec() ==> final(self).next_id_spec() == old(self).next_id_spec() + 1
                && final(self).entries_spec().len() == old(self).entries_spec().len() + 1 && (
            forall|i: int|
                0 <= i < old(self).entries_spec().len() ==> final(self).entries_spec()[i].handle_id
                    == old(self).entries_spec()[i].handle_id
                    && final(self).entries_spec()[i].method == old(self).entries_spec()[i].method) && final(self).entries_spec().last().handle_id
                == HandleId(old(self).next_id_spec()) && final(self).entries_spec().last().method
                == method && final(self).broken_spec() == (r is Err && !(r->Err_0 is BrokenLock)),
            !old(self).broken_spec() && r is Err && r->Err_0 is BrokenLock ==> (forall|i: int|
                0 <= i < old(self).entries_spec().len() ==> final(self).entries_spec()[i] == old(self).entries_spec()[i]) && final(self).entries_spec().last().state is Blocked,
            !old(self).broken_spec() && old(self).strategy_spec().conforming() ==> ({
                let id = HandleId(old(self).next_id_spec());
                let grown = old(self).entries_spec().push(
                    (LockEntry { handle_id: id, method, state: State::Blocked }),
                );
                let prop = decision_of(old(self).strategy_spec(), keys_of(grown));
                let verdict = enforce_verdict(grown, prop, id);
                &&& final(self).strategy_spec() == old(self).strategy_spec()
                &&& (r is Ok <==> verdict is Ok)
                &&& (r is Err ==> verdict is Err && r->Err_0 == verdict->Err_0)
                &&& (forall|i: int|
                    0 <= i < grown.len() ==> final(self).entries_spec()[i].state
                        == enforced_state(grown, prop, id, i))
            }),
            !old(self).broken_spec() && r is Ok ==> r->Ok_0.0 == HandleId(old(self).next_id_spec())
                && r->Ok_0.1 == final(self).entries_spec().last().state && (forall|i: int|
                0 <= i < old(self).entries_spec().len() && old(self).entries_spec()[i].state is Admitted ==> final(self).entries_spec()[i].state is Admitted) && (forall|x: HandleId|
                r->Ok_0.2@.contains(x) <==> (admitted_id(final(self).entries_spec(), x) && x
                    != r->Ok_0.0)),
    {
        if self.broken {
            return Err(StrategyLogicError::BrokenLock);
        }
        let ghost pre = *self;
        let id = self.ids.fresh();
        self.entries.push(LockEntry { handle_id: id, method, state: State::Blocked });
        proof {
            let s = self.entries@;
            let n = pre.entries_spec().len() as int;
            assert(s.len() == n + 1);
            assert forall|i: int, j: int| 0 <= i < j < s.len() implies s[i].handle_id
                != s[j].handle_id by {
                if j < n {
                    assert(pre.entries_spec()[i].handle_id != pre.entries_spec()[j].handle_id);
                } else {
                    assert(pre.entries_spec()[i].handle_id.0 < pre.next_id_spec());
                }
            }
            assert forall|i: int, j: int|
                0 <= i < s.len() && 0 <= j < s.len() && i != j && s[i].state is Admitted
                    && s[j].state is Admitted implies s[i].method is Read
                && s[j].method is Read by {
                assert(i < n && j < n);
            }
            assert forall|i: int| 0 <= i < s.len() implies 1 <= #[trigger] s[i].handle_id.0
                < self.next_id_spec() by {
                if i < n {
                    assert(pre.entries_spec()[i].handle_id.0 < pre.next_id_spec());
                }
            }
        }
        let result = self.run_queue_logic(id);
        match result {
            Err(e) => {
                if e != StrategyLogicError::BrokenLock {
                    self.broken = true;
                }
                Err(e)
            }
            Ok(unparks) => {
                proof {
                    lemma_id_index_unique(self.entries@, id, self.entries@.len() - 1);
                    assert forall|i: int|
                        0 <= i < pre.entries_spec().len() && pre.entries_spec()[i].state
                            is Admitted implies self.entries@[i].state is Admitted by {
                        assert(pre.entries_spec()[i].handle_id.0 < pre.next_id_spec());
                    }
                }
                let st = self.poll(id);
                Ok((id, st, unparks))
            }
        }
    }

    /// Non-blocking acquisition step: as [`Self::do_acquire`], but a waiter
    /// that would have to park is removed again — it is necessarily the
    /// last entry — leaving the queue as if the attempt had never been
    /// enqueued, except that other waiters admitted by the strategy run
    /// keep their admission.
    pub fn try_acquire(&mut self, method: Method) -> (r: Result<
        (Option<HandleId>, Vec<HandleId>),
        StrategyLogicError,
    >)
        requires
            old(self).wf(),
            old(self).can_enqueue(),
        ensures
            final(self).wf(),
            old(self).broken_spec() ==> r is Err && r->Err_0 is BrokenLock && *final(self) == *old(self),
            !old(self).broken_spec() ==> final(self).next_id_spec() == old(self).next_id_spec() + 1
                && final(self).broken_spec() == (r is Err && !(r->Err_0 is BrokenLock)),
            !old(self).broken_spec() ==> (forall|i: int|
                0 <= i < old(self).entries_spec().len() ==> final(self).entries_spec()[i].handle_id
                    == old(self).entries_spec()[i].handle_id
                    && final(self).entries_spec()[i].method == old(self).entries_spec()[i].method),
            !old(self).broken_spec() && r is Err ==> final(self).entries_spec().len() == old(self).entries_spec().len() + 1,
            !old(self).broken_spec() && r is Err && r->Err_0 is BrokenLock ==> (forall|i: int|
                0 <= i < old(self).entries_spec().len() ==> final(self).entries_spec()[i] == old(self).entries_spec()[i]),
            !old(self).broken_spec() && r is Ok && r->Ok_0.0 is Some ==> ({
                let id = r->Ok_0.0->Some_0;
                &&& id == HandleId(old(self).next_id_spec())
                &&& final(self).entries_spec().len() == old(self).entries_spec().len() + 1
                &&& final(self).entries_spec().last().handle_id == id
                &&& final(self).entries_spec().last().method == method
                &&& final(self).entries_spec().last().state is Admitted
                &&& (forall|i: int|
                    0 <= i < old(self).entries_spec().len() ==> final(self).entries_spec()[i].handle_id == old(self).entries_spec()[i].handle_id
                        && final(self).entries_spec()[i].method == old(self).entries_spec()[i].method)
                &&& (forall|i: int|
                    0 <= i < old(self).entries_spec().len() && old(self).entries_spec()[i].state is Admitted ==> final(self).entries_spec()[i].state is Admitted)
                &&& (forall|x: HandleId|
                    r->Ok_0.1@.contains(x) <==> (admitted_id(final(self).entries_spec(), x) && x
                        != id))
            }),
            !old(self).broken_spec() && r is Ok && r->Ok_0.0 is None ==> final(self).entries_spec().len() == old(self).entries_spec().len() && (forall|i: int|
                0 <= i < old(self).entries_spec().len() ==> final(self).entries_spec()[i].handle_id
                    == old(self).entries_spec()[i].handle_id
                    && final(self).entries_spec()[i].method == old(self).entries_spec()[i].method) && (forall|i: int|
                0 <= i < old(self).entries_spec().len() && old(self).entries_spec()[i].state is Admitted ==> final(self).entries_spec()[i].state is Admitted) && (forall|x: HandleId|
                r->Ok_0.1@.contains(x) <==> (admitted_id(final(self).entries_spec(), x) && x
                    != HandleId(old(self).next_id_spec()))),
    {
        let ghost pre = *self;
        match self.do_acquire(method) {
            Err(e) => Err(e),
            Ok((id, st, unparks)) => {
                if st == State::Blocked {
                    let ghost grown = self.entries@;
                    let popped = self.entries.pop();
                    proof {
                        assert(grown.len() == pre.entries_spec().len() + 1);
                        assert(self.entries@ == grown.drop_last());
                        let s = self.entries@;
                        assert forall|i: int, j: int| 0 <= i < j < s.len() implies s[i].handle_id
                            != s[j].handle_id by {
                            assert(grown[i].handle_id != grown[j].handle_id);
                        }
                        assert forall|i: int, j: int|
                            0 <= i < s.len() && 0 <= j < s.len() && i != j && s[i].state
                                is Admitted && s[j].state is Admitted implies s[i].method is Read
                            && s[j].method is Read by {
                            assert(grown[i].state is Admitted && grown[j].state is Admitted);
                        }
                        assert forall|i: int| 0 <= i < s.len() implies 1 <= #[trigger] s[i].handle_id.0 < self.next_id_spec() by {
                            assert(grown[i] == s[i]);
                        }
                    }
                    if let Some(entry) = popped {
                        proof {
                            assert(entry.handle_id == id);
                        }
                    } else {
                        return unreached();
                    }
                    proof {
                        let s = self.entries@;
                        let grown_seq = grown;
                        assert forall|x: HandleId|
                            unparks@.contains(x) implies (admitted_id(s, x) && x != HandleId(
                            pre.next_id_spec(),
                        )) by {
                            assert(admitted_id(grown_seq, x) && x != id);
                            let i = choose|i: int|
                                0 <= i < grown_seq.len() && grown_seq[i].handle_id == x
                                    && grown_seq[i].state is Admitted;
                            assert(i < grown_seq.len() - 1);
                            assert(s[i].handle_id == x && s[i].state is Admitted);
                        }
                        assert forall|x: HandleId|
                            (admitted_id(s, x) && x != HandleId(pre.next_id_spec()))
                            implies unparks@.contains(x) by {
                            let i = choose|i: int|
                                0 <= i < s.len() && s[i].handle_id == x && s[i].state is Admitted;
                            assert(grown_seq[i].handle_id == x && grown_seq[i].state is Admitted);
                            assert(admitted_id(grown_seq, x));
                        }
                    }
                    Ok((None, unparks))
                } else {
                    Ok((Some(id), unparks))
                }
            }
        }
    }

    /// One release step for the waiter carrying `current`. On a broken lock
    /// the entry is removed best-effort and nothing else happens, so that
    /// guard drops complete without cascading failures; otherwise the entry
    /// is removed — it must exist — and the strategy is re-run over the
    /// shorter queue, admitting and reporting newly unblocked waiters.
    pub fn release(&mut self, current: HandleId) -> (r: Result<Vec<HandleId>, StrategyLogicError>)
        requires
            old(self).wf(),
            old(self).broken_spec() || contains_id(old(self).entries_spec(), current),
        ensures
            final(self).wf(),
            final(self).next_id_spec() == old(self).next_id_spec(),
            contains_id(old(self).entries_spec(), current) ==> final(self).entries_spec().len()
                == old(self).entries_spec().len() - 1,
            !contains_id(old(self).entries_spec(), current) ==> final(self).entries_spec() == old(self).entries_spec(),
            !contains_id(final(self).entries_spec(), current),
            forall|x: HandleId|
                x != current && contains_id(old(self).entries_spec(), x) ==> contains_id(
                    final(self).entries_spec(),
                    x,
                ) && method_of(final(self).entries_spec(), x) == method_of(
                    old(self).entries_spec(),
                    x,
                ),
            old(self).broken_spec() ==> final(self).broken_spec() && r is Ok && r->Ok_0@.len()
                == 0 && (contains_id(old(self).entries_spec(), current) ==> final(self).entries_spec() == old(self).entries_spec().remove(
                id_index(old(self).entries_spec(), current),
            )),
            !old(self).broken_spec() ==> ({
                let removed = old(self).entries_spec().remove(
                    id_index(old(self).entries_spec(), current),
                );
                &&& final(self).broken_spec() == (r is Err && !(r->Err_0 is BrokenLock))
                &&& (forall|i: int|
                    0 <= i < removed.len() ==> final(self).entries_spec()[i].handle_id
                        == removed[i].handle_id && final(self).entries_spec()[i].method
                        == removed[i].method)
                &&& (r is Err && r->Err_0 is BrokenLock ==> final(self).entries_spec() == removed)
                &&& (r is Ok ==> (forall|x: HandleId|
                    x != current && admitted_id(old(self).entries_spec(), x) ==> admitted_id(
                        final(self).entries_spec(),
                        x,
                    )))
                &&& (r is Ok ==> (forall|x: HandleId|
                    r->Ok_0@.contains(x) <==> (admitted_id(final(self).entries_spec(), x) && x
                        != current)))
            }),
            !old(self).broken_spec() && old(self).strategy_spec().conforming() ==> ({
                let removed = old(self).entries_spec().remove(
                    id_index(old(self).entries_spec(), current),
                );
                let prop = decision_of(old(self).strategy_spec(), keys_of(removed));
                let verdict = enforce_verdict(removed, prop, current);
                &&& final(self).strategy_spec() == old(self).strategy_spec()
                &&& (r is Ok <==> verdict is Ok)
                &&& (r is Err ==> verdict is Err && r->Err_0 == verdict->Err_0)
                &&& (forall|i: int|
                    0 <= i < removed.len() ==> final(self).entries_spec()[i].state
                        == enforced_state(removed, prop, current, i))
            }),
    {
        let ghost pre = *self;
        let idx_opt = self.find_index(current);
        proof {
            if let Some(i) = idx_opt {
                lemma_id_index_unique(pre.entries_spec(), current, i as int);
            }
        }
        let ghost removed_seq = pre.entries_spec().remove(
            id_index(pre.entries_spec(), current),
        );
        if self.broken {
            if let Some(i) = idx_opt {
                let _ = self.entries.remove(i);
                proof {
                    Self::lemma_wf_after_remove(pre.entries_spec(), i as int, self.next_id_spec());
                    lemma_removed_lacks_current(pre.entries_spec(), current, i as int);
                    lemma_survivors_keep_identity(pre.entries_spec(), i as int, self.entries@);
                }
            }
            Ok(Vec::new())
        } else {
            match idx_opt {
                None => unreached(),
                Some(i) => {
                    let _ = self.entries.remove(i);
                    proof {
                        Self::lemma_wf_after_remove(
                            pre.entries_spec(),
                            i as int,
                            self.next_id_spec(),
                        );
                        lemma_removed_lacks_current(pre.entries_spec(), current, i as int);
                    }
                    let result = self.run_queue_logic(current);
                    proof {
                        lemma_survivors_keep_identity(
                            pre.entries_spec(),
                            i as int,
                            self.entries@,
                        );
                    }
                    match result {
                        Err(e) => {
                            if e != StrategyLogicError::BrokenLock {
                                self.broken = true;
                            }
                            proof {
                                assert forall|j: int|
                                    0 <= j < final(self).entries_spec().len()
                                    implies final(self).entries_spec()[j].handle_id
                                    != current by {
                                    assert(removed_seq[j].handle_id != current);
                                }
                            }
                            Err(e)
                        }
                        Ok(unparks) => {
                            proof {
                                let post = self.entries@;
                                assert forall|j: int| 0 <= j < post.len() implies post[j].handle_id
                                    != current by {
                                    assert(removed_seq[j].handle_id != current);
                                }
                                assert forall|x: HandleId|
                                    x != current && admitted_id(pre.entries_spec(), x)
                                    implies admitted_id(post, x) by {
                                    let j = choose|j: int|
                                        0 <= j < pre.entries_spec().len()
                                            && pre.entries_spec()[j].handle_id == x
                                            && pre.entries_spec()[j].state is Admitted;
                                    let ii = i as int;
                                    assert(j != ii);
                                    let jj = if j < ii { j } else { j - 1 };
                                    assert(removed_seq[jj] == pre.entries_spec()[j]);
                                    assert(removed_seq[jj].state is Admitted
                                        && removed_seq[jj].handle_id == x);
                                    assert(post[jj].state is Admitted);
                                    assert(post[jj].handle_id == x);
                                }
                            }
                            Ok(unparks)
                        }
                    }
                }
            }
        }
    }

    /// Removing any position from a sane queue leaves a sane queue.
    proof fn lemma_wf_after_remove(s: Seq<LockEntry>, i: int, bound: u128)
        requires
            distinct_ids(s),
            admissible(s),
            0 <= i < s.len(),
            forall|k: int| 0 <= k < s.len() ==> 1 <= #[trigger] s[k].handle_id.0 < bound,
        ensures
            distinct_ids(s.remove(i)),
            admissible(s.remove(i)),
            forall|k: int|
                0 <= k < s.remove(i).len() ==> 1 <= #[trigger] s.remove(i)[k].handle_id.0 < bound,
    {
        let t = s.remove(i);
        assert forall|a: int, b: int| 0 <= a < b < t.len() implies t[a].handle_id
            != t[b].handle_id by {
            let aa = if a < i { a } else { a + 1 };
            let bb = if b < i { b } else { b + 1 };
            assert(t[a] == s[aa] && t[b] == s[bb]);
            assert(s[aa].handle_id != s[bb].handle_id);
        }
        assert forall|a: int, b: int|
            0 <= a < t.len() && 0 <= b < t.len() && a != b && t[a].state is Admitted && t[b].state
                is Admitted implies t[a].method is Read && t[b].method is Read by {
            let aa = if a < i { a } else { a + 1 };
            let bb = if b < i { b } else { b + 1 };
            assert(t[a] == s[aa] && t[b] == s[bb]);
        }
        assert forall|k: int| 0 <= k < t.len() implies 1 <= #[trigger] t[k].handle_id.0 < bound by {
            let kk = if k < i { k } else { k + 1 };
            assert(t[k] == s[kk]);
            assert(1 <= s[kk].handle_id.0 < bound);
        }
    }
}

/// Under distinct ids, an admitted identity's recorded state is admitted.
pub proof fn lemma_admitted_id_state(s: Seq<LockEntry>, x: HandleId)
    requires
        distinct_ids(s),
        admitted_id(s, x),
    ensures
        contains_id(s, x),
        state_of(s, x) is Admitted,
{
    let j = choose|j: int| 0 <= j < s.len() && s[j].handle_id == x && s[j].state is Admitted;
    lemma_id_index_unique(s, x, j);
}

/// When a pass preserves the identities and methods of a prefix, every
/// identity of the shorter queue keeps its membership and its method.
pub proof fn lemma_prefix_keeps_identity(pre: Seq<LockEntry>, post: Seq<LockEntry>)
    requires
        distinct_ids(pre),
        distinct_ids(post),
        post.len() >= pre.len(),
        forall|i: int|
            0 <= i < pre.len() ==> post[i].handle_id == pre[i].handle_id && post[i].method
                == pre[i].method,
    ensures
        forall|x: HandleId|
            contains_id(pre, x) ==> contains_id(post, x) && method_of(post, x) == method_of(
                pre,
                x,
            ),
{
    assert forall|x: HandleId|
        contains_id(pre, x) implies contains_id(post, x) && method_of(post, x) == method_of(
        pre,
        x,
    ) by {
        let j = choose|j: int| 0 <= j < pre.len() && pre[j].handle_id == x;
        lemma_id_index_unique(pre, x, j);
        assert(post[j].handle_id == x);
        lemma_id_index_unique(post, x, j);
        assert(post[j].method == pre[j].method);
    }
}

/// Every waiter other than the removed one keeps its place and its method
/// through a removal followed by any pass that preserves identities and
/// methods.
proof fn lemma_survivors_keep_identity(s0: Seq<LockEntry>, idx: int, post: Seq<LockEntry>)
    requires
        distinct_ids(s0),
        0 <= idx < s0.len(),
        post.len() == s0.len() - 1,
        forall|i: int|
            0 <= i < post.len() ==> post[i].handle_id == s0.remove(idx)[i].handle_id
                && post[i].method == s0.remove(idx)[i].method,
        distinct_ids(post),
    ensures
        forall|x: HandleId|
            x != s0[idx].handle_id && contains_id(s0, x) ==> contains_id(post, x) && method_of(
                post,
                x,
            ) == method_of(s0, x),
{
    assert forall|x: HandleId|
        x != s0[idx].handle_id && contains_id(s0, x) implies contains_id(post, x) && method_of(
        post,
        x,
    ) == method_of(s0, x) by {
        let j = choose|j: int| 0 <= j < s0.len() && s0[j].handle_id == x;
        lemma_id_index_unique(s0, x, j);
        assert(j != idx);
        let jj = if j < idx {
            j
        } else {
            j - 1
        };
        assert(s0.remove(idx)[jj] == s0[j]);
        assert(post[jj].handle_id == x);
        lemma_id_index_unique(post, x, jj);
        assert(post[jj].method == s0[j].method);
    }
}

/// After removing the unique position that carries `current`, no position
/// carries it.
proof fn lemma_removed_lacks_current(s: Seq<LockEntry>, current: HandleId, i: int)
    requires
        distinct_ids(s),
        0 <= i < s.len(),
        s[i].handle_id == current,
    ensures
        forall|j: int| 0 <= j < s.remove(i).len() ==> s.remove(i)[j].handle_id != current,
        !contains_id(s.remove(i), current),
{
    let t = s.remove(i);
    assert forall|j: int| 0 <= j < t.len() implies t[j].handle_id != current by {
        let jj = if j < i { j } else { j + 1 };
        assert(t[j] == s[jj]);
        assert(jj != i);
        if jj < i {
            assert(s[jj].handle_id != s[i].handle_id);
        } else {
            assert(s[i].handle_id != s[jj].handle_id);
        }
    }
    if contains_id(t, current) {
        let j = choose|j: int| 0 <= j < t.len() && t[j].handle_id == current;
        assert(false);
    }
}

/// Writer exclusivity under any strategy: in an admissible queue — which
/// every scheduler operation leaves behind — an admitted writer stands
/// alone: no other waiter, reader or writer, is admitted beside it.
pub proof fn lemma_admitted_writer_alone(s: Seq<LockEntry>, i: int, j: int)
    requires
        admissible(s),
        0 <= i < s.len(),
        0 <= j < s.len(),
        i != j,
        s[i].state is Admitted,
        s[i].method is Write,
    ensures
        !(s[j].state is Admitted),
{
}

} // verus!
