//! Admission strategies for the queued reader/writer lock.
//!
//! A strategy is a policy over the enqueue-ordered list of waiters — pairs
//! of handle identity and requested method — answering, for each waiter,
//! whether it is admitted or blocked. The queue scheduler runs the policy,
//! validates its answer, and never trusts it: the safety invariants are
//! enforced by [`crate::queue::LockedQueue`] for every conceivable policy.
//!
//! The reference policy is [`fair`]: adjacent readers at the front are
//! batched, writers serialize in arrival order, and no reader overtakes a
//! waiting writer.

use vstd::prelude::*;

use crate::handle::HandleId;

verus! {

/// The access a waiter asks for.
#[derive(Clone, Copy, Debug, PartialEq, Eq, Hash, Structural)]
pub enum Method {
    Read,
    Write,
}

impl Method {
    /// Picks one of two values by the requested access: the value form of
    /// dispatching on the method.
    pub fn switch<T>(&self, read: T, write: T) -> (r: T)
        ensures
            self is Read ==> r == read,
            self is Write ==> r == write,
    {
        match self {
            Method::Read => read,
            Method::Write => write,
        }
    }
}

/// Admission state of a waiter: admitted, or still blocked.
#[derive(Clone, Copy, Debug, PartialEq, Eq, Hash, Structural)]
pub enum State {
    Admitted,
    Blocked,
}

/// An admission policy over the enqueue-ordered waiter list. The answer
/// must have one state per waiter, positionally; the scheduler checks this
/// and every safety condition at run time, so a policy carries no proof
/// obligation for safety — a broken one is detected, reported and
/// contained.
///
/// A policy may additionally declare itself `conforming`: it then promises
/// that `decide` computes exactly the verdict `admits_spec` describes, and
/// the scheduler's contracts become exact for it. A policy that promises
/// nothing answers `false` and its `decide` is unconstrained.
pub trait Strategy {
    /// Whether this policy promises the verdict that `admits_spec`
    /// describes. By default a policy promises nothing.
    open spec fn conforming(&self) -> bool {
        false
    }

    /// The admission this policy promises for position `i`, when it is
    /// conforming.
    open spec fn admits_spec(&self, entries: Seq<(HandleId, Method)>, i: int) -> bool {
        false
    }

    fn decide(&mut self, entries: &Vec<(HandleId, Method)>) -> (r: Vec<State>) where
        Self: Sized
        ensures
            old(self).conforming() ==> *final(self) == *old(self) && r.len() == entries.len()
                && (forall|i: int|
                    0 <= i < r.len() ==> (r[i] is Admitted <==> old(self).admits_spec(
                        entries@,
                        i,
                    ))),
    ;
}

/// Whether the FIFO fair policy admits the waiter at position `i`: a reader
/// is admitted while only readers stand in front of it, and a writer only
/// once it stands at the head of the queue.
pub open spec fn fair_admits(methods: Seq<Method>, i: int) -> bool {
    if methods[i] is Read {
        forall|j: int| 0 <= j < i ==> methods[j] is Read
    } else {
        i == 0
    }
}

/// The state the FIFO fair policy assigns to position `i`.
pub open spec fn fair_decision(methods: Seq<Method>, i: int) -> State {
    if fair_admits(methods, i) {
        State::Admitted
    } else {
        State::Blocked
    }
}

/// The methods of a waiter snapshot, in queue order.
pub open spec fn methods_of(entries: Seq<(HandleId, Method)>) -> Seq<Method> {
    entries.map_values(|p: (HandleId, Method)| p.1)
}

/// The FIFO fair admission policy. Walks the queue in arrival order holding
/// two gates, one for future readers and one for future writers: a reader
/// is admitted through the read gate and closes the write gate behind it; a
/// writer is admitted through the write gate and closes both. Hence a burst
/// of readers at the front is admitted together, the first writer waits for
/// them to drain, and later arrivals cannot overtake it.
pub fn fair(entries: &Vec<(HandleId, Method)>) -> (r: Vec<State>)
    ensures
        r.len() == entries.len(),
        forall|i: int| 0 <= i < r.len() ==> r[i] == fair_decision(methods_of(entries@), i),
{
    let ghost methods = methods_of(entries@);
    let mut collection: Vec<State> = Vec::new();
    let mut future_read = State::Admitted;
    let mut future_write = State::Admitted;
    let mut k: usize = 0;
    while k < entries.len()
        invariant
            k == collection.len(),
            k <= entries.len(),
            methods == methods_of(entries@),
            methods.len() == entries.len(),
            forall|j: int| 0 <= j < methods.len() ==> methods[j] == entries@[j].1,
            future_write == (if k == 0 { State::Admitted } else { State::Blocked }),
            future_read == (if forall|j: int| 0 <= j < k ==> methods[j] is Read {
                State::Admitted
            } else {
                State::Blocked
            }),
            forall|i: int| 0 <= i < k ==> collection[i] == fair_decision(methods, i),
        decreases entries.len() - k,
    {
        let (_, method) = entries[k];
        proof {
            assert(methods[k as int] == entries@[k as int].1);
        }
        match method {
            Method::Read => {
                collection.push(future_read);
                future_write = State::Blocked;
            }
            Method::Write => {
                collection.push(future_write);
                future_read = State::Blocked;
                future_write = State::Blocked;
            }
        }
        proof {
            if methods[k as int] is Read && (forall|j: int| 0 <= j < k ==> methods[j] is Read) {
                assert forall|j: int| 0 <= j < k + 1 implies methods[j] is Read by {
                    if j < k {
                        assert(methods[j] is Read);
                    }
                }
            }
        }
        k = k + 1;
    }
    collection
}

/// A [`Strategy`] running the FIFO fair policy.
#[derive(Clone, Copy, Debug)]
pub struct FairStrategy;

impl Strategy for FairStrategy {
    open spec fn conforming(&self) -> bool {
        true
    }

    open spec fn admits_spec(&self, entries: Seq<(HandleId, Method)>, i: int) -> bool {
        fair_admits(methods_of(entries), i)
    }

    fn decide(&mut self, entries: &Vec<(HandleId, Method)>) -> (r: Vec<State>)
        ensures
            *final(self) == *old(self),
            r.len() == entries.len(),
            forall|i: int| 0 <= i < r.len() ==> r[i] == fair_decision(methods_of(entries@), i),
    {
        fair(entries)
    }
}

/// FIFO fairness, first half: whatever stands in front of an admitted
/// waiter is admitted no later than it. So admission never skips over an
/// unadmitted compatible request.
pub proof fn lemma_fair_fifo(methods: Seq<Method>, i: int, j: int)
    requires
        0 <= i < j < methods.len(),
        fair_admits(methods, j),
    ensures
        fair_admits(methods, i),
{
}

/// FIFO fairness, second half: no writer is starved by arrivals behind it.
/// Whatever arrives after a waiting writer — reader or writer — is not
/// admitted before that writer has been admitted and has left the queue.
pub proof fn lemma_fair_no_writer_starvation(methods: Seq<Method>, i: int, j: int)
    requires
        0 <= i < j < methods.len(),
        methods[i] is Write,
    ensures
        !fair_admits(methods, j),
{
}

/// Read concurrency under the fair policy: a batch of adjacent readers at
/// the front of the queue is admitted together.
pub proof fn lemma_fair_read_batch(methods: Seq<Method>, i: int)
    requires
        0 <= i < methods.len(),
        forall|j: int| 0 <= j <= i ==> methods[j] is Read,
    ensures
        fair_admits(methods, i),
{
}

} // verus!
