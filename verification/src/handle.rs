//! Actor identities and thread-environment capabilities.
//!
//! A [`Handle`] stands for a thread-like actor: it carries a [`HandleId`] and
//! the parking capabilities a queued lock needs. Fresh identities come from a
//! [`HandleIdSource`], the model of the process-wide monotonic counter; the
//! sentinel id `0` is reserved for the anonymous "dumb" handle.

use vstd::prelude::*;

verus! {

/// Identity of a thread-like actor. Fresh identities are pairwise distinct
/// and nonzero; `0` is the sentinel shared by every dumb handle.
#[derive(Debug, Clone, Copy, PartialEq, Eq, Hash, Structural)]
pub struct HandleId(pub u128);

impl HandleId {
    /// Whether this is the anonymous sentinel identity.
    pub open spec fn is_dumb(self) -> bool {
        self.0 == 0
    }

    /// The identity shared by every dumb handle, used where ownership
    /// identity is irrelevant.
    pub fn new_dumb() -> (r: HandleId)
        ensures
            r.is_dumb(),
    {
        HandleId(0)
    }
}

/// A source of fresh handle identities: the model of the process-wide
/// monotonic counter. Identities are issued strictly increasing, starting at
/// `1`, so no two issued identities are equal and none is the sentinel.
pub struct HandleIdSource {
    next: u128,
}

/// One issuance step of a [`HandleIdSource`]: `id` came out and the source
/// moved from `pre` to `post`.
pub open spec fn fresh_id_step(pre: HandleIdSource, post: HandleIdSource, id: HandleId) -> bool {
    &&& pre.wf()
    &&& pre.can_issue()
    &&& id.0 == pre.next_spec()
    &&& post.next_spec() == pre.next_spec() + 1
}

impl HandleIdSource {
    /// The next identity this source will issue.
    pub closed spec fn next_spec(&self) -> u128 {
        self.next
    }

    /// Every identity still to be issued is nonzero.
    pub open spec fn wf(&self) -> bool {
        self.next_spec() >= 1
    }

    /// The counter is not exhausted.
    pub open spec fn can_issue(&self) -> bool {
        self.next_spec() < u128::MAX
    }

    pub fn new() -> (r: HandleIdSource)
        ensures
            r.wf(),
            r.next_spec() == 1,
    {
        HandleIdSource { next: 1 }
    }

    /// Whether a fresh identity can still be issued.
    pub fn available(&self) -> (r: bool)
        ensures
            r == self.can_issue(),
    {
        self.next < u128::MAX
    }

    /// Issues a fresh identity: distinct from everything issued before and
    /// from the sentinel.
    pub fn fresh(&mut self) -> (r: HandleId)
        requires
            old(self).wf(),
            old(self).can_issue(),
        ensures
            fresh_id_step(*old(self), *final(self), r),
            final(self).wf(),
            !r.is_dumb(),
    {
        let id = HandleId(self.next);
        self.next = self.next + 1;
        id
    }
}

/// Fresh handle identities are pairwise distinct: two consecutive issuance
/// steps of one source never hand out the same identity, and identities only
/// grow across steps.
pub proof fn lemma_fresh_handle_ids_distinct(
    s0: HandleIdSource,
    s1: HandleIdSource,
    s2: HandleIdSource,
    a: HandleId,
    b: HandleId,
)
    requires
        fresh_id_step(s0, s1, a),
        fresh_id_step(s1, s2, b),
    ensures
        a != b,
        a.0 < b.0,
{
}

/// Capabilities of a thread environment: a scheduler hint and the
/// panic-in-progress query. Implementations decide what these do; the
/// verified lock logic never assumes anything about their answers.
pub trait ThreadEnv {
    /// Hint that the current actor is willing to yield the processor.
    fn yield_now();

    /// Whether the current actor is unwinding from a panic.
    fn panicking() -> bool;
}

/// A thread-like actor: an identity plus parking. `unpark` releases one
/// `park` on the target and is a no-op otherwise; `park` may return
/// spuriously. Parking is a logic contract, not a soundness one: the lock
/// logic re-checks its admission state after every wake.
pub trait Handle: ThreadEnv {
    /// The identity of this handle.
    fn id(&self) -> HandleId;

    /// Blocks the current actor until unparked; may return spuriously.
    fn park(&self);

    /// Releases one pending `park` on this handle; never blocks.
    fn unpark(&self);
}

/// Relies on core::hint::spin_loop: emits a spin-wait hint to the processor
/// and returns nothing.
#[verifier::external_body]
fn spin_hint() {
    core::hint::spin_loop()
}

/// The bare environment, usable without a platform threading library:
/// yielding spins, and a bare actor is never unwinding.
#[derive(Debug, Clone, Copy)]
pub struct CoreThreadEnv;

impl ThreadEnv for CoreThreadEnv {
    fn yield_now() {
        spin_hint();
    }

    fn panicking() -> bool {
        false
    }
}

/// Handle for the bare environment: parking spins, unparking is a no-op, so
/// a parked waiter simply re-polls its admission state.
#[derive(Debug, Clone)]
pub struct CoreHandle {
    id: HandleId,
}

impl CoreHandle {
    /// The identity this handle was built with.
    pub closed spec fn id_spec(&self) -> HandleId {
        self.id
    }

    /// Wraps a fresh identity drawn from a [`HandleIdSource`].
    pub fn new(id: HandleId) -> (r: CoreHandle)
        ensures
            r.id_spec() == id,
    {
        CoreHandle { id }
    }

    /// The anonymous handle, used where ownership identity is irrelevant.
    pub fn dumb() -> (r: CoreHandle)
        ensures
            r.id_spec().is_dumb(),
    {
        CoreHandle { id: HandleId(0) }
    }
}

impl ThreadEnv for CoreHandle {
    fn yield_now() {
        spin_hint();
    }

    fn panicking() -> bool {
        false
    }
}

impl Handle for CoreHandle {
    fn id(&self) -> (r: HandleId)
        ensures
            r == self.id_spec(),
    {
        self.id
    }

    fn park(&self) {
        spin_hint();
    }

    fn unpark(&self) {
    }
}

} // verus!
