//! A verified model of a family of synchronization primitives: a spinning
//! mutex with poisoning, a counter-based reader/writer lock, and a
//! strategy-driven, queued reader/writer lock with a FIFO fair admission
//! policy.
//!
//! Every lock is modelled as an explicit state machine whose transitions are
//! ordinary `&mut self` methods with full contracts: acquisition hands out a
//! guard token, release consumes it, and the admission invariants (at most
//! one writer, never a writer beside a reader, admissions are never revoked)
//! are proved for every strategy a caller may supply.

pub mod handle;
pub mod mutex;
pub mod poison;
pub mod queue;
pub mod rwlock;
pub mod strategied_rwlock;
pub mod strategies;
