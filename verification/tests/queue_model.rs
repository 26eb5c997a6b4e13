use powerlocks::handle::HandleId;
use powerlocks::queue::LockedQueue;
use powerlocks::strategies::{FairStrategy, Method, State};

#[test]
fn queue_two_readers_then_writer_fair() {
    let mut q = LockedQueue::new(FairStrategy);

    // Two readers at the front are admitted together.
    let (r1, s1, u1) = q.do_acquire(Method::Read).ok().unwrap();
    assert_eq!(s1, State::Admitted);
    assert!(u1.is_empty());
    let (r2, s2, u2) = q.do_acquire(Method::Read).ok().unwrap();
    assert_eq!(s2, State::Admitted);
    assert_eq!(u2, vec![r1]);

    // A writer behind them waits.
    let (w1, s3, _u3) = q.do_acquire(Method::Write).ok().unwrap();
    assert_eq!(s3, State::Blocked);

    // A reader arriving after the writer must not overtake it.
    let (r3, s4, _u4) = q.do_acquire(Method::Read).ok().unwrap();
    assert_eq!(s4, State::Blocked);

    // One reader leaving does not admit the writer yet.
    let u = q.release(r1).ok().unwrap();
    assert!(u.contains(&r2));
    assert!(!u.contains(&w1));
    assert_eq!(q.poll(w1), State::Blocked);

    // Both readers gone: the writer is admitted, alone.
    let u = q.release(r2).ok().unwrap();
    assert!(u.contains(&w1));
    assert!(!u.contains(&r3));
    assert_eq!(q.poll(w1), State::Admitted);
    assert_eq!(q.poll(r3), State::Blocked);

    // The writer gone: the late reader is admitted.
    let u = q.release(w1).ok().unwrap();
    assert!(u.contains(&r3));
    assert_eq!(q.poll(r3), State::Admitted);

    let u = q.release(r3).ok().unwrap();
    assert!(u.is_empty());
    assert_eq!(q.waiter_count(), 0);
}

#[test]
fn queue_writer_convoy() {
    let mut q = LockedQueue::new(FairStrategy);

    let (w1, s1, _) = q.do_acquire(Method::Write).ok().unwrap();
    assert_eq!(s1, State::Admitted);
    let (w2, s2, _) = q.do_acquire(Method::Write).ok().unwrap();
    assert_eq!(s2, State::Blocked);
    let (w3, s3, _) = q.do_acquire(Method::Write).ok().unwrap();
    assert_eq!(s3, State::Blocked);

    // Writers serialize in arrival order.
    let u = q.release(w1).ok().unwrap();
    assert!(u.contains(&w2));
    assert!(!u.contains(&w3));
    assert_eq!(q.poll(w2), State::Admitted);
    assert_eq!(q.poll(w3), State::Blocked);

    let u = q.release(w2).ok().unwrap();
    assert!(u.contains(&w3));
    assert_eq!(q.poll(w3), State::Admitted);

    q.release(w3).ok().unwrap();
    assert_eq!(q.waiter_count(), 0);
}

#[test]
fn queue_try_acquire_pops_blocked_entry() {
    let mut q = LockedQueue::new(FairStrategy);

    let (w1, s1, _) = q.do_acquire(Method::Write).ok().unwrap();
    assert_eq!(s1, State::Admitted);
    assert_eq!(q.waiter_count(), 1);

    // A blocked non-blocking attempt leaves no trace in the queue.
    let (outcome, _) = q.try_acquire(Method::Read).ok().unwrap();
    assert!(outcome.is_none());
    assert_eq!(q.waiter_count(), 1);

    let u = q.release(w1).ok().unwrap();
    assert!(u.is_empty());

    // On a free queue the non-blocking attempt is admitted.
    let (outcome, _) = q.try_acquire(Method::Read).ok().unwrap();
    let r = outcome.unwrap();
    assert_eq!(q.poll(r), State::Admitted);
    q.release(r).ok().unwrap();
}

#[test]
fn queue_handle_ids_are_fresh() {
    let mut q = LockedQueue::new(FairStrategy);
    let (a, _, _) = q.do_acquire(Method::Read).ok().unwrap();
    let (b, _, _) = q.do_acquire(Method::Read).ok().unwrap();
    q.release(a).ok().unwrap();
    let (c, _, _) = q.do_acquire(Method::Read).ok().unwrap();
    assert_ne!(a, b);
    assert_ne!(a, c);
    assert_ne!(b, c);
    assert_ne!(a, HandleId(0));
    assert_ne!(b, HandleId(0));
    assert_ne!(c, HandleId(0));
}
