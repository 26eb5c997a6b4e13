use powerlocks::handle::{CoreThreadEnv, HandleId};
use powerlocks::queue::StrategyLogicError;
use powerlocks::strategied_rwlock::StrategiedRwLock;
use powerlocks::strategies::{FairStrategy, Method, State, Strategy};
use powerlocks::poison::TryLockError;

type FairLock<T> = StrategiedRwLock<T, FairStrategy, CoreThreadEnv>;

fn expect_err<T>(r: Result<T, StrategyLogicError>) -> StrategyLogicError {
    match r {
        Err(e) => e,
        Ok(_) => panic!("expected a strategy logic error"),
    }
}

/// A broken policy that admits everything unconditionally.
struct AlwaysAllow;

impl Strategy for AlwaysAllow {
    fn decide(&mut self, entries: &Vec<(HandleId, Method)>) -> Vec<State> {
        entries.iter().map(|_| State::Admitted).collect()
    }
}

/// A broken policy that blocks the whole queue once two waiters stand in it.
struct BlockOnSecond;

impl Strategy for BlockOnSecond {
    fn decide(&mut self, entries: &Vec<(HandleId, Method)>) -> Vec<State> {
        let state = if entries.len() >= 2 { State::Blocked } else { State::Admitted };
        entries.iter().map(|_| state).collect()
    }
}

/// A broken policy that answers with the wrong number of states.
struct WrongLength;

impl Strategy for WrongLength {
    fn decide(&mut self, _entries: &Vec<(HandleId, Method)>) -> Vec<State> {
        Vec::new()
    }
}

#[test]
fn strategied_round_trip() {
    let l = FairLock::new(11u32);
    assert_eq!(l.into_inner().ok().unwrap(), 11);
}

#[test]
fn strategied_read_then_write() {
    let mut l = FairLock::new(5u32);

    let r1 = l.try_read().unwrap().ok().unwrap();
    let r2 = l.try_read().unwrap().ok().unwrap();
    assert_eq!(*l.read_data(&r1), 5);
    assert_eq!(*l.read_data(&r2), 5);

    // A writer cannot enter while readers are admitted.
    assert!(matches!(l.try_write(), Ok(Err(TryLockError::WouldBlock))));

    l.finish_read(r1).unwrap();
    l.finish_read(r2).unwrap();

    let mut w = l.try_write().unwrap().ok().unwrap();
    assert_eq!(*w.get(), 5);
    w.set(6);
    l.finish_write_with(w, false).unwrap();
    assert_eq!(l.into_inner().ok().unwrap(), 6);
}

#[test]
fn strategied_poisoning() {
    let mut l = FairLock::new(());

    let w = l.try_write().unwrap().ok().unwrap();
    // The writer unwinds while holding the lock.
    l.finish_write_with(w, true).unwrap();
    assert!(l.is_poisoned());

    // Poisoned acquisitions hand the lease out wrapped in the error.
    let r = match l.try_read().unwrap() {
        Err(TryLockError::Poisoned(poison)) => poison.into_inner(),
        _ => panic!("expected a poisoned read"),
    };
    l.finish_read(r).unwrap();

    let w = match l.try_write().unwrap() {
        Err(TryLockError::Poisoned(poison)) => poison.into_inner(),
        _ => panic!("expected a poisoned write"),
    };
    l.finish_write_with(w, false).unwrap();
    assert!(l.is_poisoned());

    l.clear_poison();
    assert!(!l.is_poisoned());
    let r = l.try_read().unwrap().ok().unwrap();
    l.finish_read(r).unwrap();
    assert!(!l.is_poisoned());
}

#[test]
fn broken_strategy_read_then_write() {
    let mut l =
        StrategiedRwLock::<u8, AlwaysAllow, CoreThreadEnv>::new_strategied(0, AlwaysAllow);

    let r = l.try_read().unwrap().ok().unwrap();
    // Admitting a writer beside the reader is a logic error.
    assert_eq!(expect_err(l.try_write()), StrategyLogicError::ConcurrentReadAndWrite);

    // The lock is broken: every further acquisition is refused.
    assert_eq!(expect_err(l.try_read()), StrategyLogicError::BrokenLock);
    assert_eq!(expect_err(l.try_write()), StrategyLogicError::BrokenLock);

    // Releases stay best-effort on a broken lock, so drops complete.
    l.finish_read(r).unwrap();
}

#[test]
fn broken_strategy_two_writes() {
    let mut l =
        StrategiedRwLock::<u8, AlwaysAllow, CoreThreadEnv>::new_strategied(0, AlwaysAllow);

    let w = l.try_write().unwrap().ok().unwrap();
    assert_eq!(expect_err(l.try_write()), StrategyLogicError::ConcurrentMultipleWrites);

    assert_eq!(expect_err(l.try_read()), StrategyLogicError::BrokenLock);
    assert_eq!(expect_err(l.try_write()), StrategyLogicError::BrokenLock);

    l.finish_write_with(w, false).unwrap();
}

#[test]
fn broken_strategy_ok_then_blocked() {
    let mut l =
        StrategiedRwLock::<u8, BlockOnSecond, CoreThreadEnv>::new_strategied(0, BlockOnSecond);

    let r = l.try_read().unwrap().ok().unwrap();
    // Re-blocking the admitted reader is a logic error.
    assert_eq!(expect_err(l.try_read()), StrategyLogicError::BlockedAfterOkState);
    assert_eq!(expect_err(l.try_read()), StrategyLogicError::BrokenLock);

    l.finish_read(r).unwrap();
}

#[test]
fn broken_strategy_wrong_length() {
    let mut l =
        StrategiedRwLock::<u8, WrongLength, CoreThreadEnv>::new_strategied(0, WrongLength);

    // A verdict of the wrong length is reported without breaking the lock.
    assert_eq!(expect_err(l.try_read()), StrategyLogicError::BrokenLock);
    assert_eq!(expect_err(l.try_read()), StrategyLogicError::BrokenLock);
}

#[test]
fn strategied_get_mut() {
    let mut l = FairLock::new(2u64);
    *l.get_mut() += 1;
    assert_eq!(l.into_inner().ok().unwrap(), 3);
}

#[test]
fn strategy_error_messages() {
    assert_eq!(
        StrategyLogicError::ConcurrentReadAndWrite.message(),
        "The provided `Strategy` wanted to admit a writer and a reader together.",
    );
    assert_eq!(
        StrategyLogicError::ConcurrentMultipleWrites.message(),
        "The provided `Strategy` wanted to admit two or more writers.",
    );
    assert_eq!(
        StrategyLogicError::BlockedAfterOkState.message(),
        "The provided `Strategy` wanted to re-block an already admitted thread.",
    );
    assert_eq!(
        StrategyLogicError::BrokenLock.message(),
        "There is a logic error in the provided `Strategy`. Can't continue.",
    );
}

#[test]
fn strategied_load_test() {
    const REPS: u64 = 512;
    let mut l = FairLock::new(0u64);

    for _pass in 0..2 {
        let mut x = 1u64;
        for rep in 0..REPS {
            x = x.wrapping_mul(6364136223846793005).wrapping_add(1442695040888963407);
            if rep % 8 == 0 {
                let mut w = l.try_write().unwrap().ok().unwrap();
                let v = *w.get();
                w.set(v ^ x);
                l.finish_write_with(w, false).unwrap();
            } else {
                let r = l.try_read().unwrap().ok().unwrap();
                let _ = *l.read_data(&r);
                l.finish_read(r).unwrap();
            }
        }
    }
    assert_eq!(l.into_inner().ok().unwrap(), 0);
}

#[test]
fn strategied_blocking_read_batch_then_writer() {
    let mut l = FairLock::new(3u32);

    // A batch of readers is admitted together by the fair policy.
    let r1 = l.read().ok().unwrap();
    let r2 = l.read().ok().unwrap();
    assert_eq!(*l.read_data(&r1), 3);
    assert_eq!(*l.read_data(&r2), 3);
    l.finish_read(r1).unwrap();
    l.finish_read(r2).unwrap();

    // With the queue drained, a writer enters alone.
    let mut w = l.write().ok().unwrap();
    w.set(4);
    l.finish_write_with(w, false).unwrap();
    assert_eq!(l.into_inner().ok().unwrap(), 4);
}

#[test]
fn strategied_blocking_write_poisons_on_unwind() {
    let mut l = FairLock::new(());

    let w = l.write().ok().unwrap();
    l.finish_write_with(w, true).unwrap();
    assert!(l.is_poisoned());

    // The blocking paths report the poison as the error payload.
    let r = match l.read() {
        Err(poison) => poison.into_inner(),
        Ok(_) => panic!("expected a poisoned read"),
    };
    l.finish_read(r).unwrap();

    let w = match l.write() {
        Err(poison) => poison.into_inner(),
        Ok(_) => panic!("expected a poisoned write"),
    };
    l.finish_write_with(w, false).unwrap();

    l.clear_poison();
    assert!(!l.is_poisoned());
    let r = l.read().ok().unwrap();
    l.finish_read(r).unwrap();
}
