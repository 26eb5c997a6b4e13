use powerlocks::handle::CoreThreadEnv;
use powerlocks::mutex::BaseMutex;
use powerlocks::poison::TryLockError;

type CoreMutex<T> = BaseMutex<T, (), CoreThreadEnv>;

#[test]
fn mutex_round_trip() {
    let m = CoreMutex::new_unhooked(5u64);
    assert_eq!(m.into_inner().ok().unwrap(), 5);
}

#[test]
fn mutex_lock_and_write() {
    let mut m = CoreMutex::new_unhooked(0u64);
    let mut guard = m.lock().ok().unwrap();
    assert_eq!(*guard.get(), 0);
    guard.set(42);
    m.unlock(guard);
    assert_eq!(m.into_inner().ok().unwrap(), 42);
}

#[test]
fn mutex_lock_writing_patterns() {
    let mut m8 = CoreMutex::new_unhooked(0u8);
    let mut g = m8.lock().ok().unwrap();
    g.set(0xcb);
    m8.unlock(g);
    assert_eq!(m8.into_inner().ok().unwrap(), 0xcb);

    let mut m16 = CoreMutex::new_unhooked(0u16);
    let mut g = m16.lock().ok().unwrap();
    g.set(0x47a2);
    m16.unlock(g);
    assert_eq!(m16.into_inner().ok().unwrap(), 0x47a2);

    let mut m32 = CoreMutex::new_unhooked(0u32);
    let mut g = m32.lock().ok().unwrap();
    g.set(0xac7e4d30);
    m32.unlock(g);
    assert_eq!(m32.into_inner().ok().unwrap(), 0xac7e4d30);

    let mut m64 = CoreMutex::new_unhooked(0u64);
    let mut g = m64.lock().ok().unwrap();
    g.set(0xac7e4d30_951f268b);
    m64.unlock(g);
    assert_eq!(m64.into_inner().ok().unwrap(), 0xac7e4d30_951f268b);
}

#[test]
fn mutex_try_lock_contention() {
    let mut m = CoreMutex::new_unhooked(7u64);
    let guard = m.try_lock().ok().unwrap();
    assert!(matches!(m.try_lock(), Err(TryLockError::WouldBlock)));
    assert!(matches!(m.try_lock(), Err(TryLockError::WouldBlock)));
    m.unlock(guard);
    let guard = m.try_lock().ok().unwrap();
    assert_eq!(*guard.get(), 7);
    m.unlock(guard);
}

#[test]
fn mutex_poison_on_unwinding_release() {
    let mut m = CoreMutex::new_unhooked(1u64);
    assert!(!m.is_poisoned());

    let guard = m.try_lock().ok().unwrap();
    m.unlock_with(guard, true);
    assert!(m.is_poisoned());

    // A poisoned lock still hands the data out, wrapped in the error.
    let guard = match m.try_lock() {
        Err(TryLockError::Poisoned(poison)) => poison.into_inner(),
        _ => panic!("expected a poisoned acquisition"),
    };
    assert_eq!(*guard.get(), 1);
    // A normal release does not change the poison state.
    m.unlock_with(guard, false);
    assert!(m.is_poisoned());

    m.clear_poison();
    assert!(!m.is_poisoned());
    let guard = m.try_lock().ok().unwrap();
    m.unlock(guard);
    assert!(!m.is_poisoned());
}

#[test]
fn mutex_get_mut() {
    let mut m = CoreMutex::new_unhooked(10u32);
    *m.get_mut() += 5;
    assert_eq!(m.into_inner().ok().unwrap(), 15);
}

#[test]
fn mutex_load_test() {
    const ACTORS: u64 = 8;
    const REPS: u64 = 1024;
    let initial = 0x0123_4567_89ab_cdefu64;
    let mut m = CoreMutex::new_unhooked(initial);

    // Two identical passes of XOR streams cancel each other out.
    for _pass in 0..2 {
        for actor in 0..ACTORS {
            let mut x = actor.wrapping_mul(0x9e37_79b9_7f4a_7c15).wrapping_add(1);
            for _rep in 0..REPS {
                x = x.wrapping_mul(6364136223846793005).wrapping_add(1442695040888963407);
                let mut guard = m.lock().ok().unwrap();
                let v = *guard.get();
                guard.set(v ^ x);
                m.unlock(guard);
            }
        }
    }
    assert_eq!(m.into_inner().ok().unwrap(), initial);
}

#[test]
fn mutex_poisoning_load_test() {
    const REPS: u64 = 256;
    const POISON_EVERY: u64 = 32;
    let mut m = CoreMutex::new_unhooked(0u64);
    let mut poisonings: u64 = 0;

    for rep in 1..=REPS {
        let unwinding = rep % POISON_EVERY == 0;
        let guard = match m.try_lock() {
            Ok(guard) => guard,
            Err(TryLockError::Poisoned(poison)) => poison.into_inner(),
            Err(TryLockError::WouldBlock) => panic!("the lock must be free"),
        };
        m.unlock_with(guard, unwinding);
        if unwinding {
            poisonings += 1;
            assert!(m.is_poisoned());
            m.clear_poison();
        }
        assert!(!m.is_poisoned());
    }
    assert_eq!(poisonings, REPS / POISON_EVERY);
}

fn require_send<T: Send>() {}

fn require_sync<T: Sync>() {}

#[test]
fn mutex_types_are_send_and_sync() {
    require_send::<CoreMutex<u64>>();
    require_sync::<CoreMutex<u64>>();
    require_send::<powerlocks::mutex::BaseMutexGuard<u64>>();
    require_sync::<powerlocks::mutex::BaseMutexGuard<u64>>();
    require_send::<powerlocks::rwlock::BaseRwLock<u64, (), CoreThreadEnv>>();
    require_sync::<powerlocks::rwlock::BaseRwLock<u64, (), CoreThreadEnv>>();
}
