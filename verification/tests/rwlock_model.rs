use powerlocks::handle::CoreThreadEnv;
use powerlocks::poison::TryLockError;
use powerlocks::rwlock::BaseRwLock;

type CoreRwLock<T> = BaseRwLock<T, (), CoreThreadEnv>;

#[test]
fn rwlock_round_trip() {
    let l = CoreRwLock::new_unhooked(9i32);
    assert_eq!(l.into_inner().ok().unwrap(), 9);
}

#[test]
fn rwlock_read_concurrency() {
    let mut l = CoreRwLock::new_unhooked(7u32);
    let g1 = l.try_read().ok().unwrap();
    let g2 = l.try_read().ok().unwrap();
    let g3 = l.read().ok().unwrap();
    assert_eq!(*l.read_data(&g1), 7);
    assert_eq!(*l.read_data(&g2), 7);
    assert_eq!(*l.read_data(&g3), 7);
    // A writer cannot enter while readers are out.
    assert!(matches!(l.try_write(), Err(TryLockError::WouldBlock)));
    l.unlock_read(g1);
    l.unlock_read(g2);
    l.unlock_read(g3);
    let g = l.try_write().ok().unwrap();
    assert_eq!(*g.get(), 7);
    l.unlock_write(g);
}

#[test]
fn rwlock_writer_exclusivity() {
    let mut l = CoreRwLock::new_unhooked(1u64);
    let mut w = l.try_write().ok().unwrap();
    w.set(2);
    // Neither a reader nor a second writer can enter beside a writer.
    assert!(matches!(l.try_read(), Err(TryLockError::WouldBlock)));
    assert!(matches!(l.try_write(), Err(TryLockError::WouldBlock)));
    l.unlock_write(w);
    assert_eq!(l.into_inner().ok().unwrap(), 2);
}

#[test]
fn rwlock_no_poison_on_read() {
    let mut l = CoreRwLock::new_unhooked(0u8);
    let g = l.try_read().ok().unwrap();
    // A read release has no unwinding parameter at all: reads never poison.
    l.unlock_read(g);
    assert!(!l.is_poisoned());
}

#[test]
fn rwlock_poison_on_write() {
    let mut l = CoreRwLock::new_unhooked(0u8);
    let w = l.try_write().ok().unwrap();
    l.unlock_write_with(w, true);
    assert!(l.is_poisoned());

    // Poisoned acquisitions still hand out the lease, wrapped in the error.
    let r = match l.try_read() {
        Err(TryLockError::Poisoned(poison)) => poison.into_inner(),
        _ => panic!("expected a poisoned read"),
    };
    l.unlock_read(r);
    assert!(l.is_poisoned());

    let w = match l.try_write() {
        Err(TryLockError::Poisoned(poison)) => poison.into_inner(),
        _ => panic!("expected a poisoned write"),
    };
    l.unlock_write_with(w, false);
    assert!(l.is_poisoned());

    l.clear_poison();
    assert!(!l.is_poisoned());
    let r = l.try_read().ok().unwrap();
    l.unlock_read(r);
}

#[test]
fn rwlock_single_thread_vec() {
    let mut l = CoreRwLock::new_unhooked(vec![1, 2, 3, 4, 5]);
    let g = l.try_read().ok().unwrap();
    assert_eq!(l.read_data(&g).len(), 5);
    assert_eq!(l.read_data(&g)[0], 1);
    assert_eq!(l.read_data(&g)[4], 5);
    l.unlock_read(g);

    let mut w = l.try_write().ok().unwrap();
    w.data_mut().push(6);
    l.unlock_write(w);

    let v = l.into_inner().ok().unwrap();
    assert_eq!(v, vec![1, 2, 3, 4, 5, 6]);
}

#[test]
fn rwlock_get_mut() {
    let mut l = CoreRwLock::new_unhooked(3u64);
    *l.get_mut() *= 7;
    assert_eq!(l.into_inner().ok().unwrap(), 21);
}

#[test]
fn rwlock_load_test() {
    const ACTORS: u64 = 8;
    const REPS: u64 = 512;
    let mut l = CoreRwLock::new_unhooked(0u64);

    // Many reads, few writes; two identical write passes cancel out.
    for _pass in 0..2 {
        for actor in 0..ACTORS {
            let mut x = actor.wrapping_mul(0x9e37_79b9_7f4a_7c15).wrapping_add(1);
            for rep in 0..REPS {
                x = x.wrapping_mul(6364136223846793005).wrapping_add(1442695040888963407);
                if rep % 8 == 0 {
                    let mut w = l.write().ok().unwrap();
                    let v = *w.get();
                    w.set(v ^ x);
                    l.unlock_write(w);
                } else {
                    let r = l.read().ok().unwrap();
                    let _ = *l.read_data(&r);
                    l.unlock_read(r);
                }
            }
        }
    }
    assert_eq!(l.into_inner().ok().unwrap(), 0);
}
