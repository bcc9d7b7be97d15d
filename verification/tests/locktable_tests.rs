use std::collections::HashMap;

use lock_manager::locktable::SimpleLockTable;
use lock_manager::rwlatch::RwLatch;

fn shared_count(table: &SimpleLockTable, key: &[u8]) -> usize {
    match table.latch(key) {
        Some(latch) => latch.shared_count(),
        None => 0,
    }
}

fn exclusive_held(table: &SimpleLockTable, key: &[u8]) -> bool {
    match table.latch(key) {
        Some(latch) => latch.exclusive_held(),
        None => false,
    }
}

#[test]
fn test_shared_locks() {
    let mut lock_table = SimpleLockTable::new();
    let num_threads: usize = 10;
    let key = b"test_key".to_vec();

    for _ in 0..num_threads {
        assert!(lock_table.try_shared(key.clone()));
    }
    assert_eq!(shared_count(&lock_table, &key), 10);

    for _ in 0..num_threads {
        lock_table.release_shared(key.clone());
    }
    assert!(lock_table.check_all_released());
}

#[test]
fn test_exclusive_lock() {
    let mut lock_table = SimpleLockTable::new();
    let key = b"test_key".to_vec();
    let key1 = key.clone();
    let key2 = key.clone();

    assert!(lock_table.try_exclusive(key1.clone()));

    assert!(!lock_table.try_shared(key2.clone()));
    assert!(!lock_table.try_exclusive(key2.clone()));

    lock_table.release_exclusive(key1.clone());

    assert!(lock_table.try_shared(key2.clone()));
    lock_table.release_shared(key2.clone());
    assert!(lock_table.check_all_released());
}

#[test]
fn test_shared_then_exclusive() {
    let mut lock_table = SimpleLockTable::new();
    let key = b"test_key".to_vec();
    let num_shared_threads: usize = 5;
    let key_exclusive = key.clone();

    for _ in 0..num_shared_threads {
        assert!(lock_table.try_shared(key.clone()));
    }

    assert!(!lock_table.try_exclusive(key_exclusive.clone()));

    for _ in 0..num_shared_threads {
        lock_table.release_shared(key.clone());
    }

    assert!(lock_table.try_exclusive(key_exclusive.clone()));
    lock_table.release_exclusive(key_exclusive.clone());
    assert!(lock_table.check_all_released());
}

#[test]
fn test_try_upgrade() {
    let mut lock_table = SimpleLockTable::new();
    let key = b"test_key".to_vec();
    let key_shared = key.clone();
    let key_upgrade = key.clone();

    assert!(lock_table.try_shared(key_shared.clone()));
    assert!(lock_table.try_shared(key_upgrade.clone()));

    assert!(!lock_table.try_upgrade(key_upgrade.clone()));
    assert_eq!(shared_count(&lock_table, &key), 2);

    lock_table.release_shared(key_shared.clone());

    assert!(lock_table.try_upgrade(key_upgrade.clone()));
    assert!(exclusive_held(&lock_table, &key));
    assert_eq!(shared_count(&lock_table, &key), 0);
    lock_table.release_exclusive(key_upgrade.clone());
    assert!(lock_table.check_all_released());
}

#[test]
fn test_lock_cleanup() {
    let mut lock_table = SimpleLockTable::new();
    let key = b"test_key".to_vec();

    assert!(lock_table.try_shared(key.clone()));
    lock_table.release_shared(key.clone());

    assert!(lock_table.try_shared(key.clone()));
    lock_table.release_shared(key.clone());
}

fn next_random(seed: &mut u64) -> usize {
    *seed = seed
        .wrapping_mul(6364136223846793005)
        .wrapping_add(1442695040888963407);
    (*seed >> 33) as usize
}

#[test]
fn stress_test_lock_table_with_state() {
    let mut lock_table = SimpleLockTable::new();
    let num_threads: usize = 100;
    let keys: Vec<Vec<u8>> = (0..10).map(|i| format!("key_{}", i).into_bytes()).collect();

    let mut held_shared_locks: Vec<HashMap<Vec<u8>, usize>> = Vec::new();
    let mut held_exclusive_locks: Vec<HashMap<Vec<u8>, bool>> = Vec::new();
    for _ in 0..num_threads {
        held_shared_locks.push(HashMap::new());
        held_exclusive_locks.push(HashMap::new());
    }

    let mut seed: u64 = 0x5eed;
    for _ in 0..100 {
        for thread in 0..num_threads {
            let key = keys[next_random(&mut seed) % keys.len()].clone();
            let op = next_random(&mut seed) % 5;
            match op {
                0 => {
                    if lock_table.try_shared(key.clone()) {
                        *held_shared_locks[thread].entry(key.clone()).or_insert(0) += 1;
                    }
                }
                1 => {
                    if lock_table.try_exclusive(key.clone()) {
                        held_exclusive_locks[thread].insert(key.clone(), true);
                    }
                }
                2 => {
                    if let Some(count) = held_shared_locks[thread].remove(&key) {
                        lock_table.release_shared(key.clone());
                        if count > 1 {
                            held_shared_locks[thread].insert(key.clone(), count - 1);
                        }
                    }
                }
                3 => {
                    if held_exclusive_locks[thread].remove(&key).is_some() {
                        lock_table.release_exclusive(key.clone());
                    }
                }
                4 => {
                    if held_shared_locks[thread].get(&key) == Some(&1) {
                        if lock_table.try_upgrade(key.clone()) {
                            held_shared_locks[thread].remove(&key);
                            held_exclusive_locks[thread].insert(key.clone(), true);
                        }
                    }
                }
                _ => {}
            }

            let mut readers: usize = 0;
            let mut writers: usize = 0;
            for other in 0..num_threads {
                readers += held_shared_locks[other].get(&key).copied().unwrap_or(0);
                if held_exclusive_locks[other].contains_key(&key) {
                    writers += 1;
                }
            }
            assert_eq!(shared_count(&lock_table, &key), readers);
            assert_eq!(exclusive_held(&lock_table, &key), writers == 1);
            assert!(writers <= 1);
            assert!(!(writers == 1 && readers > 0));
            assert_eq!(lock_table.latch(&key).is_some(), readers + writers > 0);
        }
    }

    for thread in 0..num_threads {
        for (key, count) in held_shared_locks[thread].iter() {
            for _ in 0..*count {
                lock_table.release_shared(key.clone());
            }
        }
        for key in held_exclusive_locks[thread].keys() {
            lock_table.release_exclusive(key.clone());
        }
    }
    assert!(lock_table.check_all_released());
    assert!(lock_table.snapshot().is_empty());
}

#[test]
fn test_display() {
    let mut lock_table = SimpleLockTable::new();
    let key1 = b"key1".to_vec();
    let key2 = b"key2".to_vec();

    lock_table.try_shared(key1.clone());
    lock_table.try_exclusive(key2.clone());
    lock_table.try_shared(key1.clone());

    let mut display = String::new();
    for (key, latch) in lock_table.snapshot() {
        display.push_str(&format!(
            "Key: {}, Latch: {:?}\n",
            String::from_utf8_lossy(&key),
            latch
        ));
    }
    println!("{}", display);

    assert_eq!(display.lines().count(), 2);
    assert!(display.contains("Key: key1, Latch: "));
    assert!(display.contains("Key: key2, Latch: "));
}

#[test]
fn new_table_holds_nothing() {
    let lock_table = SimpleLockTable::new();
    assert!(lock_table.check_all_released());
    assert!(lock_table.snapshot().is_empty());
    assert_eq!(lock_table.latch(b"test_key"), None);
}

#[test]
fn first_holder_makes_the_entry() {
    let mut lock_table = SimpleLockTable::new();
    let key = b"row:17".to_vec();

    assert!(lock_table.try_shared(key.clone()));
    assert!(!lock_table.check_all_released());
    let latch = lock_table.latch(&key).unwrap();
    assert_eq!(latch.shared_count(), 1);
    assert!(!latch.exclusive_held());

    let mut other = SimpleLockTable::new();
    assert!(other.try_exclusive(key.clone()));
    assert!(!other.check_all_released());
    let latch = other.latch(&key).unwrap();
    assert_eq!(latch.shared_count(), 0);
    assert!(latch.exclusive_held());
}

#[test]
fn shared_holders_are_counted() {
    let mut lock_table = SimpleLockTable::new();
    let key = b"page".to_vec();
    for holders in 1..=25usize {
        assert!(lock_table.try_shared(key.clone()));
        assert_eq!(shared_count(&lock_table, &key), holders);
    }
    for holders in (0..25usize).rev() {
        lock_table.release_shared(key.clone());
        assert_eq!(shared_count(&lock_table, &key), holders);
        assert_eq!(lock_table.latch(&key).is_some(), holders > 0);
    }
    assert!(lock_table.check_all_released());
}

#[test]
fn exclusive_hold_refuses_everyone_until_released() {
    let mut lock_table = SimpleLockTable::new();
    let key = b"test_key".to_vec();
    assert!(lock_table.try_exclusive(key.clone()));
    for _ in 0..20 {
        assert!(!lock_table.try_shared(key.clone()));
        assert!(!lock_table.try_exclusive(key.clone()));
        assert!(!lock_table.try_upgrade(key.clone()));
        assert!(exclusive_held(&lock_table, &key));
        assert_eq!(shared_count(&lock_table, &key), 0);
    }
    lock_table.release_exclusive(key.clone());
    assert_eq!(lock_table.latch(&key), None);
    assert!(lock_table.try_exclusive(key.clone()));
}

#[test]
fn upgrade_of_a_key_that_is_not_locked_is_refused() {
    let mut lock_table = SimpleLockTable::new();
    let key = b"absent".to_vec();
    assert!(!lock_table.try_upgrade(key.clone()));
    assert!(lock_table.check_all_released());
    assert_eq!(lock_table.latch(&key), None);
}

#[test]
fn upgrade_needs_the_only_shared_hold() {
    let mut lock_table = SimpleLockTable::new();
    let key = b"k".to_vec();
    assert!(lock_table.try_shared(key.clone()));
    assert!(lock_table.try_shared(key.clone()));
    assert!(lock_table.try_shared(key.clone()));
    assert!(!lock_table.try_upgrade(key.clone()));
    lock_table.release_shared(key.clone());
    assert!(!lock_table.try_upgrade(key.clone()));
    lock_table.release_shared(key.clone());
    assert!(lock_table.try_upgrade(key.clone()));
    assert!(!lock_table.try_upgrade(key.clone()));
    assert!(exclusive_held(&lock_table, &key));
}

#[test]
fn downgrade_then_second_reader() {
    let mut lock_table = SimpleLockTable::new();
    let key = b"test_key".to_vec();
    assert!(lock_table.try_exclusive(key.clone()));
    lock_table.downgrade(&key);
    assert!(!exclusive_held(&lock_table, &key));
    assert_eq!(shared_count(&lock_table, &key), 1);

    assert!(lock_table.try_shared(key.clone()));
    assert_eq!(shared_count(&lock_table, &key), 2);
    assert!(!lock_table.try_exclusive(key.clone()));

    lock_table.release_shared(key.clone());
    lock_table.release_shared(key.clone());
    assert!(lock_table.check_all_released());
}

#[test]
fn released_key_is_as_new() {
    let mut lock_table = SimpleLockTable::new();
    let key = b"test_key".to_vec();

    assert!(lock_table.try_shared(key.clone()));
    assert!(lock_table.try_shared(key.clone()));
    lock_table.release_shared(key.clone());
    assert!(lock_table.try_upgrade(key.clone()));
    lock_table.downgrade(&key);
    lock_table.release_shared(key.clone());
    assert!(lock_table.check_all_released());
    assert_eq!(lock_table.latch(&key), None);

    let mut first = SimpleLockTable::new();
    assert!(first.try_exclusive(key.clone()));
    assert!(lock_table.try_exclusive(key.clone()));
    assert_eq!(lock_table.latch(&key), first.latch(&key));
    assert_eq!(lock_table.snapshot(), first.snapshot());

    lock_table.release_exclusive(key.clone());
    let mut again = SimpleLockTable::new();
    assert!(again.try_shared(key.clone()));
    assert!(lock_table.try_shared(key.clone()));
    assert_eq!(lock_table.latch(&key), again.latch(&key));
    assert_eq!(shared_count(&lock_table, &key), 1);
}

#[test]
fn round_trips_leave_the_table_empty() {
    let mut lock_table = SimpleLockTable::new();
    let key = b"k".to_vec();
    for _ in 0..200 {
        assert!(lock_table.try_shared(key.clone()));
        assert_eq!(shared_count(&lock_table, &key), 1);
        assert!(!lock_table.check_all_released());
        lock_table.release_shared(key.clone());
        assert!(lock_table.check_all_released());
        assert_eq!(lock_table.latch(&key), None);
        assert!(lock_table.snapshot().is_empty());
    }
}

#[test]
fn keys_do_not_touch_each_other() {
    let mut lock_table = SimpleLockTable::new();
    let empty: Vec<u8> = Vec::new();
    let short = vec![0u8];
    let long = vec![0u8, 0u8];
    let binary = vec![0xffu8, 0x00, 0x80, 0x7f];

    assert!(lock_table.try_exclusive(empty.clone()));
    assert!(lock_table.try_shared(short.clone()));
    assert!(lock_table.try_shared(short.clone()));
    assert!(lock_table.try_exclusive(long.clone()));
    assert!(lock_table.try_shared(binary.clone()));

    assert!(exclusive_held(&lock_table, &empty));
    assert_eq!(shared_count(&lock_table, &short), 2);
    assert!(exclusive_held(&lock_table, &long));
    assert_eq!(shared_count(&lock_table, &binary), 1);
    assert_eq!(lock_table.snapshot().len(), 4);

    lock_table.release_exclusive(long.clone());
    assert_eq!(lock_table.latch(&long), None);
    assert!(exclusive_held(&lock_table, &empty));
    assert_eq!(shared_count(&lock_table, &short), 2);
    assert_eq!(shared_count(&lock_table, &binary), 1);

    lock_table.release_shared(short.clone());
    lock_table.release_shared(short.clone());
    lock_table.release_shared(binary.clone());
    assert!(!lock_table.check_all_released());
    lock_table.release_exclusive(empty.clone());
    assert!(lock_table.check_all_released());
}

#[test]
fn snapshot_lists_each_locked_key_once() {
    let mut lock_table = SimpleLockTable::new();
    let mut expected: HashMap<Vec<u8>, (usize, bool)> = HashMap::new();
    for i in 0..40usize {
        let key = format!("key_{}", i).into_bytes();
        if i % 3 == 0 {
            assert!(lock_table.try_exclusive(key.clone()));
            expected.insert(key, (0, true));
        } else {
            for _ in 0..(i % 3 + 1) {
                assert!(lock_table.try_shared(key.clone()));
            }
            expected.insert(key, (i % 3 + 1, false));
        }
    }

    let list: Vec<(Vec<u8>, RwLatch)> = lock_table.snapshot();
    assert_eq!(list.len(), 40);
    let mut seen: HashMap<Vec<u8>, (usize, bool)> = HashMap::new();
    for (key, latch) in list {
        assert_eq!(lock_table.latch(&key), Some(latch));
        assert!(seen
            .insert(key, (latch.shared_count(), latch.exclusive_held()))
            .is_none());
    }
    assert_eq!(seen, expected);
}

#[test]
fn calls_on_different_keys_commute() {
    let first = b"first".to_vec();
    let second = b"second".to_vec();

    let mut one_way = SimpleLockTable::new();
    assert!(one_way.try_shared(first.clone()));
    assert!(one_way.try_exclusive(second.clone()));
    assert!(one_way.try_upgrade(first.clone()));
    assert!(!one_way.try_shared(second.clone()));

    let mut other_way = SimpleLockTable::new();
    assert!(other_way.try_exclusive(second.clone()));
    assert!(!other_way.try_shared(second.clone()));
    assert!(other_way.try_shared(first.clone()));
    assert!(other_way.try_upgrade(first.clone()));

    assert_eq!(one_way.latch(&first), other_way.latch(&first));
    assert_eq!(one_way.latch(&second), other_way.latch(&second));
    assert_eq!(one_way.snapshot().len(), 2);
    assert_eq!(other_way.snapshot().len(), 2);
}
