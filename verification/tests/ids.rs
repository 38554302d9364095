use opal_wm::ids::{WindowIds, MAX_WINDOW_ID};

#[test]
fn ids_come_lowest_first() {
    let mut pool = WindowIds::new();
    assert!(!pool.contains(0));
    assert_eq!(pool.add_id(), Some(0));
    assert_eq!(pool.add_id(), Some(1));
    assert_eq!(pool.add_id(), Some(2));
    assert!(pool.contains(0) && pool.contains(1) && pool.contains(2));
    assert!(!pool.contains(3));
}

#[test]
fn ids_are_distinct_until_the_pool_is_exhausted() {
    let mut pool = WindowIds::new();
    let mut seen = vec![false; MAX_WINDOW_ID];
    for _ in 0..MAX_WINDOW_ID {
        let id = pool.add_id().unwrap() as usize;
        assert!(id < MAX_WINDOW_ID);
        assert!(!seen[id]);
        seen[id] = true;
    }
    assert!(seen.iter().all(|s| *s));
    assert_eq!(pool.add_id(), None);
    assert_eq!(pool.add_id(), None);
    assert!(pool.contains(1023));
    assert!(!pool.contains(1024));
}

#[test]
fn a_freed_id_is_given_out_again() {
    let mut pool = WindowIds::new();
    for _ in 0..300 {
        pool.add_id();
    }
    assert!(pool.remove_id(130));
    assert!(!pool.contains(130));
    assert!(pool.contains(129) && pool.contains(131));
    assert!(!pool.remove_id(130));
    assert_eq!(pool.add_id(), Some(130));
    assert_eq!(pool.add_id(), Some(300));
    assert!(pool.remove_id(17));
    assert!(pool.remove_id(5));
    assert_eq!(pool.add_id(), Some(5));
    assert_eq!(pool.add_id(), Some(17));
}

#[test]
fn removing_unknown_ids_fails() {
    let mut pool = WindowIds::new();
    assert!(!pool.remove_id(0));
    assert!(!pool.remove_id(1024));
    assert!(!pool.remove_id(u16::MAX));
    pool.add_id();
    assert!(!pool.remove_id(16));
    assert!(!pool.remove_id(128));
    assert!(pool.remove_id(0));
    assert_eq!(pool.add_id(), Some(0));
}

#[test]
fn exhausted_pool_recovers_after_a_removal() {
    let mut pool = WindowIds::new();
    for _ in 0..MAX_WINDOW_ID {
        pool.add_id();
    }
    assert!(pool.remove_id(1023));
    assert!(pool.remove_id(127));
    assert!(pool.remove_id(128));
    assert_eq!(pool.add_id(), Some(127));
    assert_eq!(pool.add_id(), Some(128));
    assert_eq!(pool.add_id(), Some(1023));
    assert_eq!(pool.add_id(), None);
}
