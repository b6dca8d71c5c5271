use chat_server::registry::{JoinError, Registry};

#[test]
fn join_registers_name() {
    let mut r = Registry::new(4);
    assert_eq!(r.try_join(b"alice\n", 1), Ok(b"alice".to_vec()));
    assert_eq!(r.len(), 1);
    assert!(r.contains(b"alice"));
    assert!(!r.contains(b"bob"));
    assert_eq!(r.sinks(), vec![1]);
}

#[test]
fn duplicate_name_is_taken() {
    let mut r = Registry::new(4);
    assert_eq!(r.try_join(b"bob\n", 1), Ok(b"bob".to_vec()));
    assert_eq!(r.try_join(b"  bob \n", 2), Err(JoinError::Taken));
    assert_eq!(r.len(), 1);
    assert_eq!(r.sinks(), vec![1]);
}

#[test]
fn name_is_free_again_after_leave() {
    let mut r = Registry::new(4);
    assert_eq!(r.try_join(b"bob\n", 1), Ok(b"bob".to_vec()));
    assert_eq!(r.try_join(b"bob\n", 2), Err(JoinError::Taken));
    r.unregister(b"bob");
    assert!(!r.contains(b"bob"));
    assert_eq!(r.try_join(b"bob\n", 2), Ok(b"bob".to_vec()));
    assert_eq!(r.sinks(), vec![2]);
}

#[test]
fn full_registry_refuses() {
    let mut r = Registry::new(2);
    assert!(r.has_capacity());
    assert_eq!(r.try_join(b"a\n", 1), Ok(b"a".to_vec()));
    assert_eq!(r.try_join(b"b\n", 2), Ok(b"b".to_vec()));
    assert!(!r.has_capacity());
    assert_eq!(r.try_join(b"c\n", 3), Err(JoinError::Full));
    assert_eq!(r.len(), 2);
    assert_eq!(r.capacity(), 2);
}

#[test]
fn taken_is_reported_before_full() {
    let mut r = Registry::new(1);
    assert_eq!(r.try_join(b"a\n", 1), Ok(b"a".to_vec()));
    assert_eq!(r.try_join(b"a\n", 2), Err(JoinError::Taken));
    assert_eq!(r.try_join(b"b\n", 2), Err(JoinError::Full));
}

#[test]
fn zero_capacity_refuses_everyone() {
    let mut r = Registry::new(0);
    assert!(!r.has_capacity());
    assert_eq!(r.try_join(b"a\n", 1), Err(JoinError::Full));
}

#[test]
fn leave_of_absent_name_changes_nothing() {
    let mut r = Registry::new(3);
    assert_eq!(r.try_join(b"a\n", 1), Ok(b"a".to_vec()));
    r.unregister(b"zed");
    assert_eq!(r.len(), 1);
    r.unregister(b"a");
    r.unregister(b"a");
    assert_eq!(r.len(), 0);
}

#[test]
fn leave_keeps_order_of_the_others() {
    let mut r = Registry::new(4);
    for (i, n) in [b"a\n", b"b\n", b"c\n"].iter().enumerate() {
        assert!(r.try_join(*n, i as u64 + 10).is_ok());
    }
    r.unregister(b"b");
    assert_eq!(r.sinks(), vec![10, 12]);
}

#[test]
fn empty_line_joins_as_default() {
    let mut r = Registry::new(4);
    assert_eq!(r.try_join(b"\n", 1), Ok(b"Default_Username".to_vec()));
    assert_eq!(r.try_join(b" \r\n", 2), Err(JoinError::Taken));
    assert_eq!(r.try_join(b"carol\n", 2), Ok(b"carol".to_vec()));
}

#[test]
fn registry_never_exceeds_capacity_nor_duplicates() {
    let mut r = Registry::new(3);
    let lines: [&[u8]; 8] = [b"a\n", b"b\n", b"a\n", b"\n", b"c\n", b"d\n", b"\n", b"b\n"];
    for (i, l) in lines.iter().enumerate() {
        let _ = r.try_join(l, i as u64);
        assert!(r.len() <= 3);
    }
    assert_eq!(r.len(), 3);
    assert_eq!(r.sinks(), vec![0, 1, 3]);
    r.unregister(b"a");
    assert_eq!(r.try_join(b"d\n", 9), Ok(b"d".to_vec()));
    assert_eq!(r.try_join(b"d\n", 10), Err(JoinError::Taken));
}
