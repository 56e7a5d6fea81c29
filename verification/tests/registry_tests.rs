use flapit_server::registry::Registry;

#[test]
fn register_then_lookup() {
    let mut r: Registry<u32> = Registry::new();
    assert!(r.can_register());
    let e = r.register("D1".to_string(), 7);
    assert_eq!(r.lookup(&"D1".to_string()), Some(&7));
    assert!(r.lookup(&"D2".to_string()).is_none());
    let e2 = r.register("D2".to_string(), 8);
    assert!(e2 > e);
    assert_eq!(r.lookup(&"D1".to_string()), Some(&7));
    assert_eq!(r.lookup(&"D2".to_string()), Some(&8));
}

#[test]
fn reregister_replaces() {
    let mut r: Registry<u32> = Registry::new();
    r.register("D1".to_string(), 7);
    r.register("D1".to_string(), 9);
    assert_eq!(r.lookup(&"D1".to_string()), Some(&9));
}

#[test]
fn stale_deregister_keeps_newer_session() {
    // Session A registers, session B supersedes it, then A's teardown runs
    // with its stale epoch: B must stay registered.
    let mut r: Registry<u32> = Registry::new();
    let e1 = r.register("D1".to_string(), 1);
    let e2 = r.register("D1".to_string(), 2);
    assert!(e1 < e2);
    assert!(!r.deregister_if_unchanged(&"D1".to_string(), e1));
    assert_eq!(r.lookup(&"D1".to_string()), Some(&2));
    assert!(r.deregister_if_unchanged(&"D1".to_string(), e2));
    assert!(r.lookup(&"D1".to_string()).is_none());
}

#[test]
fn deregister_absent_is_noop() {
    let mut r: Registry<u32> = Registry::new();
    assert!(!r.deregister_if_unchanged(&"D1".to_string(), 1));
}

#[test]
fn unconditional_remove() {
    let mut r: Registry<u32> = Registry::new();
    r.register("D1".to_string(), 7);
    assert!(r.remove(&"D1".to_string()));
    assert!(r.lookup(&"D1".to_string()).is_none());
    assert!(!r.remove(&"D1".to_string()));
}
