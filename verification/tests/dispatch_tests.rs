use flapit_server::codec::Message;
use flapit_server::dispatch::{dispatch_complete, dispatch_lookup, DispatchOutcome};
use flapit_server::registry::Registry;

#[test]
fn dispatch_to_unregistered_is_not_found() {
    let r: Registry<u32> = Registry::new();
    // No transport handle comes back, so the caller performs no I/O.
    assert!(dispatch_lookup(&r, &"D1".to_string(), "hi".to_string()).is_none());
}

#[test]
fn dispatch_lookup_encodes_set_counter_value() {
    let mut r: Registry<u32> = Registry::new();
    r.register("D1".to_string(), 7);
    let (t, bytes) = dispatch_lookup(&r, &"D1".to_string(), "BLAST HI".to_string()).unwrap();
    assert_eq!(*t, 7);
    assert_eq!(bytes, Message::SetCounterValue("BLAST HI".to_string()).encode());
}

#[test]
fn failed_write_removes_device() {
    let mut r: Registry<u32> = Registry::new();
    r.register("D1".to_string(), 7);
    let out = dispatch_complete(&mut r, &"D1".to_string(), false);
    assert_eq!(out, DispatchOutcome::DeliveryFailed);
    assert!(r.lookup(&"D1".to_string()).is_none());
}

#[test]
fn successful_write_keeps_device() {
    let mut r: Registry<u32> = Registry::new();
    r.register("D1".to_string(), 7);
    let out = dispatch_complete(&mut r, &"D1".to_string(), true);
    assert_eq!(out, DispatchOutcome::Delivered);
    assert_eq!(r.lookup(&"D1".to_string()), Some(&7));
}
