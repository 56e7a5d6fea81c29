//! Dispatch bridge: deliver a text command to a registered device. The
//! lookup and the encoding are decided here; the host runtime performs the
//! actual write (never under the registry lock) and reports back, and the
//! bookkeeping after the write is decided here again.
use vstd::prelude::*;
use crate::codec::Message;
use crate::codec::MessageView;
use crate::codec::encode_spec;
use crate::registry::Registry;

verus! {

/// How a dispatch ended: delivered, no such device, or the device was
/// registered but the write to it failed (and it was removed).
#[derive(Debug, PartialEq, Eq, Structural, Clone, Copy)]
pub enum DispatchOutcome {
    Delivered,
    NotFound,
    DeliveryFailed,
}

/// Look `id` up and encode `text` as a `SetCounterValue` frame. `None`
/// exactly when the device is not registered — the caller then reports
/// `NotFound` and performs no transport I/O. Reads only; the registry is
/// not touched.
pub fn dispatch_lookup<'a, T>(reg: &'a Registry<T>, id: &String, text: String) -> (r: Option<
    (&'a T, Vec<u8>),
>)
    requires
        reg.wf(),
    ensures
        r is Some <==> reg@.contains_key(id@),
        r is Some ==> *r.unwrap().0 == reg@[id@].1,
        r is Some ==> r.unwrap().1@ == encode_spec(MessageView::SetCounterValue(text@)),
{
    match reg.lookup(id) {
        None => None,
        Some(t) => {
            let msg = Message::SetCounterValue(text);
            let bytes = msg.encode();
            Some((t, bytes))
        },
    }
}

/// Record the outcome of the write: on success the registry is untouched
/// and the dispatch is `Delivered`; on failure the device is removed
/// (best-effort cleanup — treat it as disconnected) and the dispatch is
/// `DeliveryFailed`.
pub fn dispatch_complete<T>(reg: &mut Registry<T>, id: &String, delivered: bool) -> (r:
    DispatchOutcome)
    requires
        old(reg).wf(),
    ensures
        final(reg).wf(),
        delivered ==> r == DispatchOutcome::Delivered && final(reg)@ == old(reg)@,
        !delivered ==> r == DispatchOutcome::DeliveryFailed && final(reg)@ == old(reg)@.remove(id@)
            && !final(reg)@.contains_key(id@),
        final(reg).has_epoch_headroom() == old(reg).has_epoch_headroom(),
{
    if delivered {
        DispatchOutcome::Delivered
    } else {
        reg.remove(id);
        DispatchOutcome::DeliveryFailed
    }
}

} // verus!
