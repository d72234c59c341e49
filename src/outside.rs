//! What the relay takes on trust from tokio and serde_json.
use vstd::prelude::*;
use tokio::sync::mpsc::UnboundedSender;
use crate::envelope::WsMessage;
use crate::text::json_id_list;

verus! {

#[verifier::external_type_specification]
#[verifier::external_body]
#[verifier::reject_recursive_types(T)]
pub struct ExUnboundedSender<T>(UnboundedSender<T>);

/// Relies on tokio's `UnboundedSender::send`: it queues the message without
/// blocking, and fails only once the receiving half is gone. Whether it
/// fails depends on the other task, so nothing is promised of the result.
#[verifier::external_body]
pub(crate) fn enqueue(outbox: &UnboundedSender<WsMessage>, msg: WsMessage) -> (queued: bool) {
    outbox.send(msg).is_ok()
}

/// Relies on `serde_json::to_string` on a list of unsigned integers: it
/// writes the compact JSON array of their decimal forms, and cannot fail,
/// since writing into memory does not fail and an integer always serialises.
#[verifier::external_body]
pub(crate) fn ids_to_json(ids: &Vec<u64>) -> (r: String)
    ensures
        r@ == json_id_list(ids@),
{
    serde_json::to_string(ids).unwrap_or_default()
}

} // verus!
