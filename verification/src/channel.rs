use vstd::prelude::*;
use warp::ws::Message as WsFrame;

verus! {

/// tokio's unbounded channel sender, the one handle broadcast code holds per
/// connected client; a value of it is opaque here and only carried through.
#[verifier::external_type_specification]
#[verifier::external_body]
#[verifier::reject_recursive_types(T)]
pub struct ExUnboundedSender<T>(tokio::sync::mpsc::UnboundedSender<T>);

/// warp's websocket frame type; values of it are built and consumed only
/// inside trusted wrappers and in the surrounding I/O layer.
#[verifier::external_type_specification]
#[verifier::external_body]
pub struct ExWsFrame(WsFrame);

/// Relies on tokio's `UnboundedSender::send` and warp's `Message::text`:
/// queues one text frame for the receiving task; a send on a closed channel
/// returns an error, which is dropped here on purpose (delivery is
/// best-effort, fire-and-forget per recipient), and `send` never blocks or
/// panics.
#[verifier::external_body]
pub(crate) fn send_text(s: &tokio::sync::mpsc::UnboundedSender<WsFrame>, text: &str) {
    let _ = s.send(WsFrame::text(text));
}

/// Relies on tokio's `Clone for UnboundedSender`: the clone is a handle to
/// the same channel, so it stands for the same sender value.
#[verifier::external_body]
pub(crate) fn clone_sender(
    s: &tokio::sync::mpsc::UnboundedSender<WsFrame>,
) -> (r: tokio::sync::mpsc::UnboundedSender<WsFrame>)
    ensures
        r == *s,
{
    s.clone()
}

} // verus!
