//! The outbound delivery path of one connection.

use tokio::sync::mpsc::UnboundedSender;
use vstd::prelude::*;

verus! {

/// The sending half of tokio's unbounded channel, carried through opaquely.
#[verifier::external_type_specification]
#[verifier::external_body]
#[verifier::reject_recursive_types(T)]
pub struct ExUnboundedSender<T>(UnboundedSender<T>);

/// Calls `UnboundedSender::send`, which queues the frame without blocking and
/// fails only when the receiving half is closed or gone. Whether the frame was
/// accepted depends on the other end of the channel, so nothing is claimed of
/// the answer.
#[verifier::external_body]
fn channel_send(tx: &UnboundedSender<String>, frame: String) -> (accepted: bool) {
    tx.send(frame).is_ok()
}

/// Calls `UnboundedSender::clone`, which hands out another sender of the same
/// channel. The sender is opaque, so nothing is claimed of the copy.
#[verifier::external_body]
fn channel_clone(tx: &UnboundedSender<String>) -> (copy: UnboundedSender<String>) {
    tx.clone()
}

/// One live outbound delivery path, told apart from every other by its id.
pub struct ConnectionHandle {
    id: u64,
    tx: UnboundedSender<String>,
}

impl View for ConnectionHandle {
    type V = u64;

    /// A handle is its identity; the channel behind it is opaque.
    closed spec fn view(&self) -> u64 {
        self.id
    }
}

/// The identities of a sequence of handles, in order.
pub open spec fn ids_of(handles: Seq<ConnectionHandle>) -> Seq<u64> {
    handles.map_values(|h: ConnectionHandle| h@)
}

impl ConnectionHandle {
    /// Pairs a channel with the identity under which it is registered.
    pub(crate) fn new(id: u64, tx: UnboundedSender<String>) -> (handle: ConnectionHandle)
        ensures
            handle@ == id,
    {
        ConnectionHandle { id, tx }
    }

    /// The identity of this handle.
    pub fn id(&self) -> (id: u64)
        ensures
            id == self@,
    {
        self.id
    }

    /// Another handle to the same delivery path, under the same identity.
    pub fn duplicate(&self) -> (copy: ConnectionHandle)
        ensures
            copy@ == self@,
    {
        ConnectionHandle { id: self.id, tx: channel_clone(&self.tx) }
    }

    /// Offers `frame` to the connection and reports whether its channel took
    /// it. A refusal concerns this connection alone.
    pub(crate) fn offer(&self, frame: String) -> (accepted: bool) {
        channel_send(&self.tx, frame)
    }
}

} // verus!
