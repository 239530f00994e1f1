//! Fan-out of one envelope to the members of a room.

use crate::envelope::Envelope;
use crate::handle::{ids_of, ConnectionHandle};
use crate::membership::members_of;
use crate::registry::RoomRegistry;
use crate::wire::{encode, wire_text};
use vstd::prelude::*;

verus! {

/// What became of one delivery attempt.
#[derive(Clone, Copy, Debug, PartialEq, Eq)]
pub struct Delivery {
    /// The member the frame was offered to.
    pub recipient: u64,
    /// Whether the member's channel took the frame.
    pub accepted: bool,
}

/// The members that a sequence of delivery attempts addressed, in order.
pub open spec fn recipients_of(deliveries: Seq<Delivery>) -> Seq<u64> {
    deliveries.map_values(|d: Delivery| d.recipient)
}

/// The record of one broadcast: the frame, and one attempt per recipient.
#[derive(Debug)]
pub struct BroadcastReport {
    pub frame: String,
    pub deliveries: Vec<Delivery>,
}

/// A broadcast that is ready to go out: the frame, serialized once, and a
/// snapshot of the members it is addressed to.
pub struct Outbound {
    recipients: Vec<ConnectionHandle>,
    frame: String,
}

impl Outbound {
    /// The identities of the members this broadcast is addressed to.
    pub closed spec fn recipients(&self) -> Seq<u64> {
        ids_of(self.recipients@)
    }

    /// The frame this broadcast carries.
    pub closed spec fn frame(&self) -> Seq<char> {
        self.frame@
    }

    /// Offers the frame to every recipient in turn, once each. A recipient
    /// that refuses it is noted and does not keep the others from theirs.
    pub fn deliver(&self) -> (report: BroadcastReport)
        ensures
            report.frame@ == self.frame(),
            recipients_of(report.deliveries@) == self.recipients(),
    {
        let mut deliveries: Vec<Delivery> = Vec::new();
        let mut i: usize = 0;
        while i < self.recipients.len()
            invariant
                i <= self.recipients@.len(),
                deliveries@.len() == i,
                forall|j: int|
                    0 <= j < i ==> (#[trigger] deliveries@[j]).recipient == self.recipients@[j]@,
            decreases self.recipients@.len() - i,
        {
            let member = &self.recipients[i];
            let accepted = member.offer(self.frame.clone());
            deliveries.push(Delivery { recipient: member.id(), accepted });
            i += 1;
        }
        assert(recipients_of(deliveries@) =~= ids_of(self.recipients@));
        BroadcastReport { frame: self.frame.clone(), deliveries }
    }
}

/// Serializes `envelope` once and addresses it to the members that `room`
/// has at this moment. Taking the snapshot is all that needs the registry:
/// the delivery itself can happen after the registry has been let go.
pub fn prepare(registry: &RoomRegistry, room: &str, envelope: &Envelope) -> (outbound: Outbound)
    ensures
        outbound.recipients() == members_of(registry@, room@),
        outbound.frame() == wire_text(envelope@),
{
    Outbound { recipients: registry.members(room), frame: encode(envelope) }
}

/// Delivers `envelope` to every member that `room` has at call time, and to
/// nobody else.
pub fn broadcast_to_room(registry: &RoomRegistry, room: &str, envelope: &Envelope) -> (report:
    BroadcastReport)
    ensures
        report.frame@ == wire_text(envelope@),
        recipients_of(report.deliveries@) == members_of(registry@, room@),
{
    prepare(registry, room, envelope).deliver()
}

} // verus!
