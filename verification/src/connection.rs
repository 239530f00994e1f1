//! One connection, from its arrival to its departure.

use crate::ambient::{fresh_token, is_hyphenated_uuid, timestamp_now};
use crate::broadcast::{prepare, Outbound};
use crate::envelope::{
    chat_message_of, joined_notice_of, left_notice_of, user_id_from, user_id_of, Envelope,
    EnvelopeView,
};
use crate::lifecycle::{decide, initial_phase, is_member, transition, Action, Event, Phase};
use crate::membership::{
    consistent, joined, left, lemma_join_registers_once, lemma_leave_unregisters, members_of,
    registered, RoomMap,
};
use crate::registry::RoomRegistry;
use crate::wire::wire_text;
use tokio::sync::mpsc::UnboundedSender;
use vstd::prelude::*;

verus! {

/// What arrived from a connection's transport.
#[derive(Debug)]
pub enum Inbound {
    /// A text frame, with the text it holds.
    Text(String),
    /// Any other frame: binary, ping, pong.
    Other,
    /// Reading failed.
    Failed,
    /// The client closed the connection.
    Ended,
}

/// Mathematical value of an [`Inbound`].
pub enum InboundView {
    Text(Seq<char>),
    Other,
    Failed,
    Ended,
}

impl View for Inbound {
    type V = InboundView;

    open spec fn view(&self) -> InboundView {
        match self {
            Inbound::Text(text) => InboundView::Text(text@),
            Inbound::Other => InboundView::Other,
            Inbound::Failed => InboundView::Failed,
            Inbound::Ended => InboundView::Ended,
        }
    }
}

/// The event that an inbound item stands for.
pub open spec fn event_of(inbound: InboundView) -> Event {
    match inbound {
        InboundView::Text(_) => Event::Text,
        InboundView::Other => Event::Other,
        InboundView::Failed => Event::Failed,
        InboundView::Ended => Event::Ended,
    }
}

/// The text of an inbound item; empty for anything but a text frame.
pub open spec fn content_of(inbound: InboundView) -> Seq<char> {
    match inbound {
        InboundView::Text(text) => text,
        _ => Seq::empty(),
    }
}

impl Inbound {
    /// The event that this item stands for.
    pub fn event(&self) -> (event: Event)
        ensures
            event == event_of(self@),
    {
        match self {
            Inbound::Text(_) => Event::Text,
            Inbound::Other => Event::Other,
            Inbound::Failed => Event::Failed,
            Inbound::Ended => Event::Ended,
        }
    }
}

/// The name of the connection parameter that holds the room.
pub open spec fn room_key() -> Seq<char> {
    "roomId"@
}

/// The room that a list of connection parameters asks for: the value of the
/// last parameter named `roomId`, if there is one.
pub open spec fn room_param(params: Seq<(String, String)>) -> Option<Seq<char>>
    decreases params.len(),
{
    if params.len() == 0 {
        None
    } else if params.last().0@ == room_key() {
        Some(params.last().1@)
    } else {
        room_param(params.drop_last())
    }
}

/// Finds the room that a connection asks for among its parameters.
pub fn requested_room(params: &Vec<(String, String)>) -> (room: Option<String>)
    ensures
        match room {
            Some(name) => room_param(params@) == Some(name@),
            None => room_param(params@) is None,
        },
{
    let key = String::from_str("roomId");
    let mut i: usize = params.len();
    assert(params@.subrange(0, i as int) =~= params@);
    while i > 0
        invariant
            i <= params@.len(),
            key@ == room_key(),
            room_param(params@) == room_param(params@.subrange(0, i as int)),
        decreases i,
    {
        let ghost prefix = params@.subrange(0, i as int);
        assert(prefix.last() == params@[i - 1]);
        assert(prefix.drop_last() =~= params@.subrange(0, i - 1));
        if params[i - 1].0 == key {
            return Some(params[i - 1].1.clone());
        }
        i -= 1;
    }
    None
}

/// Mathematical value of a [`Connection`].
pub struct ConnectionView {
    pub phase: Phase,
    /// The room the connection asked for.
    pub room: Seq<char>,
    /// The identity given to the connection when it joined.
    pub user_id: Seq<char>,
    /// The identity under which the registry holds the connection while it
    /// is a member of its room.
    pub handle: u64,
}

/// A connection together with the registry it lives in.
pub struct World {
    pub conn: ConnectionView,
    pub rooms: RoomMap,
    pub issued: nat,
}

/// A broadcast that is owed: the envelope, and the members it goes to.
pub struct Notice {
    pub recipients: Seq<u64>,
    pub envelope: EnvelopeView,
}

/// What a registration attempt makes of the world. A connection that is
/// still connecting, in a registry that can name it, becomes a member of its
/// room under a fresh identity, and its arrival is owed to every member,
/// itself included. Anything else leaves the registry alone.
pub open spec fn join_step(w: World, token: Seq<char>) -> (World, Option<Notice>) {
    let (phase, action) = transition(w.conn.phase, Event::Join { capacity: w.issued < u64::MAX });
    if action == Action::Register {
        let id = w.issued as u64;
        let user_id = user_id_of(token);
        let rooms = joined(w.rooms, w.conn.room, id);
        (
            World {
                conn: ConnectionView { phase, room: w.conn.room, user_id, handle: id },
                rooms,
                issued: w.issued + 1,
            },
            Some(
                Notice {
                    recipients: members_of(rooms, w.conn.room),
                    envelope: joined_notice_of(user_id),
                },
            ),
        )
    } else {
        (
            World {
                conn: ConnectionView {
                    phase,
                    room: w.conn.room,
                    user_id: w.conn.user_id,
                    handle: w.conn.handle,
                },
                rooms: w.rooms,
                issued: w.issued,
            },
            None,
        )
    }
}

/// What an inbound item makes of the world. Text from a member is owed to
/// every member of its room as a chat message under the member's identity;
/// nothing else is.
pub open spec fn receive_step(
    w: World,
    inbound: InboundView,
    message_id: Seq<char>,
    timestamp: Seq<char>,
) -> (World, Option<Notice>) {
    let (phase, action) = transition(w.conn.phase, event_of(inbound));
    (
        World {
            conn: ConnectionView {
                phase,
                room: w.conn.room,
                user_id: w.conn.user_id,
                handle: w.conn.handle,
            },
            rooms: w.rooms,
            issued: w.issued,
        },
        if action == Action::Relay {
            Some(
                Notice {
                    recipients: members_of(w.rooms, w.conn.room),
                    envelope: chat_message_of(
                        message_id,
                        w.conn.user_id,
                        content_of(inbound),
                        timestamp,
                    ),
                },
            )
        } else {
            None
        },
    )
}

/// What tearing a connection down makes of the world. A member is taken out
/// of its room, and its departure is owed to those who remain.
pub open spec fn leave_step(w: World) -> (World, Option<Notice>) {
    let (phase, action) = transition(w.conn.phase, Event::Leave);
    let rooms = if action == Action::Unregister {
        left(w.rooms, w.conn.room, w.conn.handle)
    } else {
        w.rooms
    };
    (
        World {
            conn: ConnectionView {
                phase,
                room: w.conn.room,
                user_id: w.conn.user_id,
                handle: w.conn.handle,
            },
            rooms,
            issued: w.issued,
        },
        if action == Action::Unregister {
            Some(
                Notice {
                    recipients: members_of(rooms, w.conn.room),
                    envelope: left_notice_of(w.conn.user_id),
                },
            )
        } else {
            None
        },
    )
}

/// The world made of a connection and a registry.
pub open spec fn world_of(conn: ConnectionView, registry: &RoomRegistry) -> World {
    World { conn, rooms: registry@, issued: registry.issued() }
}

/// Whether `outbound` is the broadcast that `notice` asks for: addressed to
/// the same members, carrying the frame of the same envelope.
pub open spec fn carries(outbound: Option<Outbound>, notice: Option<Notice>) -> bool {
    match (outbound, notice) {
        (Some(out), Some(owed)) => out.recipients() == owed.recipients && out.frame() == wire_text(
            owed.envelope,
        ),
        (None, None) => true,
        _ => false,
    }
}

/// One connection, as the relay sees it.
pub struct Connection {
    phase: Phase,
    room: String,
    user_id: String,
    handle: u64,
}

impl View for Connection {
    type V = ConnectionView;

    closed spec fn view(&self) -> ConnectionView {
        ConnectionView {
            phase: self.phase,
            room: self.room@,
            user_id: self.user_id@,
            handle: self.handle,
        }
    }
}

impl Connection {
    /// Takes up a connection that asks for `room`. One that asks for none is
    /// turned away: it starts out closed.
    pub fn connecting(room: Option<String>) -> (conn: Connection)
        ensures
            conn@.phase == initial_phase(room is Some),
            conn@.room == match room {
                Some(name) => name@,
                None => Seq::empty(),
            },
            conn@.user_id == Seq::<char>::empty(),
    {
        match room {
            Some(name) => Connection {
                phase: Phase::Connecting,
                room: name,
                user_id: String::new(),
                handle: 0,
            },
            None => Connection {
                phase: Phase::Closed,
                room: String::new(),
                user_id: String::new(),
                handle: 0,
            },
        }
    }

    /// The phase the connection is in.
    pub fn phase(&self) -> (phase: Phase)
        ensures
            phase == self@.phase,
    {
        self.phase
    }

    /// Whether the connection is gone.
    pub fn is_closed(&self) -> (closed: bool)
        ensures
            closed == (self@.phase == Phase::Closed),
    {
        self.phase == Phase::Closed
    }

    /// Whether the connection still reads what its client sends.
    pub fn is_reading(&self) -> (reading: bool)
        ensures
            reading == (self@.phase == Phase::Joined || self@.phase == Phase::Relaying),
    {
        self.phase == Phase::Joined || self.phase == Phase::Relaying
    }

    /// The room the connection asked for.
    pub fn room(&self) -> (room: &str)
        ensures
            room@ == self@.room,
    {
        self.room.as_str()
    }

    /// The identity given to the connection; empty until it has joined.
    pub fn user_id(&self) -> (user_id: &str)
        ensures
            user_id@ == self@.user_id,
    {
        self.user_id.as_str()
    }

    /// The identity under which the registry holds the connection, while it
    /// is a member of its room.
    pub fn handle(&self) -> (handle: Option<u64>)
        ensures
            handle == if is_member(self@.phase) {
                Some(self@.handle)
            } else {
                None
            },
    {
        if self.phase == Phase::Joined || self.phase == Phase::Relaying || self.phase
            == Phase::Leaving {
            Some(self.handle)
        } else {
            None
        }
    }

    /// Registers the connection under the user id made from `token` and
    /// prepares the announcement of its arrival.
    pub fn join_with(
        &mut self,
        registry: &mut RoomRegistry,
        tx: UnboundedSender<String>,
        token: &str,
    ) -> (outbound: Option<Outbound>)
        ensures
            world_of(final(self)@, final(registry)) == join_step(
                world_of(old(self)@, old(registry)),
                token@,
            ).0,
            carries(outbound, join_step(world_of(old(self)@, old(registry)), token@).1),
    {
        let (phase, action) = decide(self.phase, Event::Join { capacity: registry.has_capacity() });
        self.phase = phase;
        if action == Action::Register {
            let user_id = user_id_from(token);
            let notice = Envelope::joined_notice(user_id.as_str());
            self.handle = registry.join(self.room.as_str(), tx);
            self.user_id = user_id;
            Some(prepare(registry, self.room.as_str(), &notice))
        } else {
            None
        }
    }

    /// Registers the connection under a fresh identity and prepares the
    /// announcement of its arrival. The identity is synthetic: no credential
    /// is asked for, and every connection is given `user-` followed by a
    /// random token of its own, whichever is drawn.
    pub fn join(&mut self, registry: &mut RoomRegistry, tx: UnboundedSender<String>) -> (outbound:
        Option<Outbound>)
        ensures
            exists|token: Seq<char>|
                {
                    &&& outbound is Some ==> is_hyphenated_uuid(token)
                    &&& world_of(final(self)@, final(registry)) == (#[trigger] join_step(
                        world_of(old(self)@, old(registry)),
                        token,
                    )).0
                    &&& carries(outbound, join_step(world_of(old(self)@, old(registry)), token).1)
                },
    {
        let (_, action) = decide(self.phase, Event::Join { capacity: registry.has_capacity() });
        if action == Action::Register {
            let token = fresh_token();
            self.join_with(registry, tx, token.as_str())
        } else {
            self.join_with(registry, tx, "")
        }
    }

    /// Takes in what arrived from the client and, for text from a member,
    /// prepares the chat message under the given message id and timestamp.
    pub fn receive_with(
        &mut self,
        registry: &RoomRegistry,
        inbound: Inbound,
        message_id: String,
        timestamp: String,
    ) -> (outbound: Option<Outbound>)
        ensures
            world_of(final(self)@, registry) == receive_step(
                world_of(old(self)@, registry),
                inbound@,
                message_id@,
                timestamp@,
            ).0,
            carries(
                outbound,
                receive_step(world_of(old(self)@, registry), inbound@, message_id@, timestamp@).1,
            ),
    {
        let (phase, action) = decide(self.phase, inbound.event());
        self.phase = phase;
        if action == Action::Relay {
            match inbound {
                Inbound::Text(content) => {
                    let message = Envelope::chat_message(
                        message_id,
                        self.user_id.as_str(),
                        content,
                        timestamp,
                    );
                    Some(prepare(registry, self.room.as_str(), &message))
                },
                _ => None,
            }
        } else {
            None
        }
    }

    /// Takes in what arrived from the client and, for text from a member,
    /// prepares the chat message under a fresh message id and the current
    /// time, whichever they are.
    pub fn receive(&mut self, registry: &RoomRegistry, inbound: Inbound) -> (outbound: Option<
        Outbound,
    >)
        ensures
            exists|message_id: Seq<char>, timestamp: Seq<char>|
                {
                    &&& outbound is Some ==> is_hyphenated_uuid(message_id)
                    &&& world_of(final(self)@, registry) == (#[trigger] receive_step(
                        world_of(old(self)@, registry),
                        inbound@,
                        message_id,
                        timestamp,
                    )).0
                    &&& carries(
                        outbound,
                        receive_step(
                            world_of(old(self)@, registry),
                            inbound@,
                            message_id,
                            timestamp,
                        ).1,
                    )
                },
    {
        let (_, action) = decide(self.phase, inbound.event());
        if action == Action::Relay {
            let message_id = fresh_token();
            let timestamp = timestamp_now();
            self.receive_with(registry, inbound, message_id, timestamp)
        } else {
            self.receive_with(registry, inbound, String::new(), String::new())
        }
    }

    /// Tears the connection down. A member is taken out of its room, once,
    /// and the announcement of its departure is prepared, once: a second
    /// call finds the connection closed and does nothing.
    pub fn leave(&mut self, registry: &mut RoomRegistry) -> (outbound: Option<Outbound>)
        ensures
            world_of(final(self)@, final(registry)) == leave_step(
                world_of(old(self)@, old(registry)),
            ).0,
            carries(outbound, leave_step(world_of(old(self)@, old(registry))).1),
    {
        let (phase, action) = decide(self.phase, Event::Leave);
        self.phase = phase;
        if action == Action::Unregister {
            registry.leave(self.room.as_str(), self.handle);
            let notice = Envelope::left_notice(self.user_id.as_str());
            Some(prepare(registry, self.room.as_str(), &notice))
        } else {
            None
        }
    }
}

/// A connection that joins is a member of its room from then on, under an
/// identity that no member of any room had before, and the registry stays
/// consistent.
pub proof fn lemma_joining_makes_a_member(w: World, token: Seq<char>)
    requires
        consistent(w.rooms, w.issued),
        w.conn.phase == Phase::Connecting,
        w.issued < u64::MAX,
    ensures
        ({
            let after = join_step(w, token).0;
            &&& is_member(after.conn.phase)
            &&& members_of(after.rooms, after.conn.room).contains(after.conn.handle)
            &&& !registered(w.rooms, after.conn.handle)
            &&& consistent(after.rooms, after.issued)
        }),
{
    lemma_join_registers_once(w.rooms, w.issued, w.conn.room);
}

/// A member that is torn down is a member of no room afterwards, every
/// other membership is as it was, and the registry stays consistent.
pub proof fn lemma_leaving_removes_the_member(w: World)
    requires
        consistent(w.rooms, w.issued),
        is_member(w.conn.phase),
        members_of(w.rooms, w.conn.room).contains(w.conn.handle),
    ensures
        ({
            let after = leave_step(w).0;
            &&& after.conn.phase == Phase::Closed
            &&& !registered(after.rooms, w.conn.handle)
            &&& consistent(after.rooms, after.issued)
            &&& forall|other: u64, room: Seq<char>|
                other != w.conn.handle ==> (#[trigger] members_of(after.rooms, room).contains(other)
                    <==> members_of(w.rooms, room).contains(other))
        }),
{
    lemma_leave_unregisters(w.rooms, w.issued, w.conn.room, w.conn.handle);
}

/// A closed connection does not touch the world: no step registers it,
/// removes anything, or owes anybody a broadcast.
pub proof fn lemma_closed_connection_is_inert(
    w: World,
    token: Seq<char>,
    inbound: InboundView,
    message_id: Seq<char>,
    timestamp: Seq<char>,
)
    requires
        w.conn.phase == Phase::Closed,
    ensures
        join_step(w, token) == (w, None::<Notice>),
        receive_step(w, inbound, message_id, timestamp) == (w, None::<Notice>),
        leave_step(w) == (w, None::<Notice>),
{
}

} // verus!
