//! A room-based message relay.
//!
//! Clients join a named room and receive every message that a member of the
//! room sends, together with notices of who joined and who left.
//!
//! - [`envelope`]: the two outbound message shapes.
//! - [`wire`]: the JSON text frame that carries an envelope.
//! - [`handle`]: the outbound delivery path of one connection.
//! - [`membership`]: rooms and members as mathematics, and what holds of
//!   every run of joins and leaves.
//! - [`registry`]: the room registry, the one place where membership changes.
//! - [`broadcast`]: fan-out of one envelope to the members of a room.
//! - [`lifecycle`]: the phases of a connection and the rule that moves it
//!   from one to the next.
//! - [`connection`]: one connection, driven by that rule.
//! - [`ambient`]: the random tokens and timestamps drawn from the machine.
//!
//! The registry is a plain value. A program that serves many connections at
//! once keeps it behind one lock, takes the lock to join, to leave or to
//! prepare a broadcast, and delivers after it has let the lock go.

pub mod ambient;
pub mod broadcast;
pub mod connection;
pub mod envelope;
pub mod handle;
pub mod lifecycle;
pub mod membership;
pub mod registry;
pub mod wire;
