//! A verified on-chain "virtual pet" actor.
//!
//! The pet is a singleton record owned by an identity. It receives typed
//! requests, mutates its state, and emits typed reply events. Three vitals
//! (fullness, entertainment, rest) decay with block time and are refilled by
//! actions; ownership may be transferred and an operator delegated; token
//! approvals and attribute purchases run as suspended calls to other actors;
//! a FIFO pool of gas reservations powers autonomous reminders.
//!
//! The host runtime (message transport, clocks, identities, gas) sits outside
//! the library: handlers here are pure functions from state, request and
//! message context to the next state and an outcome that tells the host what
//! to send.

pub mod codec;
pub mod dispatch;
pub mod ids;
pub mod state;
pub mod vitals;
