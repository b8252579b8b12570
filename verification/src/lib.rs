//! Core of a collaborative estimation service: a directory of named,
//! password-gated rooms, and a per-room voting state machine.
//!
//! The library is the decision-making core. Each operation takes the current
//! state and one request, mutates the state, and returns the outbound
//! messages to deliver. Delivering those messages, and feeding back events
//! such as dropped connections, is the caller's job; the room and directory
//! types assume their operations are applied one at a time.

pub mod assoc;
pub mod digest;
pub mod member;
pub mod protocol;
pub mod room;
pub mod room_manager;
pub mod scale;
pub mod strmap;
pub mod user;
