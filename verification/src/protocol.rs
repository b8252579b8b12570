//! The messages the room system exchanges with its surroundings. Inbound
//! requests arrive as `RoomMessage`; every operation answers with a list of
//! `Outbound` deliveries, which the caller puts on the wire.

use crate::scale::Scale;
use crate::user::UserData;
use vstd::prelude::*;

verus! {

/// A request for the room directory, already carrying the participant
/// identity the connection layer established.
pub enum RoomMessage {
    JoinRoom { room_name: String, password: String, password_is_hash: bool, user: UserData },
    LeaveRoom { room_name: String, user_id: String },
    Vote { room_name: String, user_id: String, size: String },
    NewVote { room_name: String, user_id: String },
    UserUpdated { user: UserData },
    UserLeft { user_id: String },
    Randomize { room_name: String },
    ChangeScale { room_name: String, selected_scale_name: String },
    UpdateActive { room_name: String, user_id: String, active: bool },
    RoomClosing { room_name: String },
}

/// A message pushed to a client.
pub enum ClientResponseMessage {
    RoomJoined {
        room_name: String,
        hashed_password: String,
        users: Vec<UserData>,
        votes_cast: usize,
        scale_values: Vec<Scale>,
        selected_scale_name: String,
    },
    UserJoined { room_name: String, user: UserData },
    UserLeft { room_name: String, user_id: String },
    UserUpdated { user: UserData },
    OwnData { user: UserData },
    OwnVote { room_name: String, size: String },
    VoteStatus { room_name: String, votes: Vec<(String, bool)> },
    VoteResults { room_name: String, votes: Vec<(String, String)> },
    NewVote { room_name: String },
    Randomized { room_name: String, selected_user_id: String },
    ScaleChanged { room_name: String, selected_scale: Scale },
    ActiveUpdated { room_name: String, user_id: String, active: bool },
    AlreadyInRoom { room_name: String },
    WrongPassword { room_name: String },
    InvalidRoomName,
    VotingOver,
    CannotJoinMultipleRooms,
    Error { msg: String },
}

/// One delivery: either the reply to whoever issued the current request, or
/// a push to the named room members. The caller owns the channels; a failed
/// push is reported back as a `UserLeft` request.
pub enum Outbound {
    ToRequester { msg: ClientResponseMessage },
    ToMembers { recipients: Vec<String>, msg: ClientResponseMessage },
}

/// The identifiers a push is addressed to.
pub open spec fn recipient_ids(recipients: Vec<String>) -> Seq<Seq<char>> {
    recipients@.map_values(|s: String| s@)
}

} // verus!
