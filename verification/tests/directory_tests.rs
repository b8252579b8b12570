use sizematters::protocol::{ClientResponseMessage, Outbound, RoomMessage};
use sizematters::room_manager::RoomManagerActor;
use sizematters::user::UserData;

fn participant(id: &str) -> UserData {
    UserData {
        user_id: id.to_owned(),
        name: format!("name-{}", id),
        gravatar_id: String::new(),
    }
}

fn join_msg(room: &str, password: &str, id: &str) -> RoomMessage {
    RoomMessage::JoinRoom {
        room_name: room.to_owned(),
        password: password.to_owned(),
        password_is_hash: false,
        user: participant(id),
    }
}

#[test]
fn invalid_room_name_is_rejected_at_the_directory() {
    let mut dir = RoomManagerActor::new();
    let too_long = "x".repeat(51);
    for bad in ["", "has space", "name!", too_long.as_str()] {
        let out = dir.handle(join_msg(bad, "x", "a"));
        assert_eq!(out.len(), 1);
        assert!(matches!(
            out[0],
            Outbound::ToRequester {
                msg: ClientResponseMessage::InvalidRoomName
            }
        ));
    }
    let longest = "y".repeat(50);
    for good in ["demo", "A-b_c", "x", longest.as_str()] {
        let out = dir.handle(join_msg(good, "x", &format!("user-{}", good.len())));
        assert!(matches!(
            out.last(),
            Some(Outbound::ToRequester {
                msg: ClientResponseMessage::RoomJoined { .. }
            })
        ));
    }
}

#[test]
fn second_room_is_refused_while_in_one() {
    let mut dir = RoomManagerActor::new();
    dir.handle(join_msg("demo", "x", "a"));
    let out = dir.handle(join_msg("other", "x", "a"));
    assert_eq!(out.len(), 1);
    assert!(matches!(
        out[0],
        Outbound::ToRequester {
            msg: ClientResponseMessage::CannotJoinMultipleRooms
        }
    ));
}

#[test]
fn joining_same_room_twice_yields_already_in_room() {
    let mut dir = RoomManagerActor::new();
    dir.handle(join_msg("demo", "x", "a"));
    let out = dir.handle(join_msg("demo", "x", "a"));
    assert_eq!(out.len(), 1);
    assert!(matches!(
        out[0],
        Outbound::ToRequester {
            msg: ClientResponseMessage::AlreadyInRoom { .. }
        }
    ));
}

#[test]
fn sole_member_leaving_retires_the_room() {
    let mut dir = RoomManagerActor::new();
    dir.handle(join_msg("demo", "first-password", "a"));
    dir.handle(RoomMessage::LeaveRoom {
        room_name: "demo".to_owned(),
        user_id: "a".to_owned(),
    });
    // A later join under the same name succeeds with a different password,
    // which proves the room was created afresh.
    let out = dir.handle(join_msg("demo", "second-password", "b"));
    match out.last() {
        Some(Outbound::ToRequester {
            msg: ClientResponseMessage::RoomJoined { users, .. },
        }) => {
            assert_eq!(users.len(), 1);
            assert_eq!(users[0].user_id, "b");
        }
        _ => panic!("expected a fresh RoomJoined"),
    }
}

#[test]
fn disconnect_acts_as_leave() {
    let mut dir = RoomManagerActor::new();
    dir.handle(join_msg("demo", "x", "a"));
    let out = dir.handle(RoomMessage::UserLeft {
        user_id: "a".to_owned(),
    });
    assert!(out
        .iter()
        .any(|o| matches!(o, Outbound::ToMembers { msg, .. } if matches!(msg, ClientResponseMessage::UserLeft { .. }))));
    // The participant may join another room immediately.
    let out = dir.handle(join_msg("other", "x", "a"));
    assert!(matches!(
        out.last(),
        Some(Outbound::ToRequester {
            msg: ClientResponseMessage::RoomJoined { .. }
        })
    ));
}

#[test]
fn disconnect_of_unknown_participant_is_silent() {
    let mut dir = RoomManagerActor::new();
    let out = dir.handle(RoomMessage::UserLeft {
        user_id: "ghost".to_owned(),
    });
    assert!(out.is_empty());
}

#[test]
fn votes_route_to_the_named_room() {
    let mut dir = RoomManagerActor::new();
    dir.handle(join_msg("demo", "x", "a"));
    let out = dir.handle(RoomMessage::Vote {
        room_name: "demo".to_owned(),
        user_id: "a".to_owned(),
        size: "3".to_owned(),
    });
    assert!(matches!(
        out[0],
        Outbound::ToRequester {
            msg: ClientResponseMessage::OwnVote { .. }
        }
    ));
}

#[test]
fn requests_to_unknown_rooms_are_dropped() {
    let mut dir = RoomManagerActor::new();
    let out = dir.handle(RoomMessage::Vote {
        room_name: "nowhere".to_owned(),
        user_id: "a".to_owned(),
        size: "3".to_owned(),
    });
    assert!(out.is_empty());
    let out = dir.handle(RoomMessage::Randomize {
        room_name: "nowhere".to_owned(),
    });
    assert!(out.is_empty());
}

#[test]
fn profile_update_routes_to_current_room() {
    let mut dir = RoomManagerActor::new();
    dir.handle(join_msg("demo", "x", "a"));
    let mut updated = participant("a");
    updated.name = "new name".to_owned();
    let out = dir.handle(RoomMessage::UserUpdated { user: updated });
    assert_eq!(out.len(), 1);
    assert!(matches!(
        &out[0],
        Outbound::ToMembers {
            msg: ClientResponseMessage::UserUpdated { .. },
            ..
        }
    ));
    let out = dir.handle(RoomMessage::UserUpdated {
        user: participant("ghost"),
    });
    assert!(out.is_empty());
}

#[test]
fn room_closing_retires_the_room() {
    let mut dir = RoomManagerActor::new();
    dir.handle(join_msg("demo", "x", "a"));
    dir.handle(RoomMessage::RoomClosing {
        room_name: "demo".to_owned(),
    });
    let out = dir.handle(RoomMessage::Vote {
        room_name: "demo".to_owned(),
        user_id: "a".to_owned(),
        size: "3".to_owned(),
    });
    assert!(out.is_empty());
}

#[test]
fn room_closing_frees_its_members_assignments() {
    let mut dir = RoomManagerActor::new();
    dir.handle(join_msg("demo", "x", "a"));
    dir.handle(RoomMessage::RoomClosing {
        room_name: "demo".to_owned(),
    });
    // The assignment pointing at the retired room is gone, so the participant
    // may join another room at once.
    let out = dir.handle(join_msg("other", "x", "a"));
    assert!(matches!(
        out.last(),
        Some(Outbound::ToRequester {
            msg: ClientResponseMessage::RoomJoined { .. }
        })
    ));
}

#[test]
fn scale_change_routes_and_unknown_scale_stays_silent() {
    let mut dir = RoomManagerActor::new();
    dir.handle(join_msg("demo", "x", "a"));
    let out = dir.handle(RoomMessage::ChangeScale {
        room_name: "demo".to_owned(),
        selected_scale_name: "fistOfFive".to_owned(),
    });
    assert!(matches!(
        &out[0],
        Outbound::ToMembers {
            msg: ClientResponseMessage::ScaleChanged { .. },
            ..
        }
    ));
    let out = dir.handle(RoomMessage::ChangeScale {
        room_name: "demo".to_owned(),
        selected_scale_name: "unknown".to_owned(),
    });
    assert!(out.is_empty());
}
