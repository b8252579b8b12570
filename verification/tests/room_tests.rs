use sizematters::protocol::{ClientResponseMessage, Outbound};
use sizematters::room::RoomActor;
use sizematters::user::UserData;

fn member(id: &str) -> UserData {
    UserData {
        user_id: id.to_owned(),
        name: format!("name-{}", id),
        gravatar_id: String::new(),
    }
}

fn join(room: &mut RoomActor, id: &str, password: &str) -> Vec<Outbound> {
    room.join_room(password.to_owned(), false, member(id))
}

#[test]
fn join_gives_snapshot_to_joiner() {
    let mut room = RoomActor::new("demo".to_owned(), "x".to_owned(), false);
    let out = join(&mut room, "a", "x");
    assert_eq!(out.len(), 2);
    match &out[0] {
        Outbound::ToMembers { recipients, msg } => {
            assert!(recipients.is_empty());
            assert!(matches!(msg, ClientResponseMessage::UserJoined { .. }));
        }
        _ => panic!("expected a UserJoined broadcast"),
    }
    match &out[1] {
        Outbound::ToRequester {
            msg:
                ClientResponseMessage::RoomJoined {
                    room_name,
                    users,
                    votes_cast,
                    scale_values,
                    selected_scale_name,
                    ..
                },
        } => {
            assert_eq!(room_name, "demo");
            assert_eq!(users.len(), 1);
            assert_eq!(users[0].user_id, "a");
            assert_eq!(*votes_cast, 0usize);
            assert_eq!(scale_values.len(), 2);
            assert_eq!(scale_values[0].name, "fibonacci");
            assert_eq!(
                scale_values[0].values,
                vec!["0", "1", "2", "3", "5", "8", "13", "NV"]
            );
            assert_eq!(scale_values[1].name, "fistOfFive");
            assert_eq!(selected_scale_name, "fibonacci");
        }
        _ => panic!("expected the RoomJoined snapshot"),
    }
}

#[test]
fn rejoining_same_room_yields_already_in_room() {
    let mut room = RoomActor::new("demo".to_owned(), "x".to_owned(), false);
    join(&mut room, "a", "x");
    let out = join(&mut room, "a", "x");
    assert_eq!(out.len(), 1);
    match &out[0] {
        Outbound::ToRequester {
            msg: ClientResponseMessage::AlreadyInRoom { room_name },
        } => assert_eq!(room_name, "demo"),
        _ => panic!("expected AlreadyInRoom to the requester alone"),
    }
    // No duplicate membership: the next join broadcast goes to one member.
    let out = join(&mut room, "b", "x");
    match &out[0] {
        Outbound::ToMembers { recipients, .. } => assert_eq!(recipients, &vec!["a".to_owned()]),
        _ => panic!("expected a UserJoined broadcast"),
    }
}

#[test]
fn wrong_password_yields_wrong_password_and_no_membership() {
    let mut room = RoomActor::new("demo".to_owned(), "x".to_owned(), false);
    let out = join(&mut room, "a", "wrong");
    assert_eq!(out.len(), 1);
    assert!(matches!(
        out[0],
        Outbound::ToRequester {
            msg: ClientResponseMessage::WrongPassword { .. }
        }
    ));
    // The rejected participant is in neither set: a real join sees no members.
    let out = join(&mut room, "a", "x");
    match &out[0] {
        Outbound::ToMembers { recipients, .. } => assert!(recipients.is_empty()),
        _ => panic!("expected a UserJoined broadcast"),
    }
}

#[test]
fn precomputed_hash_join_succeeds() {
    // The commitment is deterministic, so a client may send the hash itself.
    let mut room = RoomActor::new("demo".to_owned(), "x".to_owned(), false);
    let hash = "9dd4e461268c8034f5c8564e155c67a6".to_owned();
    let out = room.join_room(hash, true, member("a"));
    assert!(matches!(
        out[1],
        Outbound::ToRequester {
            msg: ClientResponseMessage::RoomJoined { .. }
        }
    ));
}

#[test]
fn voting_round_demo() {
    // Room "demo", participants a and b join with password "x".
    let mut room = RoomActor::new("demo".to_owned(), "x".to_owned(), false);
    join(&mut room, "a", "x");
    join(&mut room, "b", "x");

    // a votes "3": a receives OwnVote{3}, all receive VoteStatus{a:true,b:false}.
    let out = room.vote("a".to_owned(), "3".to_owned());
    assert_eq!(out.len(), 2);
    match &out[0] {
        Outbound::ToRequester {
            msg: ClientResponseMessage::OwnVote { room_name, size },
        } => {
            assert_eq!(room_name, "demo");
            assert_eq!(size, "3");
        }
        _ => panic!("expected OwnVote to the voter"),
    }
    match &out[1] {
        Outbound::ToMembers { recipients, msg } => {
            assert_eq!(recipients, &vec!["a".to_owned(), "b".to_owned()]);
            match msg {
                ClientResponseMessage::VoteStatus { votes, .. } => {
                    assert_eq!(
                        votes,
                        &vec![("a".to_owned(), true), ("b".to_owned(), false)]
                    );
                }
                _ => panic!("expected VoteStatus before completion"),
            }
        }
        _ => panic!("expected a status broadcast"),
    }

    // b votes "5": b receives OwnVote{5}; both receive VoteResults{a:3,b:5}.
    let out = room.vote("b".to_owned(), "5".to_owned());
    assert_eq!(out.len(), 2);
    match &out[0] {
        Outbound::ToRequester {
            msg: ClientResponseMessage::OwnVote { size, .. },
        } => assert_eq!(size, "5"),
        _ => panic!("expected OwnVote to the voter"),
    }
    match &out[1] {
        Outbound::ToMembers { msg, .. } => match msg {
            ClientResponseMessage::VoteResults { votes, .. } => {
                assert_eq!(
                    votes,
                    &vec![
                        ("a".to_owned(), "3".to_owned()),
                        ("b".to_owned(), "5".to_owned())
                    ]
                );
            }
            _ => panic!("expected VoteResults on completion"),
        },
        _ => panic!("expected a results broadcast"),
    }
}

#[test]
fn revote_overwrites_without_new_broadcast() {
    let mut room = RoomActor::new("demo".to_owned(), "x".to_owned(), false);
    join(&mut room, "a", "x");
    join(&mut room, "b", "x");
    room.vote("a".to_owned(), "3".to_owned());
    let out = room.vote("a".to_owned(), "8".to_owned());
    assert_eq!(out.len(), 1);
    assert!(matches!(
        out[0],
        Outbound::ToRequester {
            msg: ClientResponseMessage::OwnVote { .. }
        }
    ));
}

#[test]
fn vote_after_completion_yields_voting_over() {
    let mut room = RoomActor::new("demo".to_owned(), "x".to_owned(), false);
    join(&mut room, "a", "x");
    room.vote("a".to_owned(), "3".to_owned());
    let out = room.vote("a".to_owned(), "5".to_owned());
    assert_eq!(out.len(), 1);
    assert!(matches!(
        out[0],
        Outbound::ToRequester {
            msg: ClientResponseMessage::VotingOver
        }
    ));
}

#[test]
fn non_member_vote_is_ignored() {
    let mut room = RoomActor::new("demo".to_owned(), "x".to_owned(), false);
    join(&mut room, "a", "x");
    join(&mut room, "b", "x");
    let out = room.vote("ghost".to_owned(), "3".to_owned());
    assert!(out.is_empty());
}

#[test]
fn passive_member_vote_is_ignored() {
    let mut room = RoomActor::new("demo".to_owned(), "x".to_owned(), false);
    join(&mut room, "a", "x");
    join(&mut room, "b", "x");
    room.update_active("b".to_owned(), false);
    let out = room.vote("b".to_owned(), "3".to_owned());
    assert!(out.is_empty());
}

#[test]
fn new_round_clears_votes_and_broadcasts_new_vote() {
    let mut room = RoomActor::new("demo".to_owned(), "x".to_owned(), false);
    join(&mut room, "a", "x");
    join(&mut room, "b", "x");
    room.vote("a".to_owned(), "3".to_owned());
    room.vote("b".to_owned(), "5".to_owned());
    let out = room.new_vote("a".to_owned());
    assert_eq!(out.len(), 1);
    match &out[0] {
        Outbound::ToMembers { recipients, msg } => {
            assert_eq!(recipients, &vec!["a".to_owned(), "b".to_owned()]);
            assert!(matches!(msg, ClientResponseMessage::NewVote { .. }));
        }
        _ => panic!("expected a NewVote broadcast"),
    }
    // The earlier completed round must not resurface: a fresh vote reports
    // booleans, not the old results.
    let out = room.vote("a".to_owned(), "1".to_owned());
    match &out[1] {
        Outbound::ToMembers { msg, .. } => {
            assert!(matches!(msg, ClientResponseMessage::VoteStatus { .. }));
        }
        _ => panic!("expected a status broadcast"),
    }
}

#[test]
fn deactivating_a_voter_clears_their_vote() {
    let mut room = RoomActor::new("demo".to_owned(), "x".to_owned(), false);
    join(&mut room, "a", "x");
    join(&mut room, "b", "x");
    room.vote("a".to_owned(), "3".to_owned());
    let out = room.update_active("a".to_owned(), false);
    assert_eq!(out.len(), 2);
    match &out[0] {
        Outbound::ToMembers { msg, .. } => match msg {
            // Only b is active and b has not voted: booleans, all false.
            ClientResponseMessage::VoteStatus { votes, .. } => {
                assert_eq!(votes, &vec![("b".to_owned(), false)]);
            }
            _ => panic!("expected VoteStatus after the vote was dropped"),
        },
        _ => panic!("expected a status broadcast"),
    }
    match &out[1] {
        Outbound::ToMembers { msg, .. } => {
            assert!(matches!(
                msg,
                ClientResponseMessage::ActiveUpdated { active: false, .. }
            ));
        }
        _ => panic!("expected an ActiveUpdated broadcast"),
    }
}

#[test]
fn deactivating_a_pending_voter_can_complete_the_round() {
    let mut room = RoomActor::new("demo".to_owned(), "x".to_owned(), false);
    join(&mut room, "a", "x");
    join(&mut room, "b", "x");
    room.vote("b".to_owned(), "5".to_owned());
    // a never voted; moving a out leaves b as the only active member, voted.
    let out = room.update_active("a".to_owned(), false);
    match &out[0] {
        Outbound::ToMembers { msg, .. } => match msg {
            ClientResponseMessage::VoteResults { votes, .. } => {
                assert_eq!(votes, &vec![("b".to_owned(), "5".to_owned())]);
            }
            _ => panic!("expected VoteResults once every active member voted"),
        },
        _ => panic!("expected a results broadcast"),
    }
}

#[test]
fn reactivated_member_counts_again() {
    let mut room = RoomActor::new("demo".to_owned(), "x".to_owned(), false);
    join(&mut room, "a", "x");
    join(&mut room, "b", "x");
    room.update_active("a".to_owned(), false);
    let out = room.update_active("a".to_owned(), true);
    assert_eq!(out.len(), 1);
    assert!(matches!(
        &out[0],
        Outbound::ToMembers {
            msg: ClientResponseMessage::ActiveUpdated { active: true, .. },
            ..
        }
    ));
    // Both must vote again before results appear.
    let out = room.vote("b".to_owned(), "5".to_owned());
    match &out[1] {
        Outbound::ToMembers { msg, .. } => {
            assert!(matches!(msg, ClientResponseMessage::VoteStatus { .. }));
        }
        _ => panic!("expected a status broadcast"),
    }
}

#[test]
fn leave_drops_vote_and_reports_closure_when_last_active_leaves() {
    let mut room = RoomActor::new("demo".to_owned(), "x".to_owned(), false);
    join(&mut room, "a", "x");
    let (out, closed) = room.leave_room("a".to_owned());
    assert!(closed);
    assert_eq!(out.len(), 2);
    match &out[0] {
        Outbound::ToMembers { recipients, msg } => {
            // The departing member still hears their own UserLeft.
            assert_eq!(recipients, &vec!["a".to_owned()]);
            assert!(matches!(msg, ClientResponseMessage::UserLeft { .. }));
        }
        _ => panic!("expected a UserLeft broadcast"),
    }
}

#[test]
fn leave_of_one_member_keeps_room_open() {
    let mut room = RoomActor::new("demo".to_owned(), "x".to_owned(), false);
    join(&mut room, "a", "x");
    join(&mut room, "b", "x");
    let (_, closed) = room.leave_room("a".to_owned());
    assert!(!closed);
}

#[test]
fn change_scale_to_known_name_broadcasts_definition() {
    let mut room = RoomActor::new("demo".to_owned(), "x".to_owned(), false);
    join(&mut room, "a", "x");
    let out = room.change_scale("fistOfFive".to_owned());
    assert_eq!(out.len(), 1);
    match &out[0] {
        Outbound::ToMembers { msg, .. } => match msg {
            ClientResponseMessage::ScaleChanged {
                room_name,
                selected_scale,
            } => {
                assert_eq!(room_name, "demo");
                assert_eq!(selected_scale.name, "fistOfFive");
                assert_eq!(selected_scale.display_name, "FistOfFive");
                assert_eq!(selected_scale.values, vec!["1", "2", "3", "4", "5", "NV"]);
            }
            _ => panic!("expected ScaleChanged"),
        },
        _ => panic!("expected a ScaleChanged broadcast"),
    }
}

#[test]
fn change_scale_to_unknown_name_is_silent() {
    let mut room = RoomActor::new("demo".to_owned(), "x".to_owned(), false);
    join(&mut room, "a", "x");
    let out = room.change_scale("tshirt".to_owned());
    assert!(out.is_empty());
    // The selection is unchanged: the next joiner still sees the default.
    let out = join(&mut room, "b", "x");
    match &out[1] {
        Outbound::ToRequester {
            msg:
                ClientResponseMessage::RoomJoined {
                    selected_scale_name,
                    ..
                },
        } => assert_eq!(selected_scale_name, "fibonacci"),
        _ => panic!("expected the RoomJoined snapshot"),
    }
}

#[test]
fn randomize_on_single_member_selects_that_member() {
    let mut room = RoomActor::new("demo".to_owned(), "x".to_owned(), false);
    join(&mut room, "a", "x");
    let out = room.randomize();
    assert_eq!(out.len(), 1);
    match &out[0] {
        Outbound::ToMembers { msg, .. } => match msg {
            ClientResponseMessage::Randomized {
                room_name,
                selected_user_id,
            } => {
                assert_eq!(room_name, "demo");
                assert_eq!(selected_user_id, "a");
            }
            _ => panic!("expected Randomized"),
        },
        _ => panic!("expected a Randomized broadcast"),
    }
}

#[test]
fn randomize_on_empty_room_is_silent() {
    let room = RoomActor::new("demo".to_owned(), "x".to_owned(), false);
    let out = room.randomize();
    assert!(out.is_empty());
}

#[test]
fn randomize_picks_an_active_member() {
    let mut room = RoomActor::new("demo".to_owned(), "x".to_owned(), false);
    join(&mut room, "a", "x");
    join(&mut room, "b", "x");
    room.update_active("b".to_owned(), false);
    for _ in 0..16 {
        let out = room.randomize();
        match &out[0] {
            Outbound::ToMembers { msg, .. } => match msg {
                ClientResponseMessage::Randomized {
                    selected_user_id, ..
                } => assert_eq!(selected_user_id, "a"),
                _ => panic!("expected Randomized"),
            },
            _ => panic!("expected a Randomized broadcast"),
        }
    }
}

#[test]
fn membership_stays_single_across_moves() {
    // After joins, toggles and a failed rejoin, the snapshot a new joiner
    // receives lists every participant exactly once.
    let mut room = RoomActor::new("demo".to_owned(), "x".to_owned(), false);
    join(&mut room, "a", "x");
    join(&mut room, "b", "x");
    room.update_active("a".to_owned(), false);
    room.update_active("a".to_owned(), false);
    room.update_active("a".to_owned(), true);
    join(&mut room, "b", "x");
    let out = join(&mut room, "c", "x");
    match &out[1] {
        Outbound::ToRequester {
            msg: ClientResponseMessage::RoomJoined { users, .. },
        } => {
            let mut ids: Vec<&str> = users.iter().map(|u| u.user_id.as_str()).collect();
            ids.sort();
            assert_eq!(ids, vec!["a", "b", "c"]);
        }
        _ => panic!("expected the RoomJoined snapshot"),
    }
}

#[test]
fn profile_update_reaches_every_member() {
    let mut room = RoomActor::new("demo".to_owned(), "x".to_owned(), false);
    join(&mut room, "a", "x");
    join(&mut room, "b", "x");
    let mut updated = member("a");
    updated.name = "fresh name".to_owned();
    let out = room.user_updated(updated);
    assert_eq!(out.len(), 1);
    match &out[0] {
        Outbound::ToMembers { recipients, msg } => {
            assert_eq!(recipients, &vec!["a".to_owned(), "b".to_owned()]);
            match msg {
                ClientResponseMessage::UserUpdated { user } => {
                    assert_eq!(user.name, "fresh name");
                }
                _ => panic!("expected UserUpdated"),
            }
        }
        _ => panic!("expected a UserUpdated broadcast"),
    }
    let out = room.user_updated(member("ghost"));
    assert!(out.is_empty());
}
