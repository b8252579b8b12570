//! The per-room voting state machine. A room owns its membership, password
//! commitment, vote round, scale catalog, and spotlight randomizer. Each
//! operation mutates the room and returns the deliveries it calls for; the
//! caller applies them and feeds back failures as `UserLeft` requests.
//!
//! Round completion is never cached: it is derived from the vote map and the
//! active member set each time it is needed.

use crate::assoc::{assoc_map, distinct_keys};
use crate::digest::{compute_password, spec_password_commitment};
use crate::member::{
    distinct_uids, has_uid, id_seq, lemma_push_uid, lemma_remove_uid, lemma_uid_index,
    lemma_update_uid, uid_index, MemberMap,
};
use crate::protocol::{recipient_ids, ClientResponseMessage, Outbound, RoomMessage};
use crate::scale::{
    has_scale, lemma_catalog_distinct, scale_catalog, scale_index, scale_seq_view,
    spec_default_scale_name, spec_scale_catalog, Scale, ScaleView,
};
use crate::strmap::{pair_seq_view, StrMap};
use crate::user::{user_seq_view, UserData, UserDataView};
use vstd::prelude::*;

verus! {

/// Mathematical image of a room.
pub ghost struct RoomView {
    pub name: Seq<char>,
    pub hashed_password: Seq<char>,
    pub active: Seq<UserDataView>,
    pub passive: Seq<UserDataView>,
    pub votes: Map<Seq<char>, Seq<char>>,
    pub scales: Seq<ScaleView>,
    pub selected_scale_name: Seq<char>,
}

/// The room invariant: each membership holds a participant at most once, no
/// participant is both active and passive, only active members hold votes,
/// the catalog is the fixed one, and the selected scale is in it.
pub open spec fn room_wf(r: RoomView) -> bool {
    &&& distinct_uids(r.active)
    &&& distinct_uids(r.passive)
    &&& forall|i: int, j: int|
        0 <= i < r.active.len() && 0 <= j < r.passive.len() ==> r.active[i].user_id
            != r.passive[j].user_id
    &&& r.votes.dom().finite()
    &&& forall|k: Seq<char>| r.votes.dom().contains(k) ==> has_uid(r.active, k)
    &&& r.scales == spec_scale_catalog()
    &&& has_scale(r.scales, r.selected_scale_name)
}

/// The participant is in the room, actively or passively.
pub open spec fn spec_in_room(r: RoomView, id: Seq<char>) -> bool {
    has_uid(r.active, id) || has_uid(r.passive, id)
}

/// The round is complete: everyone active has voted, and someone is active.
pub open spec fn spec_round_complete(r: RoomView) -> bool {
    r.votes.dom().len() == r.active.len() && r.active.len() > 0
}

/// Everyone currently in the room, active members first.
pub open spec fn member_ids_view(r: RoomView) -> Seq<Seq<char>> {
    id_seq(r.active) + id_seq(r.passive)
}

/// Who has voted, per active member, in membership order.
pub open spec fn vote_status_pairs(r: RoomView) -> Seq<(Seq<char>, bool)> {
    Seq::new(r.active.len(), |i: int| (r.active[i].user_id, r.votes.dom().contains(r.active[i].user_id)))
}

/// The pairs of a status list, as character sequences.
pub open spec fn status_pair_view(s: Seq<(String, bool)>) -> Seq<(Seq<char>, bool)> {
    s.map_values(|p: (String, bool)| (p.0@, p.1))
}

/// The round-status delivery a room broadcasts after the vote map or the
/// active membership changed: the full vote map to everyone once the round is
/// complete, and before that only who-has-voted booleans — vote values stay
/// unobservable until everyone has voted.
pub open spec fn is_status_outbound(r: RoomView, o: Outbound) -> bool {
    if spec_round_complete(r) {
        o matches Outbound::ToMembers { recipients, msg } && recipient_ids(recipients)
            == member_ids_view(r) && (msg matches ClientResponseMessage::VoteResults {
            room_name,
            votes,
        } && room_name@ == r.name && assoc_map(pair_seq_view(votes@)) == r.votes && distinct_keys(
            pair_seq_view(votes@),
        ) && votes@.len() == r.votes.dom().len())
    } else {
        o matches Outbound::ToMembers { recipients, msg } && recipient_ids(recipients)
            == member_ids_view(r) && (msg matches ClientResponseMessage::VoteStatus {
            room_name,
            votes,
        } && room_name@ == r.name && status_pair_view(votes@) == vote_status_pairs(r))
    }
}

/// What joining does: a member is told `AlreadyInRoom`; a mismatched
/// commitment is told `WrongPassword`; otherwise the joiner becomes active,
/// the previous members hear `UserJoined`, and the joiner alone receives the
/// full `RoomJoined` snapshot. Only the successful case changes the room.
pub open spec fn join_post(
    pre: RoomView,
    post: RoomView,
    out: Seq<Outbound>,
    password: Seq<char>,
    password_is_hash: bool,
    u: UserDataView,
) -> bool {
    if spec_in_room(pre, u.user_id) {
        &&& post == pre
        &&& out.len() == 1
        &&& (out[0] matches Outbound::ToRequester { msg } && (
        msg matches ClientResponseMessage::AlreadyInRoom { room_name } && room_name@ == pre.name))
    } else if spec_password_commitment(password, password_is_hash) != pre.hashed_password {
        &&& post == pre
        &&& out.len() == 1
        &&& (out[0] matches Outbound::ToRequester { msg } && (
        msg matches ClientResponseMessage::WrongPassword { room_name } && room_name@ == pre.name))
    } else {
        &&& post == RoomView { active: pre.active.push(u), ..pre }
        &&& out.len() == 2
        &&& (out[0] matches Outbound::ToMembers { recipients, msg } && recipient_ids(recipients)
            == member_ids_view(pre) && (
        msg matches ClientResponseMessage::UserJoined { room_name, user } && room_name@ == pre.name
            && user@ == u))
        &&& (out[1] matches Outbound::ToRequester { msg } && (
        msg matches ClientResponseMessage::RoomJoined {
            room_name,
            hashed_password,
            users,
            votes_cast,
            scale_values,
            selected_scale_name,
        } && room_name@ == pre.name && hashed_password@ == pre.hashed_password && user_seq_view(
            users@,
        ) == post.active + post.passive && votes_cast == pre.votes.dom().len() && scale_seq_view(
            scale_values@,
        ) == pre.scales && selected_scale_name@ == pre.selected_scale_name))
    }
}

/// What leaving does: everyone (the leaver included) hears `UserLeft`, the
/// leaver and any vote of theirs are dropped, the round status is broadcast
/// afresh, and the room reports closure once no active member remains.
pub open spec fn leave_post(
    pre: RoomView,
    post: RoomView,
    out: Seq<Outbound>,
    id: Seq<char>,
    closed: bool,
) -> bool {
    &&& post.name == pre.name
    &&& post.hashed_password == pre.hashed_password
    &&& post.scales == pre.scales
    &&& post.selected_scale_name == pre.selected_scale_name
    &&& post.active == (if has_uid(pre.active, id) {
        pre.active.remove(uid_index(pre.active, id))
    } else {
        pre.active
    })
    &&& post.passive == (if !has_uid(pre.active, id) && has_uid(pre.passive, id) {
        pre.passive.remove(uid_index(pre.passive, id))
    } else {
        pre.passive
    })
    &&& post.votes == pre.votes.remove(id)
    &&& out.len() == 2
    &&& (out[0] matches Outbound::ToMembers { recipients, msg } && recipient_ids(recipients)
        == member_ids_view(pre) && (
    msg matches ClientResponseMessage::UserLeft { room_name, user_id } && room_name@ == pre.name
        && user_id@ == id))
    &&& is_status_outbound(post, out[1])
    &&& closed == (post.active.len() == 0)
}

/// What voting does: once the round is complete the voter alone is told
/// `VotingOver`; a non-active participant is ignored; otherwise the vote is
/// recorded (overwriting any earlier one), the voter alone gets `OwnVote`,
/// and a first vote triggers the round-status broadcast.
pub open spec fn vote_post(
    pre: RoomView,
    post: RoomView,
    out: Seq<Outbound>,
    id: Seq<char>,
    size: Seq<char>,
) -> bool {
    if spec_round_complete(pre) {
        &&& post == pre
        &&& out.len() == 1
        &&& (out[0] matches Outbound::ToRequester { msg } && msg is VotingOver)
    } else if !has_uid(pre.active, id) {
        &&& post == pre
        &&& out.len() == 0
    } else {
        &&& post == RoomView { votes: pre.votes.insert(id, size), ..pre }
        &&& out.len() == (if pre.votes.dom().contains(id) {
            1nat
        } else {
            2nat
        })
        &&& (out[0] matches Outbound::ToRequester { msg } && (
        msg matches ClientResponseMessage::OwnVote { room_name, size: cast } && room_name@
            == pre.name && cast@ == size))
        &&& (!pre.votes.dom().contains(id) ==> is_status_outbound(post, out[1]))
    }
}

/// What a round reset does: a current member clears the vote map and everyone
/// hears `NewVote`; anyone else is ignored.
pub open spec fn new_vote_post(
    pre: RoomView,
    post: RoomView,
    out: Seq<Outbound>,
    id: Seq<char>,
) -> bool {
    if spec_in_room(pre, id) {
        &&& post == RoomView { votes: Map::empty(), ..pre }
        &&& out.len() == 1
        &&& (out[0] matches Outbound::ToMembers { recipients, msg } && recipient_ids(recipients)
            == member_ids_view(pre) && (
        msg matches ClientResponseMessage::NewVote { room_name } && room_name@ == pre.name))
    } else {
        &&& post == pre
        &&& out.len() == 0
    }
}

/// What a profile update does: the stored profile is replaced in whichever
/// membership holds the participant, and everyone hears `UserUpdated`; a
/// non-member's update is ignored.
pub open spec fn user_updated_post(
    pre: RoomView,
    post: RoomView,
    out: Seq<Outbound>,
    u: UserDataView,
) -> bool {
    if has_uid(pre.active, u.user_id) {
        &&& post == RoomView { active: pre.active.update(uid_index(pre.active, u.user_id), u), ..pre }
        &&& out.len() == 1
        &&& (out[0] matches Outbound::ToMembers { recipients, msg } && recipient_ids(recipients)
            == member_ids_view(post) && (
        msg matches ClientResponseMessage::UserUpdated { user } && user@ == u))
    } else if has_uid(pre.passive, u.user_id) {
        &&& post == RoomView {
            passive: pre.passive.update(uid_index(pre.passive, u.user_id), u),
            ..pre
        }
        &&& out.len() == 1
        &&& (out[0] matches Outbound::ToMembers { recipients, msg } && recipient_ids(recipients)
            == member_ids_view(post) && (
        msg matches ClientResponseMessage::UserUpdated { user } && user@ == u))
    } else {
        &&& post == pre
        &&& out.len() == 0
    }
}

/// One spotlight delivery: everyone is told which active member was picked.
pub open spec fn spotlight_msg(r: RoomView, i: int, o: Outbound) -> bool {
    o matches Outbound::ToMembers { recipients, msg } && recipient_ids(recipients)
        == member_ids_view(r) && (
    msg matches ClientResponseMessage::Randomized { room_name, selected_user_id } && room_name@
        == r.name && selected_user_id@ == r.active[i].user_id)
}

/// What the randomizer does: nothing on an empty active set; with one active
/// member, that member; otherwise some active member — which one is up to
/// the randomness, so only membership of the choice is promised.
pub open spec fn randomize_post(pre: RoomView, post: RoomView, out: Seq<Outbound>) -> bool {
    &&& post == pre
    &&& (pre.active.len() == 0 ==> out.len() == 0)
    &&& (pre.active.len() > 0 ==> out.len() == 1 && exists|i: int|
        0 <= i < pre.active.len() && spotlight_msg(pre, i, out[0]))
    &&& (pre.active.len() == 1 ==> out.len() == 1 && spotlight_msg(pre, 0, out[0]))
}

/// What a scale change does: a catalog key selects its scale and everyone
/// hears `ScaleChanged`; an unknown key changes nothing and nothing is sent.
pub open spec fn change_scale_post(
    pre: RoomView,
    post: RoomView,
    out: Seq<Outbound>,
    name: Seq<char>,
) -> bool {
    if has_scale(pre.scales, name) {
        &&& post == RoomView { selected_scale_name: name, ..pre }
        &&& out.len() == 1
        &&& (out[0] matches Outbound::ToMembers { recipients, msg } && recipient_ids(recipients)
            == member_ids_view(pre) && (
        msg matches ClientResponseMessage::ScaleChanged { room_name, selected_scale } && room_name@
            == pre.name && selected_scale@ == pre.scales[scale_index(pre.scales, name)]))
    } else {
        &&& post == pre
        &&& out.len() == 0
    }
}

/// One activity notice: everyone is told the participant's new standing.
pub open spec fn active_updated_msg(r: RoomView, id: Seq<char>, active: bool, o: Outbound) -> bool {
    o matches Outbound::ToMembers { recipients, msg } && recipient_ids(recipients)
        == member_ids_view(r) && (
    msg matches ClientResponseMessage::ActiveUpdated { room_name, user_id, active: now_active }
        && room_name@ == r.name && user_id@ == id && now_active == active)
}

/// What an activity toggle does: the participant moves between the two
/// memberships when the move applies; moving out of the active set drops any
/// pending vote and re-broadcasts the round status, since removing a voter
/// can complete the round or change who is pending. Everyone always hears
/// `ActiveUpdated`, even when nothing moved.
pub open spec fn update_active_post(
    pre: RoomView,
    post: RoomView,
    out: Seq<Outbound>,
    id: Seq<char>,
    active: bool,
) -> bool {
    if active {
        if has_uid(pre.passive, id) {
            &&& post == RoomView {
                active: pre.active.push(pre.passive[uid_index(pre.passive, id)]),
                passive: pre.passive.remove(uid_index(pre.passive, id)),
                ..pre
            }
            &&& out.len() == 1
            &&& active_updated_msg(post, id, true, out[0])
        } else {
            &&& post == pre
            &&& out.len() == 1
            &&& active_updated_msg(pre, id, true, out[0])
        }
    } else {
        if has_uid(pre.active, id) {
            &&& post == RoomView {
                active: pre.active.remove(uid_index(pre.active, id)),
                passive: pre.passive.push(pre.active[uid_index(pre.active, id)]),
                votes: pre.votes.remove(id),
                ..pre
            }
            &&& out.len() == 2
            &&& is_status_outbound(post, out[0])
            &&& active_updated_msg(post, id, false, out[1])
        } else {
            &&& post == pre
            &&& out.len() == 1
            &&& active_updated_msg(pre, id, false, out[0])
        }
    }
}

/// What one routed request does to a room, by request kind. The second
/// result of `RoomActor::handle` reports closure, which only leaving can
/// cause. Requests a room does not handle are dropped.
pub open spec fn room_step_post(
    pre: RoomView,
    post: RoomView,
    out: Seq<Outbound>,
    closed: bool,
    msg: RoomMessage,
) -> bool {
    match msg {
        RoomMessage::JoinRoom { password, password_is_hash, user, .. } => join_post(
            pre,
            post,
            out,
            password@,
            password_is_hash,
            user@,
        ) && !closed,
        RoomMessage::LeaveRoom { user_id, .. } => leave_post(pre, post, out, user_id@, closed),
        RoomMessage::Vote { user_id, size, .. } => vote_post(pre, post, out, user_id@, size@)
            && !closed,
        RoomMessage::NewVote { user_id, .. } => new_vote_post(pre, post, out, user_id@) && !closed,
        RoomMessage::UserUpdated { user } => user_updated_post(pre, post, out, user@) && !closed,
        RoomMessage::Randomize { .. } => randomize_post(pre, post, out) && !closed,
        RoomMessage::ChangeScale { selected_scale_name, .. } => change_scale_post(
            pre,
            post,
            out,
            selected_scale_name@,
        ) && !closed,
        RoomMessage::UpdateActive { user_id, active, .. } => update_active_post(
            pre,
            post,
            out,
            user_id@,
            active,
        ) && !closed,
        _ => post == pre && out.len() == 0 && !closed,
    }
}

/// The image of a room just created: the commitment of the supplied
/// password, no members, no votes, the fixed catalog, the default scale.
pub open spec fn fresh_room_view(
    name: Seq<char>,
    password: Seq<char>,
    password_is_hash: bool,
) -> RoomView {
    RoomView {
        name,
        hashed_password: spec_password_commitment(password, password_is_hash),
        active: Seq::empty(),
        passive: Seq::empty(),
        votes: Map::empty(),
        scales: spec_scale_catalog(),
        selected_scale_name: spec_default_scale_name(),
    }
}

/// Every request leaves a room's identity alone: its name, its password
/// commitment and its catalog are fixed for the room's lifetime; and a room
/// reports closure only with an empty active set.
pub proof fn lemma_room_step_fixed(
    pre: RoomView,
    post: RoomView,
    out: Seq<Outbound>,
    closed: bool,
    msg: RoomMessage,
)
    requires
        room_step_post(pre, post, out, closed, msg),
    ensures
        post.name == pre.name,
        post.hashed_password == pre.hashed_password,
        post.scales == pre.scales,
        closed ==> post.active.len() == 0,
{
}

/// The message a delivery carries, whoever it goes to.
pub open spec fn outbound_msg(o: Outbound) -> ClientResponseMessage {
    match o {
        Outbound::ToRequester { msg } => msg,
        Outbound::ToMembers { msg, .. } => msg,
    }
}

/// Law: in a well-formed room no participant is both active and passive, and
/// every key of the vote map belongs to an active member.
pub proof fn lemma_member_sets_disjoint(r: RoomView)
    requires
        room_wf(r),
    ensures
        forall|id: Seq<char>|
            #![trigger has_uid(r.active, id), has_uid(r.passive, id)]
            !(has_uid(r.active, id) && has_uid(r.passive, id)),
        forall|k: Seq<char>| #[trigger] r.votes.dom().contains(k) ==> has_uid(r.active, k),
{
    assert forall|id: Seq<char>|
        #![trigger has_uid(r.active, id), has_uid(r.passive, id)]
        !(has_uid(r.active, id) && has_uid(r.passive, id)) by {
        if has_uid(r.active, id) && has_uid(r.passive, id) {
            let i = choose|i: int| 0 <= i < r.active.len() && r.active[i].user_id == id;
            let j = choose|j: int| 0 <= j < r.passive.len() && r.passive[j].user_id == id;
            assert(r.active[i].user_id != r.passive[j].user_id);
        }
    }
}

/// Law: a round-status delivery is the full `VoteResults` exactly when the
/// vote map is as large as the active member set and that set is nonempty;
/// otherwise it is the booleans-only `VoteStatus`.
pub proof fn lemma_results_iff_complete(r: RoomView, o: Outbound)
    requires
        is_status_outbound(r, o),
    ensures
        outbound_msg(o) is VoteResults <==> (r.votes.dom().len() == r.active.len()
            && r.active.len() > 0),
        outbound_msg(o) is VoteStatus <==> !spec_round_complete(r),
{
}

/// Law: across every room operation, a delivery that carries vote values
/// (`VoteResults`) occurs only when the round is complete in the resulting
/// state — before completion, members only ever learn who has voted, never
/// what anyone voted.
pub proof fn lemma_vote_values_hidden(
    pre: RoomView,
    post: RoomView,
    out: Seq<Outbound>,
    closed: bool,
    msg: RoomMessage,
)
    requires
        room_step_post(pre, post, out, closed, msg),
    ensures
        forall|i: int|
            0 <= i < out.len() && #[trigger] outbound_msg(out[i]) is VoteResults
                ==> spec_round_complete(post),
{
    assert forall|i: int|
        0 <= i < out.len() && #[trigger] outbound_msg(out[i]) is VoteResults implies
        spec_round_complete(post) by {
        if !spec_round_complete(post) {
            match msg {
                RoomMessage::LeaveRoom { .. } => {
                    assert(outbound_msg(out[1]) is VoteStatus);
                    assert(i != 1);
                },
                RoomMessage::Vote { user_id, .. } => {
                    if !spec_round_complete(pre) && has_uid(pre.active, user_id@) && out.len()
                        == 2 {
                        assert(outbound_msg(out[1]) is VoteStatus);
                    }
                },
                RoomMessage::UpdateActive { user_id, active, .. } => {
                    if !active && has_uid(pre.active, user_id@) {
                        assert(outbound_msg(out[0]) is VoteStatus);
                    }
                },
                _ => {},
            }
        }
    }
}

/// Law: the vote that completes a round broadcasts the full results at once:
/// when the last pending active member casts a first vote, the second
/// delivery is `VoteResults`, and it carries exactly the room's vote map.
pub proof fn lemma_completing_vote_broadcasts_results(
    pre: RoomView,
    post: RoomView,
    out: Seq<Outbound>,
    id: Seq<char>,
    size: Seq<char>,
)
    requires
        room_wf(pre),
        vote_post(pre, post, out, id, size),
        !spec_round_complete(pre),
        has_uid(pre.active, id),
        !pre.votes.dom().contains(id),
        pre.votes.dom().len() + 1 == pre.active.len(),
    ensures
        out.len() == 2,
        outbound_msg(out[1]) is VoteResults,
        spec_round_complete(post),
{
    assert(post.votes.dom() =~= pre.votes.dom().insert(id));
    assert(post.votes.dom().len() == pre.votes.dom().len() + 1) by {
        vstd::set::axiom_set_insert_len(pre.votes.dom(), id);
    }
}

/// Law: a member's round reset leaves an empty vote map, so no earlier
/// completed round can resurface: with any active member present the round
/// is not complete afterwards, and a later status broadcast can only be the
/// booleans-only form.
pub proof fn lemma_new_round_resets(
    pre: RoomView,
    post: RoomView,
    out: Seq<Outbound>,
    id: Seq<char>,
)
    requires
        new_vote_post(pre, post, out, id),
        spec_in_room(pre, id),
    ensures
        post.votes == Map::<Seq<char>, Seq<char>>::empty(),
        post.active.len() > 0 ==> !spec_round_complete(post),
{
    assert(post.votes.dom() =~= Set::<Seq<char>>::empty());
    assert(post.votes.dom().len() == 0);
}

/// Law: deactivating a member who stands in the active set drops any vote of
/// theirs and re-broadcasts the round status of the resulting room, which
/// reflects only the remaining active members' votes.
pub proof fn lemma_deactivate_clears_vote(
    pre: RoomView,
    post: RoomView,
    out: Seq<Outbound>,
    id: Seq<char>,
)
    requires
        update_active_post(pre, post, out, id, false),
        has_uid(pre.active, id),
    ensures
        !post.votes.dom().contains(id),
        is_status_outbound(post, out[0]),
{
}

pub struct RoomActor {
    name: String,
    hashed_password: String,
    active_users: MemberMap,
    passive_users: MemberMap,
    votes: StrMap,
    scale_values: Vec<Scale>,
    selected_scale_name: String,
}

impl View for RoomActor {
    type V = RoomView;

    closed spec fn view(&self) -> RoomView {
        RoomView {
            name: self.name@,
            hashed_password: self.hashed_password@,
            active: self.active_users@,
            passive: self.passive_users@,
            votes: self.votes@,
            scales: scale_seq_view(self.scale_values@),
            selected_scale_name: self.selected_scale_name@,
        }
    }
}

impl RoomActor {
    /// The room invariant, together with the vote container's own.
    pub open spec fn wf(&self) -> bool {
        &&& self.votes_ok()
        &&& room_wf(self@)
    }

    /// The vote container's internal soundness.
    pub closed spec fn votes_ok(&self) -> bool {
        self.votes.wf()
    }

    /// A fresh room: the commitment of the supplied password, no members, no
    /// votes, the fixed catalog, and the default scale.
    pub fn new(name: String, password: String, password_is_hash: bool) -> (r: RoomActor)
        ensures
            r.wf(),
            r@ == fresh_room_view(name@, password@, password_is_hash),
    {
        let hashed_password = compute_password(password, password_is_hash);
        let r = RoomActor {
            name,
            hashed_password,
            active_users: MemberMap::new(),
            passive_users: MemberMap::new(),
            votes: StrMap::new(),
            scale_values: scale_catalog(),
            selected_scale_name: "fibonacci".to_owned(),
        };
        proof {
            assert(r@.scales =~= spec_scale_catalog());
            assert(r@.scales[0].name == r@.selected_scale_name);
        }
        r
    }

    /// The participant is in the room, actively or passively.
    pub fn in_room(&self, user_id: &String) -> (r: bool)
        ensures
            r == spec_in_room(self@, user_id@),
    {
        self.active_users.contains(user_id) || self.passive_users.contains(user_id)
    }

    /// Derives round completion from the current sizes.
    pub fn voting_over(&self) -> (r: bool)
        requires
            self.wf(),
        ensures
            r == spec_round_complete(self@),
    {
        self.votes.len() == self.active_users.len() && self.active_users.len() > 0
    }

    /// Everyone currently in the room, active members first.
    fn member_ids(&self) -> (r: Vec<String>)
        ensures
            recipient_ids(r) == member_ids_view(self@),
    {
        let mut r = self.active_users.id_list();
        let mut passive = self.passive_users.id_list();
        r.append(&mut passive);
        proof {
            assert(recipient_ids(r) =~= member_ids_view(self@));
        }
        r
    }

    /// Who has voted, per active member.
    fn vote_status_list(&self) -> (r: Vec<(String, bool)>)
        requires
            self.wf(),
        ensures
            status_pair_view(r@) == vote_status_pairs(self@),
    {
        let ids = self.active_users.id_list();
        let mut r: Vec<(String, bool)> = Vec::new();
        let mut i: usize = 0;
        while i < ids.len()
            invariant
                self.wf(),
                i <= ids@.len(),
                ids@.len() == self@.active.len(),
                forall|j: int| 0 <= j < ids@.len() ==> ids@[j]@ == self@.active[j].user_id,
                status_pair_view(r@) =~= vote_status_pairs(self@).take(i as int),
            decreases ids@.len() - i,
        {
            let has_voted = self.votes.contains_key(&ids[i]);
            let ghost prev = r@;
            r.push((ids[i].clone(), has_voted));
            proof {
                let pairs = vote_status_pairs(self@);
                assert(r@ == prev.push((r@.last().0, has_voted)));
                assert(status_pair_view(r@) =~= status_pair_view(prev).push(
                    (r@.last().0@, has_voted),
                ));
                assert(r@.last().0@ == self@.active[i as int].user_id);
                assert(pairs.take(i + 1) =~= pairs.take(i as int).push(pairs[i as int]));
                assert(status_pair_view(r@) =~= pairs.take(i + 1));
            }
            i += 1;
        }
        proof {
            assert(vote_status_pairs(self@).take(ids@.len() as int) =~= vote_status_pairs(self@));
        }
        r
    }

    /// Admits the participant, or tells the requester why not.
    pub fn join_room(&mut self, password: String, password_is_hash: bool, user: UserData) -> (out:
        Vec<Outbound>)
        requires
            old(self).wf(),
        ensures
            final(self).wf(),
            join_post(old(self)@, final(self)@, out@, password@, password_is_hash, user@),
    {
        let hashed_password = compute_password(password, password_is_hash);
        let mut out: Vec<Outbound> = Vec::new();
        if self.in_room(&user.user_id) {
            let msg = ClientResponseMessage::AlreadyInRoom { room_name: self.name.clone() };
            out.push(Outbound::ToRequester { msg });
        } else if !(self.hashed_password == hashed_password) {
            let msg = ClientResponseMessage::WrongPassword { room_name: self.name.clone() };
            out.push(Outbound::ToRequester { msg });
        } else {
            let recipients = self.member_ids();
            let msg = ClientResponseMessage::UserJoined {
                room_name: self.name.clone(),
                user: user.clone(),
            };
            out.push(Outbound::ToMembers { recipients, msg });
            let votes_cast = self.votes.len();
            proof {
                lemma_push_uid(self@.active, user@);
            }
            self.active_users.insert(user);
            let mut users = self.active_users.user_list();
            let mut passive_users = self.passive_users.user_list();
            users.append(&mut passive_users);
            proof {
                assert(user_seq_view(users@) =~= self@.active + self@.passive);
            }
            let scale_values = self.scale_values.clone();
            proof {
                assert(scale_seq_view(scale_values@) =~= scale_seq_view(self.scale_values@));
            }
            let msg = ClientResponseMessage::RoomJoined {
                room_name: self.name.clone(),
                hashed_password: self.hashed_password.clone(),
                users,
                votes_cast,
                scale_values,
                selected_scale_name: self.selected_scale_name.clone(),
            };
            out.push(Outbound::ToRequester { msg });
        }
        out
    }

    /// Removes the participant and re-evaluates the round; the second result
    /// reports whether the active set emptied, upon which the room closes.
    pub fn leave_room(&mut self, user_id: String) -> (r: (Vec<Outbound>, bool))
        requires
            old(self).wf(),
        ensures
            final(self).wf(),
            leave_post(old(self)@, final(self)@, r.0@, user_id@, r.1),
    {
        let mut out: Vec<Outbound> = Vec::new();
        let recipients = self.member_ids();
        let msg = ClientResponseMessage::UserLeft {
            room_name: self.name.clone(),
            user_id: user_id.clone(),
        };
        out.push(Outbound::ToMembers { recipients, msg });
        if self.active_users.contains(&user_id) {
            proof {
                lemma_uid_index(self@.active, user_id@);
                lemma_remove_uid(self@.active, uid_index(self@.active, user_id@));
            }
            let _ = self.active_users.remove(&user_id);
        } else if self.passive_users.contains(&user_id) {
            proof {
                lemma_uid_index(self@.passive, user_id@);
                lemma_remove_uid(self@.passive, uid_index(self@.passive, user_id@));
            }
            let _ = self.passive_users.remove(&user_id);
        }
        self.votes.remove(&user_id);
        proof {
            assert(room_wf(self@));
        }
        out.push(self.send_vote_info());
        let closed = self.active_users.is_empty();
        (out, closed)
    }

    /// Records an estimate for the current round.
    pub fn vote(&mut self, user_id: String, size: String) -> (out: Vec<Outbound>)
        requires
            old(self).wf(),
        ensures
            final(self).wf(),
            vote_post(old(self)@, final(self)@, out@, user_id@, size@),
    {
        let mut out: Vec<Outbound> = Vec::new();
        if self.voting_over() {
            out.push(Outbound::ToRequester { msg: ClientResponseMessage::VotingOver });
        } else if self.active_users.contains(&user_id) {
            let already_voted = self.votes.contains_key(&user_id);
            let msg = ClientResponseMessage::OwnVote {
                room_name: self.name.clone(),
                size: size.clone(),
            };
            out.push(Outbound::ToRequester { msg });
            self.votes.insert(user_id, size);
            if !already_voted {
                out.push(self.send_vote_info());
            }
        }
        out
    }

    /// Starts a fresh round: clears the votes and tells every member.
    pub fn new_vote(&mut self, user_id: String) -> (out: Vec<Outbound>)
        requires
            old(self).wf(),
        ensures
            final(self).wf(),
            new_vote_post(old(self)@, final(self)@, out@, user_id@),
    {
        let mut out: Vec<Outbound> = Vec::new();
        if self.in_room(&user_id) {
            let recipients = self.member_ids();
            self.votes = StrMap::new();
            let msg = ClientResponseMessage::NewVote { room_name: self.name.clone() };
            out.push(Outbound::ToMembers { recipients, msg });
        }
        out
    }

    /// Replaces the stored profile of the participant, wherever they stand.
    pub fn user_updated(&mut self, user: UserData) -> (out: Vec<Outbound>)
        requires
            old(self).wf(),
        ensures
            final(self).wf(),
            user_updated_post(old(self)@, final(self)@, out@, user@),
    {
        let mut out: Vec<Outbound> = Vec::new();
        proof {
            if has_uid(self@.active, user@.user_id) {
                lemma_uid_index(self@.active, user@.user_id);
                lemma_update_uid(self@.active, uid_index(self@.active, user@.user_id), user@);
            } else if has_uid(self@.passive, user@.user_id) {
                lemma_uid_index(self@.passive, user@.user_id);
                lemma_update_uid(self@.passive, uid_index(self@.passive, user@.user_id), user@);
            }
        }
        if self.active_users.update(&user) {
            proof {
                assert(id_seq(self@.active) == id_seq(old(self)@.active));
                assert(forall|i: int|
                    0 <= i < self@.active.len() ==> self@.active[i].user_id == old(
                        self,
                    )@.active[i].user_id);
            }
            let recipients = self.member_ids();
            let msg = ClientResponseMessage::UserUpdated { user };
            out.push(Outbound::ToMembers { recipients, msg });
        } else if self.passive_users.update(&user) {
            proof {
                assert(id_seq(self@.passive) == id_seq(old(self)@.passive));
                assert(forall|i: int|
                    0 <= i < self@.passive.len() ==> self@.passive[i].user_id == old(
                        self,
                    )@.passive[i].user_id);
            }
            let recipients = self.member_ids();
            let msg = ClientResponseMessage::UserUpdated { user };
            out.push(Outbound::ToMembers { recipients, msg });
        }
        out
    }

    /// Relies on rand::random_range over `0..n`: for a nonempty range the
    /// sampled value lies in the range.
    #[verifier::external_body]
    fn random_below(n: usize) -> (r: usize)
        requires
            n > 0,
        ensures
            r < n,
    {
        rand::random_range(0..n)
    }

    /// Puts the spotlight on one active member, chosen at random; which one
    /// comes back is settled only by the randomness, so the contract promises
    /// membership of the choice, and the single possible choice when only one
    /// member is active.
    pub fn randomize(&self) -> (out: Vec<Outbound>)
        ensures
            randomize_post(self@, self@, out@),
    {
        let mut out: Vec<Outbound> = Vec::new();
        let n = self.active_users.len();
        if n > 0 {
            let mut user_index: usize = 0;
            if n > 1 {
                user_index = Self::random_below(n);
            }
            let selected = self.active_users.member_at(user_index);
            let msg = ClientResponseMessage::Randomized {
                room_name: self.name.clone(),
                selected_user_id: selected.user_id.clone(),
            };
            let recipients = self.member_ids();
            out.push(Outbound::ToMembers { recipients, msg });
            proof {
                assert(spotlight_msg(self@, user_index as int, out@[0]));
            }
        }
        out
    }

    /// Selects the named scale from the catalog; unknown names are dropped.
    pub fn change_scale(&mut self, selected_scale_name: String) -> (out: Vec<Outbound>)
        requires
            old(self).wf(),
        ensures
            final(self).wf(),
            change_scale_post(old(self)@, final(self)@, out@, selected_scale_name@),
    {
        let mut out: Vec<Outbound> = Vec::new();
        let mut i: usize = 0;
        let ghost scales = self@.scales;
        while i < self.scale_values.len()
            invariant
                old(self) == self,
                self.wf(),
                out@.len() == 0,
                scales == self@.scales,
                i <= self.scale_values@.len(),
                scales.len() == self.scale_values@.len(),
                forall|j: int| 0 <= j < i ==> scales[j].name != selected_scale_name@,
            decreases self.scale_values@.len() - i,
        {
            assert(scales[i as int] == self.scale_values@[i as int]@);
            if self.scale_values[i].name == selected_scale_name {
                proof {
                    lemma_catalog_distinct();
                    let j = scale_index(scales, selected_scale_name@);
                    assert(scales[j].name == selected_scale_name@);
                    assert(j == i as int);
                }
                let selected_scale = self.scale_values[i].clone();
                self.selected_scale_name = selected_scale_name;
                let recipients = self.member_ids();
                let msg = ClientResponseMessage::ScaleChanged {
                    room_name: self.name.clone(),
                    selected_scale,
                };
                out.push(Outbound::ToMembers { recipients, msg });
                return out;
            }
            i += 1;
        }
        proof {
            assert(!has_scale(scales, selected_scale_name@));
        }
        out
    }

    /// Moves the participant between the active and passive memberships.
    pub fn update_active(&mut self, user_id: String, active: bool) -> (out: Vec<Outbound>)
        requires
            old(self).wf(),
        ensures
            final(self).wf(),
            update_active_post(old(self)@, final(self)@, out@, user_id@, active),
    {
        let mut out: Vec<Outbound> = Vec::new();
        if active {
            if self.passive_users.contains(&user_id) {
                proof {
                    lemma_uid_index(self@.passive, user_id@);
                    lemma_remove_uid(self@.passive, uid_index(self@.passive, user_id@));
                    lemma_push_uid(self@.active, self@.passive[uid_index(self@.passive, user_id@)]);
                }
                let moved = self.passive_users.remove(&user_id);
                match moved {
                    Some(u) => {
                        self.active_users.insert(u);
                    },
                    None => {
                        proof {
                            assert(false);
                        }
                    },
                }
            }
        } else {
            if self.active_users.contains(&user_id) {
                proof {
                    lemma_uid_index(self@.active, user_id@);
                    lemma_remove_uid(self@.active, uid_index(self@.active, user_id@));
                    lemma_push_uid(self@.passive, self@.active[uid_index(self@.active, user_id@)]);
                }
                let moved = self.active_users.remove(&user_id);
                match moved {
                    Some(u) => {
                        self.passive_users.insert(u);
                    },
                    None => {
                        proof {
                            assert(false);
                        }
                    },
                }
                self.votes.remove(&user_id);
                proof {
                    assert(room_wf(self@));
                }
                out.push(self.send_vote_info());
            }
        }
        let recipients = self.member_ids();
        let msg = ClientResponseMessage::ActiveUpdated {
            room_name: self.name.clone(),
            user_id,
            active,
        };
        out.push(Outbound::ToMembers { recipients, msg });
        out
    }

    /// Applies one routed request to the room. The second result reports
    /// whether the room closed (its active set emptied on a departure);
    /// the caller then retires the room.
    pub fn handle(&mut self, msg: RoomMessage) -> (r: (Vec<Outbound>, bool))
        requires
            old(self).wf(),
        ensures
            final(self).wf(),
            room_step_post(old(self)@, final(self)@, r.0@, r.1, msg),
    {
        match msg {
            RoomMessage::JoinRoom { password, password_is_hash, user, .. } => {
                (self.join_room(password, password_is_hash, user), false)
            },
            RoomMessage::LeaveRoom { user_id, .. } => self.leave_room(user_id),
            RoomMessage::Vote { user_id, size, .. } => (self.vote(user_id, size), false),
            RoomMessage::NewVote { user_id, .. } => (self.new_vote(user_id), false),
            RoomMessage::UserUpdated { user } => (self.user_updated(user), false),
            RoomMessage::Randomize { .. } => (self.randomize(), false),
            RoomMessage::ChangeScale { selected_scale_name, .. } => {
                (self.change_scale(selected_scale_name), false)
            },
            RoomMessage::UpdateActive { user_id, active, .. } => {
                (self.update_active(user_id, active), false)
            },
            _ => (Vec::new(), false),
        }
    }

    /// The round-status broadcast: results when complete, booleans otherwise.
    fn send_vote_info(&self) -> (r: Outbound)
        requires
            self.wf(),
        ensures
            is_status_outbound(self@, r),
    {
        let recipients = self.member_ids();
        let room_name = self.name.clone();
        if self.voting_over() {
            let votes = self.votes.to_pairs();
            Outbound::ToMembers {
                recipients,
                msg: ClientResponseMessage::VoteResults { room_name, votes },
            }
        } else {
            let votes = self.vote_status_list();
            Outbound::ToMembers {
                recipients,
                msg: ClientResponseMessage::VoteStatus { room_name, votes },
            }
        }
    }
}

} // verus!
