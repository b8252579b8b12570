//! The room directory: the process-wide registry of active rooms and of
//! which room each participant occupies. It validates room names, creates a
//! room on the first join for an unknown name, enforces one room membership
//! per participant, routes per-room requests, and retires a room (with any
//! dangling participant assignments) when the room reports closure.

use crate::assoc::{
    assoc_map, distinct_keys, lemma_assoc_map_dom, lemma_assoc_map_index, lemma_assoc_map_push,
    lemma_assoc_map_remove,
};
use crate::protocol::{ClientResponseMessage, Outbound, RoomMessage};
use crate::member::has_uid;
use crate::room::{
    fresh_room_view, join_post, leave_post, lemma_room_step_fixed, outbound_msg, room_step_post,
    room_wf, spec_in_room, RoomActor, RoomView,
};
use crate::strmap::{without_value, StrMap};
use crate::user::{UserData, UserDataView};
use vstd::prelude::*;

verus! {

/// A room name is 1 to 50 characters, each a letter, hyphen or underscore.
pub open spec fn valid_room_char(c: char) -> bool {
    c == '-' || c == '_' || ('a' <= c && c <= 'z') || ('A' <= c && c <= 'Z')
}

pub open spec fn valid_room_name(s: Seq<char>) -> bool {
    1 <= s.len() <= 50 && forall|i: int| 0 <= i < s.len() ==> valid_room_char(s[i])
}

/// Relies on regex::Regex::is_match with the anchored pattern
/// `^[-_a-zA-Z]{1,50}$`: a haystack matches exactly when it consists of 1 to
/// 50 characters, each a letter, hyphen or underscore. The pattern is a fixed
/// valid literal, so compiling it cannot fail.
#[verifier::external_body]
fn is_valid_room_name(name: &str) -> (r: bool)
    ensures
        r == valid_room_name(name@),
{
    regex::Regex::new(r"^[-_a-zA-Z]{1,50}$").unwrap().is_match(name)
}

/// The rooms of the directory, keyed by name.
struct RoomTable {
    entries: Vec<(String, RoomActor)>,
}

impl RoomTable {
    spec fn entry_seq(self) -> Seq<(Seq<char>, RoomView)> {
        self.entries@.map_values(|p: (String, RoomActor)| (p.0@, p.1@))
    }

    spec fn as_map(self) -> Map<Seq<char>, RoomView> {
        assoc_map(self.entry_seq())
    }

    spec fn wf(self) -> bool {
        &&& distinct_keys(self.entry_seq())
        &&& forall|i: int| 0 <= i < self.entries@.len() ==> (#[trigger] self.entries@[i].1).wf()
    }

    fn new() -> (r: RoomTable)
        ensures
            r.wf(),
            r.as_map() == Map::<Seq<char>, RoomView>::empty(),
    {
        let r = RoomTable { entries: Vec::new() };
        proof {
            assert(r.entry_seq() =~= Seq::<(Seq<char>, RoomView)>::empty());
        }
        r
    }

    /// Takes the named room out of the table.
    fn remove_take(&mut self, key: &String) -> (r: Option<RoomActor>)
        requires
            old(self).wf(),
        ensures
            final(self).wf(),
            match r {
                Some(room) => old(self).as_map().dom().contains(key@) && room@ == old(
                    self,
                ).as_map()[key@] && room.wf() && final(self).as_map() == old(self).as_map().remove(
                    key@,
                ),
                None => !old(self).as_map().dom().contains(key@) && *final(self) == *old(self),
            },
    {
        let ghost s = self.entry_seq();
        let mut i: usize = 0;
        while i < self.entries.len()
            invariant
                *self == *old(self),
                old(self).wf(),
                i <= self.entries@.len(),
                s == self.entry_seq(),
                forall|j: int| 0 <= j < i ==> s[j].0 != key@,
            decreases self.entries@.len() - i,
        {
            if self.entries[i].0 == *key {
                proof {
                    lemma_assoc_map_index(s, i as int);
                    lemma_assoc_map_remove(s, i as int);
                }
                let pair = self.entries.remove(i);
                proof {
                    assert(self.entry_seq() =~= s.remove(i as int));
                    assert forall|j: int| 0 <= j < self.entries@.len() implies (
                    #[trigger] self.entries@[j].1).wf() by {
                        if j < i {
                            assert(self.entries@[j] == old(self).entries@[j]);
                        } else {
                            assert(self.entries@[j] == old(self).entries@[j + 1]);
                        }
                    }
                }
                return Some(pair.1);
            }
            i += 1;
        }
        proof {
            lemma_assoc_map_dom(s, key@);
        }
        None
    }

    /// Adds a room under a name not yet present.
    fn insert(&mut self, key: String, room: RoomActor)
        requires
            old(self).wf(),
            !old(self).as_map().dom().contains(key@),
            room.wf(),
        ensures
            final(self).wf(),
            final(self).as_map() == old(self).as_map().insert(key@, room@),
    {
        let ghost s = self.entry_seq();
        proof {
            lemma_assoc_map_push(s, key@, room@);
            lemma_assoc_map_dom(s, key@);
        }
        self.entries.push((key, room));
        proof {
            assert(self.entry_seq() =~= s.push(
                (self.entries@.last().0@, self.entries@.last().1@),
            ));
            assert forall|j: int| 0 <= j < self.entries@.len() implies (
            #[trigger] self.entries@[j].1).wf() by {
                if j < self.entries@.len() - 1 {
                    assert(self.entries@[j] == old(self).entries@[j]);
                }
            }
        }
    }
}

/// Mathematical image of the directory: the rooms by name, and each
/// participant's current room.
pub ghost struct DirectoryView {
    pub rooms: Map<Seq<char>, RoomView>,
    pub user_room: Map<Seq<char>, Seq<char>>,
}

/// The directory invariant: every room is well-formed and filed under its own
/// name, and every participant assignment points at a room that exists.
pub open spec fn directory_wf(d: DirectoryView) -> bool {
    &&& forall|k: Seq<char>|
        #![trigger d.rooms.dom().contains(k)]
        d.rooms.dom().contains(k) ==> room_wf(d.rooms[k]) && d.rooms[k].name == k
    &&& forall|u: Seq<char>|
        #![trigger d.user_room.dom().contains(u)]
        d.user_room.dom().contains(u) ==> d.rooms.dom().contains(d.user_room[u])
}

/// Retiring a room with every assignment pointing at it keeps the directory
/// invariant.
proof fn lemma_directory_wf_retire(
    rooms: Map<Seq<char>, RoomView>,
    ur: Map<Seq<char>, Seq<char>>,
    name: Seq<char>,
)
    requires
        directory_wf(DirectoryView { rooms, user_room: ur }),
    ensures
        directory_wf(
            DirectoryView { rooms: rooms.remove(name), user_room: without_value(ur, name) },
        ),
{
    let d0 = DirectoryView { rooms, user_room: ur };
    assert(d0.rooms == rooms && d0.user_room == ur);
    let post = DirectoryView { rooms: rooms.remove(name), user_room: without_value(ur, name) };
    assert forall|k: Seq<char>| #[trigger] post.rooms.dom().contains(k) implies room_wf(
        post.rooms[k],
    ) && post.rooms[k].name == k by {
        assert(k != name);
        assert(d0.rooms.dom().contains(k));
        assert(post.rooms[k] == rooms[k]);
    }
    assert forall|u: Seq<char>| #[trigger] post.user_room.dom().contains(u) implies
        post.rooms.dom().contains(post.user_room[u]) by {
        assert(d0.user_room.dom().contains(u));
        assert(post.user_room[u] == ur[u]);
        assert(ur[u] != name);
        assert(d0.rooms.dom().contains(ur[u]) || !d0.user_room.dom().contains(u));
    }
}

/// Replacing or adding a well-formed room filed under its own name keeps the
/// directory invariant.
proof fn lemma_directory_wf_insert(
    rooms: Map<Seq<char>, RoomView>,
    ur: Map<Seq<char>, Seq<char>>,
    name: Seq<char>,
    r1: RoomView,
)
    requires
        directory_wf(DirectoryView { rooms, user_room: ur }),
        room_wf(r1),
        r1.name == name,
    ensures
        directory_wf(DirectoryView { rooms: rooms.insert(name, r1), user_room: ur }),
{
    let d0 = DirectoryView { rooms, user_room: ur };
    assert(d0.rooms == rooms && d0.user_room == ur);
    let post = DirectoryView { rooms: rooms.insert(name, r1), user_room: ur };
    assert forall|k: Seq<char>| #[trigger] post.rooms.dom().contains(k) implies room_wf(
        post.rooms[k],
    ) && post.rooms[k].name == k by {
        if k != name {
            assert(d0.rooms.dom().contains(k));
            assert(post.rooms[k] == rooms[k]);
        }
    }
    assert forall|u: Seq<char>| #[trigger] post.user_room.dom().contains(u) implies
        post.rooms.dom().contains(post.user_room[u]) by {
        assert(d0.user_room.dom().contains(u));
        assert(d0.rooms.dom().contains(ur[u]));
    }
}

/// Dropping one participant assignment keeps the directory invariant.
proof fn lemma_directory_wf_unassign(
    rooms: Map<Seq<char>, RoomView>,
    ur: Map<Seq<char>, Seq<char>>,
    uid: Seq<char>,
)
    requires
        directory_wf(DirectoryView { rooms, user_room: ur }),
    ensures
        directory_wf(DirectoryView { rooms, user_room: ur.remove(uid) }),
{
    let d0 = DirectoryView { rooms, user_room: ur };
    assert(d0.rooms == rooms && d0.user_room == ur);
    let post = DirectoryView { rooms, user_room: ur.remove(uid) };
    assert forall|u: Seq<char>| #[trigger] post.user_room.dom().contains(u) implies
        post.rooms.dom().contains(post.user_room[u]) by {
        assert(d0.user_room.dom().contains(u));
    }
}

/// What a join attempt does at the directory: a malformed name is refused at
/// once; a participant assigned to a different room is refused; otherwise the
/// room is created if absent (so a fresh room carries the supplied password),
/// the participant is assigned to the name, and the room itself rules on
/// admission as `join_post` says.
pub open spec fn dir_join_post(
    pre: DirectoryView,
    post: DirectoryView,
    out: Seq<Outbound>,
    room_name: Seq<char>,
    password: Seq<char>,
    password_is_hash: bool,
    u: UserDataView,
) -> bool {
    if !valid_room_name(room_name) {
        &&& post == pre
        &&& out.len() == 1
        &&& (out[0] matches Outbound::ToRequester { msg } && msg is InvalidRoomName)
    } else if pre.user_room.dom().contains(u.user_id) && pre.user_room[u.user_id] != room_name {
        &&& post == pre
        &&& out.len() == 1
        &&& (out[0] matches Outbound::ToRequester { msg } && msg is CannotJoinMultipleRooms)
    } else {
        exists|r1: RoomView|
            {
                &&& #[trigger] join_post(
                    existing_or_fresh(pre, room_name, password, password_is_hash),
                    r1,
                    out,
                    password,
                    password_is_hash,
                    u,
                )
                &&& post.rooms == pre.rooms.insert(room_name, r1)
                &&& post.user_room == pre.user_room.insert(u.user_id, room_name)
            }
    }
}

/// The room a join lands in: the existing one, or a fresh one carrying the
/// supplied password.
pub open spec fn existing_or_fresh(
    pre: DirectoryView,
    room_name: Seq<char>,
    password: Seq<char>,
    password_is_hash: bool,
) -> RoomView {
    if pre.rooms.dom().contains(room_name) {
        pre.rooms[room_name]
    } else {
        fresh_room_view(room_name, password, password_is_hash)
    }
}

/// What routing one request to a named room does: nothing when the name is
/// unknown; otherwise the room takes the step, and a room that closed is
/// retired together with every assignment pointing at it.
pub open spec fn dir_route_post(
    pre: DirectoryView,
    post: DirectoryView,
    out: Seq<Outbound>,
    room_name: Seq<char>,
    msg: RoomMessage,
) -> bool {
    if pre.rooms.dom().contains(room_name) {
        exists|r1: RoomView, closed: bool|
            {
                &&& #[trigger] room_step_post(pre.rooms[room_name], r1, out, closed, msg)
                &&& post.rooms == (if closed {
                    pre.rooms.remove(room_name)
                } else {
                    pre.rooms.insert(room_name, r1)
                })
                &&& post.user_room == (if closed {
                    without_value(pre.user_room, room_name)
                } else {
                    pre.user_room
                })
            }
    } else {
        &&& post == pre
        &&& out.len() == 0
    }
}

/// What a departure does at the directory: the participant's assignment is
/// dropped whatever it pointed at, and the named room, if it exists, takes
/// the leave step; a room whose active set emptied is retired with every
/// assignment pointing at it.
pub open spec fn dir_leave_post(
    pre: DirectoryView,
    post: DirectoryView,
    out: Seq<Outbound>,
    uid: Seq<char>,
    room_name: Seq<char>,
) -> bool {
    let mid = pre.user_room.remove(uid);
    if pre.rooms.dom().contains(room_name) {
        exists|r1: RoomView, closed: bool|
            {
                &&& #[trigger] leave_post(pre.rooms[room_name], r1, out, uid, closed)
                &&& post.rooms == (if closed {
                    pre.rooms.remove(room_name)
                } else {
                    pre.rooms.insert(room_name, r1)
                })
                &&& post.user_room == (if closed {
                    without_value(mid, room_name)
                } else {
                    mid
                })
            }
    } else {
        &&& post.rooms == pre.rooms
        &&& post.user_room == mid
        &&& out.len() == 0
    }
}

/// The process-wide registry of rooms and participant-to-room assignment.
/// Requests are applied one at a time, which is what makes the exists-versus-
/// create and one-room-per-participant checks race-free.
pub struct RoomManagerActor {
    rooms: RoomTable,
    user_room_map: StrMap,
}

impl View for RoomManagerActor {
    type V = DirectoryView;

    closed spec fn view(&self) -> DirectoryView {
        DirectoryView { rooms: self.rooms.as_map(), user_room: self.user_room_map@ }
    }
}

impl RoomManagerActor {
    /// The directory invariant, together with its containers' own.
    pub open spec fn wf(&self) -> bool {
        &&& self.tables_ok()
        &&& directory_wf(self@)
    }

    /// The containers' internal soundness.
    pub closed spec fn tables_ok(&self) -> bool {
        &&& self.rooms.wf()
        &&& self.user_room_map.wf()
    }

    /// An empty directory.
    pub fn new() -> (r: RoomManagerActor)
        ensures
            r.wf(),
            r@.rooms == Map::<Seq<char>, RoomView>::empty(),
            r@.user_room == Map::<Seq<char>, Seq<char>>::empty(),
    {
        RoomManagerActor { rooms: RoomTable::new(), user_room_map: StrMap::new() }
    }

    /// Admits the participant into the named room, creating the room on the
    /// first join for an unknown (valid) name.
    #[verifier::rlimit(50)]
    pub fn join_room(
        &mut self,
        room_name: String,
        password: String,
        password_is_hash: bool,
        user: UserData,
    ) -> (out: Vec<Outbound>)
        requires
            old(self).wf(),
        ensures
            final(self).wf(),
            dir_join_post(
                old(self)@,
                final(self)@,
                out@,
                room_name@,
                password@,
                password_is_hash,
                user@,
            ),
    {
        if !is_valid_room_name(room_name.as_str()) {
            let mut out: Vec<Outbound> = Vec::new();
            out.push(Outbound::ToRequester { msg: ClientResponseMessage::InvalidRoomName });
            return out;
        }
        let mapped_other = match self.user_room_map.get(&user.user_id) {
            Some(mapped) => !(*mapped == room_name),
            None => false,
        };
        if mapped_other {
            let mut out: Vec<Outbound> = Vec::new();
            out.push(
                Outbound::ToRequester { msg: ClientResponseMessage::CannotJoinMultipleRooms },
            );
            return out;
        }
        let ghost pre = self@;
        let ghost uv = user@;
        proof {
            assert(!(pre.user_room.dom().contains(uv.user_id) && pre.user_room[uv.user_id]
                != room_name@));
        }
        let mut room = match self.rooms.remove_take(&room_name) {
            Some(room) => room,
            None => RoomActor::new(room_name.clone(), password.clone(), password_is_hash),
        };
        let ghost r0 = room@;
        proof {
            if pre.rooms.dom().contains(room_name@) {
                assert(r0 == pre.rooms[room_name@]);
            }
            assert(r0.name == room_name@);
        }
        let user_id = user.user_id.clone();
        let out = room.join_room(password, password_is_hash, user);
        let ghost r1 = room@;
        self.rooms.insert(room_name.clone(), room);
        self.user_room_map.insert(user_id, room_name);
        proof {
            assert(join_post(r0, r1, out@, password@, password_is_hash, uv));
            assert(r1.name == room_name@);
            assert(self@.rooms =~= pre.rooms.insert(room_name@, r1));
            assert(self@.user_room == pre.user_room.insert(uv.user_id, room_name@));
            assert forall|k: Seq<char>| #[trigger] self@.rooms.dom().contains(k) implies room_wf(
                self@.rooms[k],
            ) && self@.rooms[k].name == k by {
                if k == room_name@ {
                    assert(self@.rooms[k] == r1);
                } else {
                    assert(pre.rooms.dom().contains(k));
                    assert(self@.rooms[k] == pre.rooms[k]);
                }
            }
            assert forall|u2: Seq<char>| #[trigger] self@.user_room.dom().contains(u2) implies
                self@.rooms.dom().contains(self@.user_room[u2]) by {
                if u2 == uv.user_id {
                    assert(self@.user_room[u2] == room_name@);
                } else {
                    assert(pre.user_room.dom().contains(u2));
                    assert(self@.user_room[u2] == pre.user_room[u2]);
                    assert(pre.rooms.dom().contains(pre.user_room[u2]));
                }
            }
            assert(directory_wf(self@));
            assert(valid_room_name(room_name@));
            assert(!(pre.user_room.dom().contains(uv.user_id) && pre.user_room[uv.user_id]
                != room_name@));
            assert(r0 == existing_or_fresh(pre, room_name@, password@, password_is_hash));
            assert(join_post(
                existing_or_fresh(pre, room_name@, password@, password_is_hash),
                r1,
                out@,
                password@,
                password_is_hash,
                uv,
            ));
            assert(dir_join_post(pre, self@, out@, room_name@, password@, password_is_hash, uv));
        }
        out
    }

    /// Routes one request to the named room, if it exists; a room that closed
    /// is retired together with every assignment pointing at it. Requests to
    /// unknown rooms are dropped.
    pub fn forward(&mut self, room_name: String, msg: RoomMessage) -> (out: Vec<Outbound>)
        requires
            old(self).wf(),
        ensures
            final(self).wf(),
            dir_route_post(old(self)@, final(self)@, out@, room_name@, msg),
    {
        let ghost pre = self@;
        match self.rooms.remove_take(&room_name) {
            None => Vec::new(),
            Some(mut room) => {
                let ghost r0 = room@;
                proof {
                    assert(pre.rooms.dom().contains(room_name@));
                    assert(r0.name == room_name@);
                }
                let (out, closed) = room.handle(msg);
                proof {
                    lemma_room_step_fixed(r0, room@, out@, closed, msg);
                }
                if closed {
                    self.user_room_map.remove_by_value(&room_name);
                    proof {
                        lemma_directory_wf_retire(pre.rooms, pre.user_room, room_name@);
                    }
                } else {
                    self.rooms.insert(room_name, room);
                    proof {
                        assert(self@.rooms =~= pre.rooms.insert(room_name@, room@));
                        lemma_directory_wf_insert(pre.rooms, pre.user_room, room_name@, room@);
                    }
                }
                out
            },
        }
    }

    /// Drops the participant's assignment and forwards the departure to the
    /// named room; a room whose active set emptied is retired.
    pub fn leave_room(&mut self, user_id: String, room_name: String) -> (out: Vec<Outbound>)
        requires
            old(self).wf(),
        ensures
            final(self).wf(),
            dir_leave_post(old(self)@, final(self)@, out@, user_id@, room_name@),
    {
        let ghost pre = self@;
        let ghost uidv = user_id@;
        self.user_room_map.remove(&user_id);
        let ghost mid = self@.user_room;
        proof {
            lemma_directory_wf_unassign(pre.rooms, pre.user_room, uidv);
        }
        match self.rooms.remove_take(&room_name) {
            None => Vec::new(),
            Some(mut room) => {
                let ghost r0 = room@;
                proof {
                    assert(pre.rooms.dom().contains(room_name@));
                    assert(r0.name == room_name@);
                }
                let (out, closed) = room.leave_room(user_id);
                if closed {
                    self.user_room_map.remove_by_value(&room_name);
                    proof {
                        lemma_directory_wf_retire(pre.rooms, mid, room_name@);
                    }
                } else {
                    self.rooms.insert(room_name, room);
                    proof {
                        assert(room@.name == room_name@);
                        assert(self@.rooms =~= pre.rooms.insert(room_name@, room@));
                        lemma_directory_wf_insert(pre.rooms, mid, room_name@, room@);
                    }
                }
                out
            },
        }
    }

    /// Retires the named room and every assignment pointing at it.
    pub fn room_closing(&mut self, room_name: String) -> (out: Vec<Outbound>)
        requires
            old(self).wf(),
        ensures
            final(self).wf(),
            final(self)@.rooms == old(self)@.rooms.remove(room_name@),
            final(self)@.user_room == without_value(old(self)@.user_room, room_name@),
            out@.len() == 0,
    {
        let removed = self.rooms.remove_take(&room_name);
        self.user_room_map.remove_by_value(&room_name);
        proof {
            if removed is None {
                assert(self@.rooms =~= old(self)@.rooms.remove(room_name@));
            }
            lemma_directory_wf_retire(old(self)@.rooms, old(self)@.user_room, room_name@);
        }
        Vec::new()
    }

    /// Handles a dropped connection: a departure from whichever room the
    /// participant occupies, or nothing when they occupy none.
    pub fn user_left(&mut self, user_id: String) -> (out: Vec<Outbound>)
        requires
            old(self).wf(),
        ensures
            final(self).wf(),
            old(self)@.user_room.dom().contains(user_id@) ==> dir_leave_post(
                old(self)@,
                final(self)@,
                out@,
                user_id@,
                old(self)@.user_room[user_id@],
            ),
            !old(self)@.user_room.dom().contains(user_id@) ==> final(self)@ == old(self)@
                && out@.len() == 0,
    {
        let room_name = match self.user_room_map.get(&user_id) {
            Some(name) => Some(name.clone()),
            None => None,
        };
        match room_name {
            Some(name) => self.leave_room(user_id, name),
            None => Vec::new(),
        }
    }

    /// Forwards a profile change to the participant's current room; a change
    /// for a participant in no room is dropped.
    pub fn user_updated(&mut self, user: UserData) -> (out: Vec<Outbound>)
        requires
            old(self).wf(),
        ensures
            final(self).wf(),
            old(self)@.user_room.dom().contains(user@.user_id) ==> dir_route_post(
                old(self)@,
                final(self)@,
                out@,
                old(self)@.user_room[user@.user_id],
                RoomMessage::UserUpdated { user },
            ),
            !old(self)@.user_room.dom().contains(user@.user_id) ==> final(self)@ == old(self)@
                && out@.len() == 0,
    {
        let room_name = match self.user_room_map.get(&user.user_id) {
            Some(name) => Some(name.clone()),
            None => None,
        };
        match room_name {
            Some(name) => self.forward(name, RoomMessage::UserUpdated { user }),
            None => Vec::new(),
        }
    }
}

/// What one request does to the directory, by request kind.
pub open spec fn dir_step_post(
    pre: DirectoryView,
    post: DirectoryView,
    out: Seq<Outbound>,
    msg: RoomMessage,
) -> bool {
    &&& (msg matches RoomMessage::JoinRoom { room_name, password, password_is_hash, user }
        ==> dir_join_post(pre, post, out, room_name@, password@, password_is_hash, user@))
    &&& (msg matches RoomMessage::LeaveRoom { room_name, user_id } ==> dir_leave_post(
        pre,
        post,
        out,
        user_id@,
        room_name@,
    ))
    &&& (msg matches RoomMessage::UserLeft { user_id } ==> (if pre.user_room.dom().contains(
        user_id@,
    ) {
        dir_leave_post(pre, post, out, user_id@, pre.user_room[user_id@])
    } else {
        post == pre && out.len() == 0
    }))
    &&& (msg matches RoomMessage::UserUpdated { user } ==> (if pre.user_room.dom().contains(
        user@.user_id,
    ) {
        dir_route_post(
            pre,
            post,
            out,
            pre.user_room[user@.user_id],
            RoomMessage::UserUpdated { user },
        )
    } else {
        post == pre && out.len() == 0
    }))
    &&& ((msg is Vote || msg is NewVote || msg is Randomize || msg is ChangeScale
        || msg is UpdateActive) ==> dir_route_post(pre, post, out, routed_room_name(msg), msg))
    &&& (msg matches RoomMessage::RoomClosing { room_name } ==> post.rooms == pre.rooms.remove(
        room_name@,
    ) && post.user_room == without_value(pre.user_room, room_name@) && out.len() == 0)
}

/// The room a routed request names.
pub open spec fn routed_room_name(msg: RoomMessage) -> Seq<char> {
    match msg {
        RoomMessage::Vote { room_name, .. } => room_name@,
        RoomMessage::NewVote { room_name, .. } => room_name@,
        RoomMessage::Randomize { room_name } => room_name@,
        RoomMessage::ChangeScale { room_name, .. } => room_name@,
        RoomMessage::UpdateActive { room_name, .. } => room_name@,
        _ => Seq::empty(),
    }
}

/// Law: at every observable instant — that is, between any two requests — a
/// well-formed directory holds only rooms in which no participant is both
/// active and passive, and in which every vote belongs to an active member.
pub proof fn lemma_all_rooms_invariant(d: DirectoryView, name: Seq<char>)
    requires
        directory_wf(d),
        d.rooms.dom().contains(name),
    ensures
        forall|id: Seq<char>|
            #![trigger has_uid(d.rooms[name].active, id), has_uid(d.rooms[name].passive, id)]
            !(has_uid(d.rooms[name].active, id) && has_uid(d.rooms[name].passive, id)),
        forall|k: Seq<char>| #[trigger] d.rooms[name].votes.dom().contains(k) ==> has_uid(
            d.rooms[name].active,
            k,
        ),
{
    crate::room::lemma_member_sets_disjoint(d.rooms[name]);
}

/// Law: when the sole active member of a room leaves, the room is removed
/// from the directory, along with every assignment pointing at it — so a
/// later join under the same name is a fresh creation.
pub proof fn lemma_sole_member_leave_retires_room(
    pre: DirectoryView,
    post: DirectoryView,
    out: Seq<Outbound>,
    uid: Seq<char>,
    name: Seq<char>,
)
    requires
        dir_leave_post(pre, post, out, uid, name),
        pre.rooms.dom().contains(name),
        pre.rooms[name].active.len() == 1,
        pre.rooms[name].active[0].user_id == uid,
    ensures
        !post.rooms.dom().contains(name),
        forall|u: Seq<char>| #[trigger] post.user_room.dom().contains(u) ==> post.user_room[u]
            != name,
{
    let r0 = pre.rooms[name];
    let (r1, closed): (RoomView, bool) = choose|r1: RoomView, closed: bool|
        {
            &&& #[trigger] leave_post(r0, r1, out, uid, closed)
            &&& post.rooms == (if closed {
                pre.rooms.remove(name)
            } else {
                pre.rooms.insert(name, r1)
            })
            &&& post.user_room == (if closed {
                without_value(pre.user_room.remove(uid), name)
            } else {
                pre.user_room.remove(uid)
            })
        };
    assert(has_uid(r0.active, uid));
    assert(crate::member::uid_index(r0.active, uid) == 0);
    assert(r1.active.len() == 0);
    assert(closed);
}

/// Law: joining under a name the directory does not know creates the room
/// afresh: its commitment comes from the newly supplied password, and the
/// joiner is admitted as its sole active member.
pub proof fn lemma_join_unknown_name_creates(
    pre: DirectoryView,
    post: DirectoryView,
    out: Seq<Outbound>,
    name: Seq<char>,
    password: Seq<char>,
    password_is_hash: bool,
    u: UserDataView,
)
    requires
        dir_join_post(pre, post, out, name, password, password_is_hash, u),
        valid_room_name(name),
        !pre.rooms.dom().contains(name),
        !(pre.user_room.dom().contains(u.user_id) && pre.user_room[u.user_id] != name),
    ensures
        post.rooms.dom().contains(name),
        post.rooms[name].hashed_password == crate::digest::spec_password_commitment(
            password,
            password_is_hash,
        ),
        post.rooms[name].active.len() == 1,
        post.rooms[name].active[0] == u,
        post.rooms[name].votes == Map::<Seq<char>, Seq<char>>::empty(),
{
    let r0 = existing_or_fresh(pre, name, password, password_is_hash);
    let r1 = choose|r1: RoomView|
        {
            &&& #[trigger] join_post(r0, r1, out, password, password_is_hash, u)
            &&& post.rooms == pre.rooms.insert(name, r1)
            &&& post.user_room == pre.user_room.insert(u.user_id, name)
        };
    assert(!spec_in_room(r0, u.user_id));
    assert(r1.active =~= Seq::<UserDataView>::empty().push(u));
}

/// Law: a participant already in the room who joins it again is answered
/// `AlreadyInRoom` alone; no membership is duplicated and nothing else is
/// sent or changed.
pub proof fn lemma_rejoin_rejected(
    pre: DirectoryView,
    post: DirectoryView,
    out: Seq<Outbound>,
    name: Seq<char>,
    password: Seq<char>,
    password_is_hash: bool,
    u: UserDataView,
)
    requires
        dir_join_post(pre, post, out, name, password, password_is_hash, u),
        valid_room_name(name),
        pre.rooms.dom().contains(name),
        spec_in_room(pre.rooms[name], u.user_id),
        !(pre.user_room.dom().contains(u.user_id) && pre.user_room[u.user_id] != name),
    ensures
        post.rooms == pre.rooms,
        out.len() == 1,
        outbound_msg(out[0]) is AlreadyInRoom,
        out[0] is ToRequester,
{
    let r0 = existing_or_fresh(pre, name, password, password_is_hash);
    let r1 = choose|r1: RoomView|
        {
            &&& #[trigger] join_post(r0, r1, out, password, password_is_hash, u)
            &&& post.rooms == pre.rooms.insert(name, r1)
            &&& post.user_room == pre.user_room.insert(u.user_id, name)
        };
    assert(r1 == r0);
    assert(post.rooms =~= pre.rooms);
}

/// Law: joining with a password whose commitment does not match the room's
/// is answered `WrongPassword` alone; the participant is added to neither
/// membership set.
pub proof fn lemma_wrong_password_rejected(
    pre: DirectoryView,
    post: DirectoryView,
    out: Seq<Outbound>,
    name: Seq<char>,
    password: Seq<char>,
    password_is_hash: bool,
    u: UserDataView,
)
    requires
        dir_join_post(pre, post, out, name, password, password_is_hash, u),
        valid_room_name(name),
        pre.rooms.dom().contains(name),
        !spec_in_room(pre.rooms[name], u.user_id),
        crate::digest::spec_password_commitment(password, password_is_hash)
            != pre.rooms[name].hashed_password,
        !(pre.user_room.dom().contains(u.user_id) && pre.user_room[u.user_id] != name),
    ensures
        post.rooms == pre.rooms,
        !has_uid(post.rooms[name].active, u.user_id),
        !has_uid(post.rooms[name].passive, u.user_id),
        out.len() == 1,
        outbound_msg(out[0]) is WrongPassword,
        out[0] is ToRequester,
{
    let r0 = existing_or_fresh(pre, name, password, password_is_hash);
    let r1 = choose|r1: RoomView|
        {
            &&& #[trigger] join_post(r0, r1, out, password, password_is_hash, u)
            &&& post.rooms == pre.rooms.insert(name, r1)
            &&& post.user_room == pre.user_room.insert(u.user_id, name)
        };
    assert(r1 == r0);
    assert(post.rooms =~= pre.rooms);
}

impl RoomManagerActor {
    /// Applies one request to the directory: joins and departures are taken
    /// here; per-room requests are routed to the named room.
    pub fn handle(&mut self, msg: RoomMessage) -> (out: Vec<Outbound>)
        requires
            old(self).wf(),
        ensures
            final(self).wf(),
            dir_step_post(old(self)@, final(self)@, out@, msg),
    {
        match msg {
            RoomMessage::JoinRoom { room_name, password, password_is_hash, user } => {
                self.join_room(room_name, password, password_is_hash, user)
            },
            RoomMessage::LeaveRoom { room_name, user_id } => self.leave_room(user_id, room_name),
            RoomMessage::UserLeft { user_id } => self.user_left(user_id),
            RoomMessage::UserUpdated { user } => self.user_updated(user),
            RoomMessage::Vote { room_name, user_id, size } => {
                let target = room_name.clone();
                self.forward(target, RoomMessage::Vote { room_name, user_id, size })
            },
            RoomMessage::NewVote { room_name, user_id } => {
                let target = room_name.clone();
                self.forward(target, RoomMessage::NewVote { room_name, user_id })
            },
            RoomMessage::Randomize { room_name } => {
                let target = room_name.clone();
                self.forward(target, RoomMessage::Randomize { room_name })
            },
            RoomMessage::ChangeScale { room_name, selected_scale_name } => {
                let target = room_name.clone();
                self.forward(target, RoomMessage::ChangeScale { room_name, selected_scale_name })
            },
            RoomMessage::UpdateActive { room_name, user_id, active } => {
                let target = room_name.clone();
                self.forward(target, RoomMessage::UpdateActive { room_name, user_id, active })
            },
            RoomMessage::RoomClosing { room_name } => self.room_closing(room_name),
        }
    }
}

} // verus!
