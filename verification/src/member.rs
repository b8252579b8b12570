//! A room's membership: profiles kept in join order, at most one per
//! participant identifier. A room has two of these, one for active members
//! and one for passive members.

use crate::user::{UserData, UserDataView};
use vstd::prelude::*;

verus! {

/// Some entry carries this participant identifier.
pub open spec fn has_uid(s: Seq<UserDataView>, id: Seq<char>) -> bool {
    exists|i: int| 0 <= i < s.len() && s[i].user_id == id
}

/// The position of the entry carrying the identifier (meaningful when the
/// identifiers are distinct and the entry exists).
pub open spec fn uid_index(s: Seq<UserDataView>, id: Seq<char>) -> int {
    choose|i: int| 0 <= i < s.len() && s[i].user_id == id
}

/// No participant identifier occurs twice.
pub open spec fn distinct_uids(s: Seq<UserDataView>) -> bool {
    forall|i: int, j: int| 0 <= i < j < s.len() ==> s[i].user_id != s[j].user_id
}

/// The identifiers, in entry order.
pub open spec fn id_seq(s: Seq<UserDataView>) -> Seq<Seq<char>> {
    s.map_values(|u: UserDataView| u.user_id)
}

/// With distinct identifiers, the carrying entry is unique.
pub proof fn lemma_uid_index(s: Seq<UserDataView>, id: Seq<char>)
    requires
        distinct_uids(s),
        has_uid(s, id),
    ensures
        0 <= uid_index(s, id) < s.len(),
        s[uid_index(s, id)].user_id == id,
        forall|j: int| 0 <= j < s.len() && s[j].user_id == id ==> j == uid_index(s, id),
{
    let i = uid_index(s, id);
    assert(0 <= i < s.len() && s[i].user_id == id);
}

/// How membership moves under removal of one entry.
pub proof fn lemma_remove_uid(s: Seq<UserDataView>, i: int)
    requires
        distinct_uids(s),
        0 <= i < s.len(),
    ensures
        distinct_uids(s.remove(i)),
        forall|k: Seq<char>|
            #[trigger] has_uid(s.remove(i), k) <==> (has_uid(s, k) && k != s[i].user_id),
{
    let t = s.remove(i);
    assert forall|k: Seq<char>| #[trigger] has_uid(t, k) implies has_uid(s, k) && k != s[i]
        .user_id by {
        let j = choose|j: int| 0 <= j < t.len() && t[j].user_id == k;
        if j < i {
            assert(s[j].user_id == k);
        } else {
            assert(s[j + 1].user_id == k);
        }
    }
    assert forall|k: Seq<char>| has_uid(s, k) && k != s[i].user_id implies #[trigger] has_uid(
        t,
        k,
    ) by {
        let j = choose|j: int| 0 <= j < s.len() && s[j].user_id == k;
        if j < i {
            assert(t[j].user_id == k);
        } else {
            assert(j != i);
            assert(t[j - 1].user_id == k);
        }
    }
}

/// How membership moves under appending a fresh entry.
pub proof fn lemma_push_uid(s: Seq<UserDataView>, u: UserDataView)
    ensures
        forall|k: Seq<char>| #[trigger] has_uid(s.push(u), k) <==> (has_uid(s, k) || k
            == u.user_id),
        !has_uid(s, u.user_id) && distinct_uids(s) ==> distinct_uids(s.push(u)),
{
    let t = s.push(u);
    assert forall|k: Seq<char>| #[trigger] has_uid(t, k) implies has_uid(s, k) || k
        == u.user_id by {
        let j = choose|j: int| 0 <= j < t.len() && t[j].user_id == k;
        if j < s.len() {
            assert(s[j].user_id == k);
        }
    }
    assert forall|k: Seq<char>| has_uid(s, k) || k == u.user_id implies #[trigger] has_uid(
        t,
        k,
    ) by {
        if has_uid(s, k) {
            let j = choose|j: int| 0 <= j < s.len() && s[j].user_id == k;
            assert(t[j].user_id == k);
        } else {
            assert(t[s.len() as int].user_id == k);
        }
    }
    if !has_uid(s, u.user_id) && distinct_uids(s) {
        assert forall|i: int, j: int| 0 <= i < j < t.len() implies t[i].user_id != t[j]
            .user_id by {
            if j == s.len() {
                assert(s[i].user_id == t[i].user_id);
            }
        }
    }
}

/// Replacing an entry by one with the same identifier keeps the identifiers.
pub proof fn lemma_update_uid(s: Seq<UserDataView>, i: int, u: UserDataView)
    requires
        distinct_uids(s),
        0 <= i < s.len(),
        s[i].user_id == u.user_id,
    ensures
        distinct_uids(s.update(i, u)),
        forall|k: Seq<char>| #[trigger] has_uid(s.update(i, u), k) <==> has_uid(s, k),
        id_seq(s.update(i, u)) == id_seq(s),
{
    let t = s.update(i, u);
    assert(id_seq(t) =~= id_seq(s));
    assert forall|k: Seq<char>| #[trigger] has_uid(t, k) implies has_uid(s, k) by {
        let j = choose|j: int| 0 <= j < t.len() && t[j].user_id == k;
        assert(s[j].user_id == k);
    }
    assert forall|k: Seq<char>| has_uid(s, k) implies #[trigger] has_uid(t, k) by {
        let j = choose|j: int| 0 <= j < s.len() && s[j].user_id == k;
        assert(t[j].user_id == k);
    }
}

pub struct MemberMap {
    users: Vec<UserData>,
}

impl View for MemberMap {
    type V = Seq<UserDataView>;

    closed spec fn view(&self) -> Seq<UserDataView> {
        self.users@.map_values(|u: UserData| u@)
    }
}

impl MemberMap {
    pub fn new() -> (r: MemberMap)
        ensures
            r@ == Seq::<UserDataView>::empty(),
    {
        let r = MemberMap { users: Vec::new() };
        proof {
            assert(r@ =~= Seq::<UserDataView>::empty());
        }
        r
    }

    pub fn len(&self) -> (r: usize)
        ensures
            r == self@.len(),
    {
        self.users.len()
    }

    pub fn is_empty(&self) -> (r: bool)
        ensures
            r == (self@.len() == 0),
    {
        self.users.is_empty()
    }

    /// The entry position carrying the identifier, if any.
    fn index_of(&self, user_id: &String) -> (r: Option<usize>)
        ensures
            match r {
                Some(i) => i < self@.len() && self@[i as int].user_id == user_id@,
                None => !has_uid(self@, user_id@),
            },
    {
        let mut i: usize = 0;
        while i < self.users.len()
            invariant
                i <= self@.len(),
                self@.len() == self.users@.len(),
                forall|j: int| 0 <= j < i ==> self@[j].user_id != user_id@,
            decreases self@.len() - i,
        {
            assert(self@[i as int] == self.users@[i as int]@);
            if self.users[i].user_id == *user_id {
                return Some(i);
            }
            i += 1;
        }
        None
    }

    pub fn contains(&self, user_id: &String) -> (r: bool)
        ensures
            r == has_uid(self@, user_id@),
    {
        match self.index_of(user_id) {
            Some(i) => {
                proof {
                    assert(has_uid(self@, user_id@));
                }
                true
            },
            None => false,
        }
    }

    /// The member at an entry position.
    pub fn member_at(&self, i: usize) -> (r: &UserData)
        requires
            i < self@.len(),
        ensures
            r@ == self@[i as int],
    {
        &self.users[i]
    }

    /// Adds a new member at the end.
    pub fn insert(&mut self, user: UserData)
        requires
            !has_uid(old(self)@, user@.user_id),
        ensures
            final(self)@ == old(self)@.push(user@),
    {
        self.users.push(user);
        proof {
            assert(final(self)@ =~= old(self)@.push(final(self).users@.last()@));
        }
    }

    /// Drops the member carrying the identifier, returning the profile.
    pub fn remove(&mut self, user_id: &String) -> (r: Option<UserData>)
        requires
            distinct_uids(old(self)@),
        ensures
            has_uid(old(self)@, user_id@) ==> {
                let i = uid_index(old(self)@, user_id@);
                &&& final(self)@ == old(self)@.remove(i)
                &&& r matches Some(u) && u@ == old(self)@[i]
            },
            !has_uid(old(self)@, user_id@) ==> final(self)@ == old(self)@ && r is None,
    {
        match self.index_of(user_id) {
            Some(i) => {
                proof {
                    assert(has_uid(self@, user_id@));
                    let j = uid_index(self@, user_id@);
                    assert(self@[j].user_id == user_id@);
                    assert(j == i as int);
                }
                let u = self.users.remove(i);
                proof {
                    assert(final(self)@ =~= old(self)@.remove(i as int));
                }
                Some(u)
            },
            None => None,
        }
    }

    /// Replaces the profile of the member with the same identifier.
    /// Returns whether such a member was present.
    pub fn update(&mut self, user: &UserData) -> (r: bool)
        requires
            distinct_uids(old(self)@),
        ensures
            r == has_uid(old(self)@, user@.user_id),
            has_uid(old(self)@, user@.user_id) ==> final(self)@ == old(self)@.update(
                uid_index(old(self)@, user@.user_id),
                user@,
            ),
            !has_uid(old(self)@, user@.user_id) ==> final(self)@ == old(self)@,
    {
        match self.index_of(&user.user_id) {
            Some(i) => {
                proof {
                    assert(has_uid(self@, user@.user_id));
                    let j = uid_index(self@, user@.user_id);
                    assert(self@[j].user_id == user@.user_id);
                    assert(j == i as int);
                }
                self.users.set(i, user.clone());
                proof {
                    assert(final(self)@ =~= old(self)@.update(i as int, user@));
                }
                true
            },
            None => false,
        }
    }

    /// The identifiers, in entry order.
    pub fn id_list(&self) -> (r: Vec<String>)
        ensures
            r@.len() == self@.len(),
            forall|i: int| 0 <= i < r@.len() ==> r@[i]@ == self@[i].user_id,
    {
        let mut r: Vec<String> = Vec::new();
        let mut i: usize = 0;
        while i < self.users.len()
            invariant
                i <= self@.len(),
                self@.len() == self.users@.len(),
                r@.len() == i,
                forall|j: int| 0 <= j < i ==> r@[j]@ == self@[j].user_id,
            decreases self@.len() - i,
        {
            assert(self@[i as int] == self.users@[i as int]@);
            r.push(self.users[i].user_id.clone());
            i += 1;
        }
        r
    }

    /// The profiles, in entry order.
    pub fn user_list(&self) -> (r: Vec<UserData>)
        ensures
            r@.len() == self@.len(),
            forall|i: int| 0 <= i < r@.len() ==> r@[i]@ == self@[i],
    {
        let mut r: Vec<UserData> = Vec::new();
        let mut i: usize = 0;
        while i < self.users.len()
            invariant
                i <= self@.len(),
                self@.len() == self.users@.len(),
                r@.len() == i,
                forall|j: int| 0 <= j < i ==> r@[j]@ == self@[j],
            decreases self@.len() - i,
        {
            assert(self@[i as int] == self.users@[i as int]@);
            r.push(self.users[i].clone());
            i += 1;
        }
        r
    }
}

} // verus!
