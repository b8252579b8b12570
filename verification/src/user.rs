//! A participant's profile: an opaque identifier assigned by the connection
//! layer, a display name, and an avatar reference derived from a digest.

use crate::digest::{md5_hex, md5_hex_of};
use vstd::prelude::*;

verus! {

/// Mathematical image of a profile: the three fields as character sequences.
pub ghost struct UserDataView {
    pub user_id: Seq<char>,
    pub name: Seq<char>,
    pub gravatar_id: Seq<char>,
}

/// The profiles of a sequence, in order.
pub open spec fn user_seq_view(s: Seq<UserData>) -> Seq<UserDataView> {
    s.map_values(|u: UserData| u@)
}

pub struct UserData {
    pub user_id: String,
    pub name: String,
    pub gravatar_id: String,
}

impl View for UserData {
    type V = UserDataView;

    open spec fn view(&self) -> UserDataView {
        UserDataView {
            user_id: self.user_id@,
            name: self.name@,
            gravatar_id: self.gravatar_id@,
        }
    }
}

impl Clone for UserData {
    fn clone(&self) -> (res: Self)
        ensures
            res@ == self@,
    {
        UserData {
            user_id: self.user_id.clone(),
            name: self.name.clone(),
            gravatar_id: self.gravatar_id.clone(),
        }
    }
}

impl UserData {
    /// A fresh profile: a placeholder display name and an avatar reference
    /// derived from the participant identifier.
    pub fn new(user_id: String) -> (r: UserData)
        ensures
            r@.user_id == user_id@,
            r@.name == "Shirtless Muppet"@,
            r@.gravatar_id == md5_hex_of(user_id@),
    {
        let name = "Shirtless Muppet".to_owned();
        let gravatar_id = md5_hex(user_id.as_str());
        UserData { user_id, name, gravatar_id }
    }

    /// Points the avatar reference at the digest of the given address.
    pub fn set_avatar(&mut self, avatar: &str)
        ensures
            final(self)@.user_id == old(self)@.user_id,
            final(self)@.name == old(self)@.name,
            final(self)@.gravatar_id == md5_hex_of(avatar@),
    {
        self.gravatar_id = md5_hex(avatar);
    }
}

} // verus!
