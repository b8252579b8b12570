//! Password commitments and avatar identifiers: lowercase hexadecimal MD5
//! digests of short strings. The digest itself is computed by an outside
//! crate; this module only fixes what the rest of the library may assume
//! about it.

use vstd::prelude::*;

verus! {

/// The 32-character lowercase hexadecimal rendering of the MD5 digest of a
/// string. The algorithm is opaque to the library; all that matters is that
/// the result is a function of the input alone, so that a commitment computed
/// twice (or precomputed by a client) compares equal.
pub uninterp spec fn md5_hex_of(s: Seq<char>) -> Seq<char>;

/// Relies on md5::compute (RFC 1321): the digest depends on the input bytes
/// alone, and the crate's LowerHex rendering of a digest is exactly 32
/// lowercase hexadecimal characters, two per digest byte.
#[verifier::external_body]
pub(crate) fn md5_hex(s: &str) -> (r: String)
    ensures
        r@ == md5_hex_of(s@),
        r@.len() == 32,
{
    format!("{:x}", md5::compute(s))
}

/// The password commitment stored by a room: the password itself when the
/// client already hashed it, its digest otherwise.
pub open spec fn spec_password_commitment(password: Seq<char>, password_is_hash: bool) -> Seq<
    char,
> {
    if password_is_hash {
        password
    } else {
        md5_hex_of(password)
    }
}

/// Computes the commitment a room stores and compares on join.
pub fn compute_password(password: String, password_is_hash: bool) -> (r: String)
    ensures
        r@ == spec_password_commitment(password@, password_is_hash),
{
    if password_is_hash {
        password
    } else {
        md5_hex(password.as_str())
    }
}

} // verus!
