//! Salted, slow password hashes, computed and checked with argon2rs.
use argon2rs::verifier::Encoded;
use vstd::prelude::*;

verus! {

/// The encoded Argon2i hash of the password under the salt, with argon2rs'
/// default parameters and no key or associated data.
pub uninterp spec fn argon2_encoded(password: Seq<char>, salt: Seq<u8>) -> Seq<u8>;

/// Whether the password hashes, under the parameters and salt that the
/// encoded hash carries, to the hash it carries.
pub uninterp spec fn argon2_matches(encoded: Seq<u8>, password: Seq<char>) -> bool;

/// The salts and passwords that argon2rs hashes without panicking.
pub open spec fn hashable(password: Seq<char>, salt: Seq<u8>) -> bool {
    8 <= salt.len() <= 0xffff_ffff && password.len() <= 0x3fff_ffff
}

/// An encoded hash that argon2rs produced from a hashable password and salt.
pub open spec fn well_formed_hash(encoded: Seq<u8>) -> bool {
    exists|password: Seq<char>, salt: Seq<u8>| hashable(password, salt) && encoded == argon2_encoded(password, salt)
}

/// Relies on argon2rs' `Encoded::default2i` and `to_u8`: the encoded hash of
/// the password's bytes, which depends on the password and salt alone. It
/// carries its parameters and salt, so `verify` recomputes the same hash from
/// the same password.
#[verifier::external_body]
pub(crate) fn hash_password(password: &String, salt: &Vec<u8>) -> (r: Vec<u8>)
    requires
        hashable(password@, salt@),
    ensures
        r@ == argon2_encoded(password@, salt@),
        argon2_matches(r@, password@),
{
    Encoded::default2i(password.as_bytes(), salt, b"", b"").to_u8()
}

/// Relies on argon2rs' `Encoded::from_u8` and `verify`: decodes the stored
/// hash and recomputes it from the password; a hash that does not decode
/// matches nothing.
#[verifier::external_body]
pub(crate) fn password_matches(encoded: &Vec<u8>, password: &String) -> (r: bool)
    requires
        well_formed_hash(encoded@),
        password@.len() <= 0x3fff_ffff,
    ensures
        r == argon2_matches(encoded@, password@),
{
    match Encoded::from_u8(encoded) {
        Ok(e) => e.verify(password.as_bytes()),
        Err(_) => false,
    }
}

} // verus!
