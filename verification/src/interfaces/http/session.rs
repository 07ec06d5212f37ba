//! The private-cookie key, derived deterministically from the session secret.

use vstd::prelude::*;
use vstd::string::StringSliceAdditionalSpecFns;
use axum_extra::extract::cookie::Key;

verus! {

/// Length of the key material `Key::from` takes.
pub const KEY_LEN: usize = 64;

/// The cookie signing and encryption key type.
#[verifier::external_type_specification]
#[verifier::external_body]
pub struct ExKey(axum_extra::extract::cookie::Key);

/// The key that `Key::from` builds from 64 bytes of key material. The source
/// copies the 64 bytes into the key and nothing else, so the key is a function
/// of the material alone.
pub uninterp spec fn cookie_key_from(material: Seq<u8>) -> Key;

/// Calls `Key::from` (cookie crate, re-exported by `axum_extra`), which panics on
/// fewer than 64 bytes; `requires` rules that out. Trusted: the key is
/// `cookie_key_from` of the material.
#[verifier::external_body]
fn key_from_material(material: &Vec<u8>) -> (r: Key)
    requires
        material.len() == KEY_LEN,
    ensures
        r == cookie_key_from(material@),
{
    Key::from(material.as_slice())
}

/// The 64 bytes of key material for a secret: the secret's bytes repeated to
/// fill the buffer, or all zeros for an empty secret.
pub open spec fn key_material_of(secret: Seq<u8>) -> Seq<u8> {
    Seq::new(KEY_LEN as nat, |i: int| if secret.len() == 0 { 0u8 } else { secret[i % (secret.len() as int)] })
}

/// The key material for `secret`: its bytes cycled into a 64-byte buffer
/// (`Key::from` requires exactly 64 bytes).
pub fn cookie_key_material(secret: &str) -> (r: Vec<u8>)
    ensures
        r@ == key_material_of(secret.spec_bytes()),
{
    let bytes = secret.as_bytes();
    let mut material: Vec<u8> = Vec::new();
    let mut i: usize = 0;
    while i < KEY_LEN
        invariant
            i <= KEY_LEN,
            bytes@ == secret.spec_bytes(),
            material@ == key_material_of(bytes@).take(i as int),
        decreases KEY_LEN - i,
    {
        let b: u8 = if bytes.len() == 0 { 0u8 } else { bytes[i % bytes.len()] };
        material.push(b);
        assert(key_material_of(bytes@).take(i as int + 1) == key_material_of(bytes@).take(i as int).push(b));
        i = i + 1;
    }
    assert(key_material_of(bytes@).take(KEY_LEN as int) == key_material_of(bytes@));
    material
}

/// The private-cookie key derived from the session secret: the key built from
/// the secret's cycled key material.
pub fn session_key(secret: &str) -> (r: Key)
    ensures
        r == cookie_key_from(key_material_of(secret.spec_bytes())),
{
    let material = cookie_key_material(secret);
    key_from_material(&material)
}

} // verus!
