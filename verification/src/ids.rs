//! Identities of notes, clips and placements.
//!
//! An identity is the 128-bit value of a random (version 4) UUID, produced
//! by the `uuid` crate. The nil identity is zero.
use vstd::prelude::*;

verus! {

/// Whether `id` carries the version-4 and RFC 4122 variant bits that every
/// random UUID carries.
pub open spec fn is_random_id(id: u128) -> bool {
    &&& (id >> 76u128) & 0xfu128 == 4u128
    &&& (id >> 62u128) & 0x3u128 == 2u128
}

/// Law: a random identity is never the nil identity.
pub proof fn law_random_id_is_never_nil(id: u128)
    requires
        is_random_id(id),
    ensures
        id != 0,
{
    assert((id >> 76u128) & 0xfu128 == 4u128 ==> id != 0u128) by (bit_vector);
}

/// Calls `uuid::Uuid::new_v4` and returns the UUID as a `u128`
/// (`Uuid::as_u128`, big-endian). The contract claims only what that
/// source shows of every outcome: the random bits are masked so that the
/// version nibble is 4 and the two variant bits are `10`. Which value comes
/// back depends on the random number generator and is not stated.
#[verifier::external_body]
pub(crate) fn new_random_id() -> (id: u128)
    ensures
        is_random_id(id),
{
    uuid::Uuid::new_v4().as_u128()
}

/// The lowercase hexadecimal digit of a value below 16.
pub open spec fn hex_digit(nibble: int) -> char {
    if nibble < 10 {
        (48 + nibble) as char
    } else {
        (87 + nibble) as char
    }
}

/// The text of an identity as a hyphenated UUID: its 32 hexadecimal
/// digits, most significant first, in groups of 8, 4, 4, 4 and 12 joined by
/// hyphens.
pub open spec fn hyphenated_text(id: u128) -> Seq<char> {
    Seq::new(
        36,
        |i: int|
            if i == 8 || i == 13 || i == 18 || i == 23 {
                '-'
            } else {
                let k = if i < 8 {
                    i
                } else if i < 13 {
                    i - 1
                } else if i < 18 {
                    i - 2
                } else if i < 23 {
                    i - 3
                } else {
                    i - 4
                };
                hex_digit(
                    (id as int / vstd::arithmetic::power::pow(16, (31 - k) as nat)) % 16,
                )
            },
    )
}

/// Calls `uuid::Uuid::from_u128` and formats the UUID with its `Display`
/// impl (`to_string`). The contract claims what the uuid source shows:
/// `Display` writes the hyphenated form in lowercase hexadecimal, from the
/// big-endian bytes that `from_u128` takes the value as.
#[verifier::external_body]
pub(crate) fn uuid_text(id: u128) -> (s: String)
    ensures
        s@ == hyphenated_text(id),
{
    uuid::Uuid::from_u128(id).to_string()
}

} // verus!
