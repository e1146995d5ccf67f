//! Event identifiers: random version-4 UUIDs, held as their 128-bit value.
use vstd::prelude::*;

verus! {

/// The bits of a UUID that hold its version and variant.
pub open spec fn version_variant_bits(id: u128) -> u128 {
    id & 0xF000_C000_0000_0000_0000
}

/// A random (version 4, RFC 4122 variant) UUID.
pub open spec fn is_v4(id: u128) -> bool {
    version_variant_bits(id) == 0x4000_8000_0000_0000_0000
}

/// A fresh random UUID (`uuid::Uuid::new_v4`), as its 128-bit value.
/// uuid masks a random value so that the version nibble reads 4 and the
/// variant bits read `10`; the other bits are random and not stated.
#[verifier::external_body]
pub(crate) fn fresh_id() -> (id: u128)
    ensures
        is_v4(id),
{
    uuid::Uuid::new_v4().as_u128()
}

/// The lower-case hexadecimal digit of `d`, for `d < 16`.
pub open spec fn hex_digit(d: int) -> char {
    if d < 10 {
        ((48 + d) as u32) as char
    } else {
        ((87 + d) as u32) as char
    }
}

/// `16` raised to `n`.
pub open spec fn pow16(n: nat) -> nat
    decreases n,
{
    if n == 0 {
        1
    } else {
        16 * pow16((n - 1) as nat)
    }
}

/// The `k`-th hexadecimal digit of `id`, most significant first.
pub open spec fn nibble(id: u128, k: int) -> int {
    ((id as nat) / pow16((31 - k) as nat)) as int % 16
}

/// The hyphenated lower-case text of a UUID: 32 hexadecimal digits,
/// most significant first, with '-' after the 8th, 12th, 16th and 20th.
pub open spec fn uuid_text(id: u128) -> Seq<char> {
    Seq::new(36, |i: int|
        if i == 8 || i == 13 || i == 18 || i == 23 {
            '-'
        } else {
            hex_digit(nibble(id, if i < 8 { i } else if i < 13 { i - 1 } else if i < 18 { i - 2 } else if i < 23 { i - 3 } else { i - 4 }))
        })
}

/// The hyphenated lower-case text of a UUID (`Uuid::hyphenated`).
#[verifier::external_body]
pub(crate) fn id_text(id: u128) -> (r: String)
    ensures
        r@ == uuid_text(id),
{
    uuid::Uuid::from_u128(id).hyphenated().to_string()
}

/// What `uuid::Uuid::parse_str` makes of a text, as a 128-bit value.
pub uninterp spec fn uuid_parse(s: Seq<char>) -> Option<u128>;

/// Parses a UUID text (`uuid::Uuid::parse_str`, which accepts the
/// hyphenated, simple, braced and URN forms in either case). Claims: the
/// outcome is the one `uuid_parse` names, and the hyphenated text of a UUID
/// reads back as that UUID.
#[verifier::external_body]
pub(crate) fn parse_id(s: &str) -> (r: Option<u128>)
    ensures
        r == uuid_parse(s@),
        forall|id: u128| #[trigger] uuid_text(id) == s@ ==> r == Some(id),
{
    match uuid::Uuid::parse_str(s) {
        Ok(u) => Some(u.as_u128()),
        Err(_) => None,
    }
}

}
