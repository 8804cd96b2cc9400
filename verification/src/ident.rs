//! Identifiers of sessions and messages: 128-bit values, drawn at random and
//! written in the usual hyphenated form.

use uuid::Uuid;
use vstd::prelude::*;

verus! {

/// A digit in base sixteen, lower case.
pub open spec fn hex_digit(d: nat) -> char {
    if d == 0 {
        '0'
    } else if d == 1 {
        '1'
    } else if d == 2 {
        '2'
    } else if d == 3 {
        '3'
    } else if d == 4 {
        '4'
    } else if d == 5 {
        '5'
    } else if d == 6 {
        '6'
    } else if d == 7 {
        '7'
    } else if d == 8 {
        '8'
    } else if d == 9 {
        '9'
    } else if d == 10 {
        'a'
    } else if d == 11 {
        'b'
    } else if d == 12 {
        'c'
    } else if d == 13 {
        'd'
    } else if d == 14 {
        'e'
    } else {
        'f'
    }
}

/// The last `digits` digits of a number in base sixteen, most significant
/// first.
pub open spec fn hex_text(v: nat, digits: nat) -> Seq<char>
    decreases digits,
{
    if digits == 0 {
        Seq::empty()
    } else {
        hex_text(v / 16, (digits - 1) as nat).push(hex_digit(v % 16))
    }
}

/// An identifier as text: its 32 hexadecimal digits in groups of 8, 4, 4, 4
/// and 12, with hyphens between the groups.
pub open spec fn hyphenated(id: u128) -> Seq<char> {
    let h = hex_text(id as nat, 32);
    h.subrange(0, 8) + seq!['-'] + h.subrange(8, 12) + seq!['-'] + h.subrange(12, 16) + seq!['-']
        + h.subrange(16, 20) + seq!['-'] + h.subrange(20, 32)
}

/// The four bits of an identifier that tell how it was made.
pub open spec fn version_of(id: u128) -> nat {
    ((id as nat) / 0x1_0000_0000_0000_0000_000) % 16
}

/// The two bits of an identifier that tell its layout.
pub open spec fn variant_of(id: u128) -> nat {
    ((id as nat) / 0x4000_0000_0000_0000) % 4
}

/// `Uuid::new_v4`, as a number: a random identifier. Whatever is drawn, it
/// is marked as random (version 4) and as of the standard layout (variant
/// 2); nothing else is known of it. The call panics on a machine that
/// gives out no random bytes.
#[verifier::external_body]
fn uuid_new_v4() -> (id: u128)
    ensures
        version_of(id) == 4,
        variant_of(id) == 2,
{
    Uuid::new_v4().as_u128()
}

/// `Uuid`'s `Display`, by way of `to_string`: the identifier hyphenated and
/// in lower case.
#[verifier::external_body]
fn uuid_display(id: u128) -> (text: String)
    ensures
        text@ == hyphenated(id),
{
    Uuid::from_u128(id).to_string()
}

/// An identifier drawn at random, for a session or a message.
pub fn fresh_id() -> (id: u128)
    ensures
        version_of(id) == 4,
        variant_of(id) == 2,
{
    uuid_new_v4()
}

/// An identifier as text.
pub fn id_text(id: u128) -> (text: String)
    ensures
        text@ == hyphenated(id),
{
    uuid_display(id)
}

} // verus!
