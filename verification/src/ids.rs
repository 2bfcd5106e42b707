//! Transfer identifiers: 128-bit UUIDs held as integers, with their byte and text forms.

use crate::bytes;
use vstd::prelude::*;

verus! {

/// The character of one lower-case hexadecimal digit.
pub open spec fn hex_char(d: nat) -> char
    recommends
        d < 16,
{
    if d < 10 {
        ((48 + d) as u8) as char
    } else {
        ((87 + d) as u8) as char
    }
}

/// The `len` low hexadecimal digits of `n`, most significant first.
pub open spec fn hex_digits(n: nat, len: nat) -> Seq<char>
    decreases len,
{
    if len == 0 {
        Seq::empty()
    } else {
        hex_digits(n / 16, (len - 1) as nat).push(hex_char(n % 16))
    }
}

/// The hyphenated lower-case text of an identifier, in groups of 8, 4, 4, 4 and 12 digits.
pub open spec fn id_text(id: u128) -> Seq<char> {
    let digits = hex_digits(id as nat, 32);
    digits.subrange(0, 8) + seq!['-'] + digits.subrange(8, 12) + seq!['-'] + digits.subrange(12, 16)
        + seq!['-'] + digits.subrange(16, 20) + seq!['-'] + digits.subrange(20, 32)
}

/// `uuid::Uuid::as_bytes` on the identifier that `uuid::Uuid::from_u128` makes: the sixteen
/// big-endian bytes of the number.
#[verifier::external_body]
pub(crate) fn id_bytes(id: u128) -> (r: [u8; 16])
    ensures
        r@ == bytes::be_bytes(id as nat, 16),
{
    *uuid::Uuid::from_u128(id).as_bytes()
}

/// The `Display` text of the identifier that `uuid::Uuid::from_u128` makes: its hyphenated
/// lower-case form.
#[verifier::external_body]
pub(crate) fn uuid_display(id: u128) -> (r: String)
    ensures
        r@ == id_text(id),
{
    uuid::Uuid::from_u128(id).to_string()
}

proof fn hex_digits_are_injective(a: nat, b: nat, len: nat)
    requires
        hex_digits(a, len) == hex_digits(b, len),
        a < hex_range(len),
        b < hex_range(len),
    ensures
        a == b,
    decreases len,
{
    if len > 0 {
        let x = hex_digits(a, len);
        let y = hex_digits(b, len);
        assert(x.drop_last() =~= hex_digits(a / 16, (len - 1) as nat));
        assert(y.drop_last() =~= hex_digits(b / 16, (len - 1) as nat));
        hex_digits_are_injective(a / 16, b / 16, (len - 1) as nat);
        assert(x.last() == hex_char(a % 16));
        assert(y.last() == hex_char(b % 16));
    }
}

/// 16 to the power `len`.
pub open spec fn hex_range(len: nat) -> nat
    decreases len,
{
    if len == 0 {
        1
    } else {
        16 * hex_range((len - 1) as nat)
    }
}

proof fn hex_digits_len(n: nat, len: nat)
    ensures
        hex_digits(n, len).len() == len,
    decreases len,
{
    if len > 0 {
        hex_digits_len(n / 16, (len - 1) as nat);
    }
}

/// Two identifiers have the same text only where they are the same identifier. Every text has
/// thirty-six characters.
pub proof fn id_texts_are_distinct(a: u128, b: u128)
    ensures
        id_text(a).len() == 36,
        id_text(a) == id_text(b) ==> a == b,
{
    hex_digits_len(a as nat, 32);
    hex_digits_len(b as nat, 32);
    if id_text(a) == id_text(b) {
        let x = hex_digits(a as nat, 32);
        let y = hex_digits(b as nat, 32);
        let t = id_text(a);
        assert(x =~= t.subrange(0, 8) + t.subrange(9, 13) + t.subrange(14, 18) + t.subrange(19, 23)
            + t.subrange(24, 36));
        assert(y =~= t.subrange(0, 8) + t.subrange(9, 13) + t.subrange(14, 18) + t.subrange(19, 23)
            + t.subrange(24, 36));
        reveal_with_fuel(hex_range, 33);
        hex_digits_are_injective(a as nat, b as nat, 32);
    }
}

} // verus!
