//! Fixed-width big-endian and little-endian renderings of integers.

use vstd::prelude::*;

verus! {

/// The `len` low base-256 digits of `n`, most significant first.
pub open spec fn be_bytes(n: nat, len: nat) -> Seq<u8>
    decreases len,
{
    if len == 0 {
        Seq::empty()
    } else {
        be_bytes(n / 256, (len - 1) as nat).push((n % 256) as u8)
    }
}

/// The number whose base-256 digits, most significant first, are `digits`.
pub open spec fn be_value(digits: Seq<u8>) -> nat
    decreases digits.len(),
{
    if digits.len() == 0 {
        0
    } else {
        be_value(digits.drop_last()) * 256 + digits.last() as nat
    }
}

/// The `len` low base-256 digits of `n`, least significant first.
pub open spec fn le_bytes(n: nat, len: nat) -> Seq<u8> {
    be_bytes(n, len).reverse()
}

/// The number whose base-256 digits, least significant first, are `digits`.
pub open spec fn le_value(digits: Seq<u8>) -> nat {
    be_value(digits.reverse())
}

/// 256 to the power `len`.
pub open spec fn byte_range(len: nat) -> nat
    decreases len,
{
    if len == 0 {
        1
    } else {
        256 * byte_range((len - 1) as nat)
    }
}

/// A number that fits in `len` bytes is recovered from its big-endian rendering.
pub proof fn be_bytes_round_trip(n: nat, len: nat)
    requires
        n < byte_range(len),
    ensures
        be_bytes(n, len).len() == len,
        be_value(be_bytes(n, len)) == n,
    decreases len,
{
    if len > 0 {
        be_bytes_round_trip(n / 256, (len - 1) as nat);
        assert(be_bytes(n, len).drop_last() =~= be_bytes(n / 256, (len - 1) as nat));
    }
}

/// A number that fits in `len` bytes is recovered from its little-endian rendering.
pub proof fn le_bytes_round_trip(n: nat, len: nat)
    requires
        n < byte_range(len),
    ensures
        le_bytes(n, len).len() == len,
        le_value(le_bytes(n, len)) == n,
{
    be_bytes_round_trip(n, len);
    assert(be_bytes(n, len).reverse().reverse() =~= be_bytes(n, len));
}

/// The four big-endian bytes of a 32-bit number.
pub fn u32_to_be_bytes(n: u32) -> (r: [u8; 4])
    ensures
        r@ == be_bytes(n as nat, 4),
        n == 16777216 * r@[0] + 65536 * r@[1] + 256 * r@[2] + r@[3],
{
    let r: [u8; 4] = [
        (n / 16777216) as u8,
        ((n / 65536) % 256) as u8,
        ((n / 256) % 256) as u8,
        (n % 256) as u8,
    ];
    proof {
        reveal_with_fuel(be_bytes, 5);
        assert(n as nat / 256 / 256 / 256 == n as nat / 16777216);
        assert(r@ =~= be_bytes(n as nat, 4));
    }
    r
}

/// The 32-bit number whose big-endian bytes are `digits`.
pub fn u32_from_be_bytes(digits: [u8; 4]) -> (r: u32)
    ensures
        r == be_value(digits@),
        r == 16777216 * digits@[0] + 65536 * digits@[1] + 256 * digits@[2] + digits@[3],
{
    let r: u32 = ((digits[0] as u32 * 256 + digits[1] as u32) * 256 + digits[2] as u32) * 256
        + digits[3] as u32;
    proof {
        reveal_with_fuel(be_value, 5);
    }
    r
}

/// The four little-endian bytes of a 32-bit number.
pub fn u32_to_le_bytes(n: u32) -> (r: [u8; 4])
    ensures
        r@ == le_bytes(n as nat, 4),
        n == r@[0] + 256 * r@[1] + 65536 * r@[2] + 16777216 * r@[3],
{
    let b: [u8; 4] = u32_to_be_bytes(n);
    let r: [u8; 4] = [b[3], b[2], b[1], b[0]];
    proof {
        assert(r@ =~= b@.reverse());
    }
    r
}

/// The 32-bit number whose little-endian bytes are `digits`.
pub fn u32_from_le_bytes(digits: [u8; 4]) -> (r: u32)
    ensures
        r == le_value(digits@),
        r == digits@[0] + 256 * digits@[1] + 65536 * digits@[2] + 16777216 * digits@[3],
{
    let b: [u8; 4] = [digits[3], digits[2], digits[1], digits[0]];
    proof {
        assert(b@ =~= digits@.reverse());
    }
    u32_from_be_bytes(b)
}

/// A vector of the bytes of a slice.
pub fn copied(source: &[u8]) -> (r: Vec<u8>)
    ensures
        r@ == source@,
{
    let mut out: Vec<u8> = Vec::new();
    out.extend_from_slice(source);
    out
}

/// What four bytes stand for: big-endian, the first weighs most; little-endian, the last does.
pub proof fn four_bytes_are_weighed_by_their_places(a: u8, b: u8, c: u8, d: u8)
    ensures
        be_value(seq![a, b, c, d]) == 16777216 * a + 65536 * b + 256 * c + d,
        le_value(seq![a, b, c, d]) == a + 256 * b + 65536 * c + 16777216 * d,
{
    reveal_with_fuel(be_value, 5);
    assert(seq![a, b, c, d].reverse() =~= seq![d, c, b, a]);
}

} // verus!
