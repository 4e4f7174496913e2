//! Little-endian 32-bit fields inside byte sequences.
use vstd::arithmetic::power::pow;
use vstd::prelude::*;

verus! {

/// The number that the four bytes at `at` stand for, least significant byte first.
pub open spec fn u32_at(bytes: Seq<u8>, at: int) -> int {
    bytes[at] + 0x100 * bytes[at + 1] + 0x1_0000 * bytes[at + 2] + 0x100_0000 * bytes[at + 3]
}

/// The four bytes that stand for `n`, least significant byte first.
pub open spec fn u32_bytes(n: int) -> Seq<u8> {
    seq![
        (n % 0x100) as u8,
        (n / 0x100 % 0x100) as u8,
        (n / 0x1_0000 % 0x100) as u8,
        (n / 0x100_0000 % 0x100) as u8,
    ]
}

/// Reading the four bytes of a number gives the number back.
pub proof fn law_u32_bytes_read_back(n: int)
    requires
        0 <= n <= u32::MAX,
    ensures
        u32_bytes(n).len() == 4,
        u32_at(u32_bytes(n), 0) == n,
{
}

/// Each byte of a field has a weight of its own, 256 to the power of its place: a change of that
/// byte changes the number by the difference times the weight, whatever the other bytes are.
pub proof fn law_byte_weight(bytes: Seq<u8>, at: int, place: int, byte: u8)
    requires
        0 <= at,
        at + 4 <= bytes.len(),
        0 <= place < 4,
    ensures
        u32_at(bytes.update(at + place, byte), at) - u32_at(bytes, at) == (byte - bytes[at + place])
            * pow(256, place as nat),
{
    reveal_with_fuel(pow, 4);
    assert(pow(256, 0) == 1);
    assert(pow(256, 1) == 0x100);
    assert(pow(256, 2) == 0x1_0000);
    assert(pow(256, 3) == 0x100_0000);
    let changed = bytes.update(at + place, byte);
    let d = byte - bytes[at + place];
    if place == 0 {
        assert(d * pow(256, place as nat) == d);
    } else if place == 1 {
        assert(d * pow(256, place as nat) == 0x100 * d);
    } else if place == 2 {
        assert(d * pow(256, place as nat) == 0x1_0000 * d);
    } else {
        assert(d * pow(256, place as nat) == 0x100_0000 * d);
    }
}

/// A field of four zero bytes is zero.
pub proof fn law_zero_bytes(bytes: Seq<u8>, at: int)
    requires
        0 <= at,
        at + 4 <= bytes.len(),
        forall|i: int| at <= i < at + 4 ==> bytes[i] == 0,
    ensures
        u32_at(bytes, at) == 0,
{
}

/// Only its own four bytes count for a field, wherever they stand.
pub proof fn law_field_is_local(one: Seq<u8>, here: int, other: Seq<u8>, there: int)
    requires
        0 <= here,
        here + 4 <= one.len(),
        0 <= there,
        there + 4 <= other.len(),
        one.subrange(here, here + 4) == other.subrange(there, there + 4),
    ensures
        u32_at(one, here) == u32_at(other, there),
{
    let a = one.subrange(here, here + 4);
    let b = other.subrange(there, there + 4);
    assert(a[0] == one[here] && a[1] == one[here + 1] && a[2] == one[here + 2] && a[3] == one[here
        + 3]);
    assert(b[0] == other[there] && b[1] == other[there + 1] && b[2] == other[there + 2] && b[3]
        == other[there + 3]);
}

/// Reads the number at `at`.
pub fn read_u32(bytes: &[u8], at: usize) -> (n: u32)
    requires
        at + 4 <= bytes@.len(),
    ensures
        n == u32_at(bytes@, at as int),
{
    bytes[at] as u32 + 0x100 * bytes[at + 1] as u32 + 0x1_0000 * bytes[at + 2] as u32
        + 0x100_0000 * bytes[at + 3] as u32
}

/// Appends the four bytes of `n`.
pub fn push_u32(bytes: &mut Vec<u8>, n: u32)
    ensures
        final(bytes)@ == old(bytes)@ + u32_bytes(n as int),
{
    bytes.push((n % 0x100) as u8);
    bytes.push((n / 0x100 % 0x100) as u8);
    bytes.push((n / 0x1_0000 % 0x100) as u8);
    bytes.push((n / 0x100_0000 % 0x100) as u8);
}

} // verus!
