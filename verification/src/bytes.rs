//! Byte strings: comparison, fixed-size copies and little-endian integers.

use vstd::prelude::*;

verus! {

/// The number that `bytes` spell out with the least significant byte first.
pub open spec fn le_value(bytes: Seq<u8>) -> nat
    decreases bytes.len(),
{
    if bytes.len() == 0 {
        0
    } else {
        (bytes[0] + 256 * le_value(bytes.skip(1))) as nat
    }
}

/// The `width` lowest bytes of `value`, the least significant one first.
pub open spec fn le_bytes(value: nat, width: nat) -> Seq<u8>
    decreases width,
{
    if width == 0 {
        Seq::empty()
    } else {
        seq![(value % 256) as u8] + le_bytes(value / 256, (width - 1) as nat)
    }
}

/// All the byte strings of `parts`, one after the other.
pub open spec fn concat(parts: Seq<Seq<u8>>) -> Seq<u8>
    decreases parts.len(),
{
    if parts.len() == 0 {
        Seq::empty()
    } else {
        concat(parts.drop_last()) + parts.last()
    }
}

pub proof fn lemma_le_bytes_len(value: nat, width: nat)
    ensures
        le_bytes(value, width).len() == width,
    decreases width,
{
    if width > 0 {
        lemma_le_bytes_len(value / 256, (width - 1) as nat);
    }
}

/// The range of a number of `width` bytes.
pub open spec fn le_limit(width: nat) -> nat
    decreases width,
{
    if width == 0 {
        1
    } else {
        256 * le_limit((width - 1) as nat)
    }
}

/// Reading back the little-endian bytes of a number that fits in them gives the number.
pub proof fn lemma_le_round_trip(value: nat, width: nat)
    requires
        value < le_limit(width),
    ensures
        le_bytes(value, width).len() == width,
        le_value(le_bytes(value, width)) == value,
    decreases width,
{
    lemma_le_bytes_len(value, width);
    if width > 0 {
        let rest = le_bytes(value / 256, (width - 1) as nat);
        assert(value / 256 < le_limit((width - 1) as nat));
        lemma_le_round_trip(value / 256, (width - 1) as nat);
        assert(le_bytes(value, width).skip(1) =~= rest);
    }
}

pub proof fn lemma_le_limits()
    ensures
        le_limit(4) == 0x1_0000_0000,
        le_limit(8) == 0x1_0000_0000_0000_0000,
{
    reveal_with_fuel(le_limit, 9);
}

/// Whether two byte strings are the same.
pub(crate) fn bytes_eq(a: &[u8], b: &[u8]) -> (r: bool)
    ensures
        r == (a@ == b@),
{
    if a.len() != b.len() {
        return false;
    }
    let mut i: usize = 0;
    while i < a.len()
        invariant
            i <= a@.len(),
            a@.len() == b@.len(),
            forall|j: int| 0 <= j < i ==> a@[j] == b@[j],
        decreases a@.len() - i,
    {
        if a[i] != b[i] {
            return false;
        }
        i = i + 1;
    }
    assert(a@ =~= b@);
    true
}

/// Appends `tail` to `bytes`.
pub(crate) fn extend(bytes: &mut Vec<u8>, tail: &[u8])
    ensures
        final(bytes)@ == old(bytes)@ + tail@,
{
    bytes.extend_from_slice(tail);
    assert(bytes@ =~= old(bytes)@ + tail@);
}

/// A copy of `bytes` that owns its memory.
pub(crate) fn to_vec(bytes: &[u8]) -> (r: Vec<u8>)
    ensures
        r@ == bytes@,
{
    let mut r: Vec<u8> = Vec::new();
    extend(&mut r, bytes);
    assert(r@ =~= bytes@);
    r
}

/// The 32 bytes of `bytes` as an array.
pub(crate) fn array_32(bytes: &[u8]) -> (r: [u8; 32])
    requires
        bytes@.len() == 32,
    ensures
        r@ == bytes@,
{
    let mut r: [u8; 32] = [0u8; 32];
    let mut i: usize = 0;
    while i < 32
        invariant
            i <= 32,
            bytes@.len() == 32,
            forall|j: int| 0 <= j < i ==> r@[j] == bytes@[j],
        decreases 32 - i,
    {
        r[i] = bytes[i];
        i = i + 1;
    }
    assert(r@ =~= bytes@);
    r
}

/// The 64 bytes of `bytes` as an array.
pub(crate) fn array_64(bytes: &[u8]) -> (r: [u8; 64])
    requires
        bytes@.len() == 64,
    ensures
        r@ == bytes@,
{
    let mut r: [u8; 64] = [0u8; 64];
    let mut i: usize = 0;
    while i < 64
        invariant
            i <= 64,
            bytes@.len() == 64,
            forall|j: int| 0 <= j < i ==> r@[j] == bytes@[j],
        decreases 64 - i,
    {
        r[i] = bytes[i];
        i = i + 1;
    }
    assert(r@ =~= bytes@);
    r
}

/// The little-endian bytes of `value`.
pub(crate) fn u64_to_le_bytes(value: u64) -> (r: Vec<u8>)
    ensures
        r@ == le_bytes(value as nat, 8),
{
    let mut r: Vec<u8> = Vec::new();
    let mut rest = value;
    let mut i: u64 = 0;
    assert(le_bytes(value as nat, 8) =~= r@ + le_bytes(rest as nat, 8));
    while i < 8
        invariant
            i <= 8,
            le_bytes(value as nat, 8) == r@ + le_bytes(rest as nat, (8 - i) as nat),
        decreases 8 - i,
    {
        let ghost before = r@;
        r.push((rest % 256) as u8);
        assert(before + le_bytes(rest as nat, (8 - i) as nat) =~= r@ + le_bytes(
            rest as nat / 256,
            (7 - i) as nat,
        ));
        rest = rest / 256;
        i = i + 1;
    }
    assert(r@ + le_bytes(rest as nat, 0) =~= r@);
    r
}

} // verus!
