//! Fixed-width integer decoders for the container's two byte orders.
//!
//! Every numeric field in the format is either big-endian (the version
//! field) or little-endian (all size, count and length fields). The spec
//! functions [`be_val`] and [`le_val`] give the mathematical value of a byte
//! window under each order; the executable decoders are proved to return
//! exactly those values.

use vstd::prelude::*;

verus! {

/// `256^n`, the number of values a window of `n` bytes can take.
pub open spec fn pow256(n: nat) -> int
    decreases n,
{
    if n == 0 {
        1
    } else {
        256 * pow256((n - 1) as nat)
    }
}

/// Big-endian value of a byte window: the first byte is most significant.
pub open spec fn be_val(s: Seq<u8>) -> int
    decreases s.len(),
{
    if s.len() == 0 {
        0
    } else {
        be_val(s.drop_last()) * 256 + s.last()
    }
}

/// Little-endian value of a byte window: the first byte is least significant.
pub open spec fn le_val(s: Seq<u8>) -> int
    decreases s.len(),
{
    if s.len() == 0 {
        0
    } else {
        le_val(s.skip(1)) * 256 + s[0]
    }
}

/// `256^n` is at least 1.
pub proof fn lemma_pow256_pos(n: nat)
    ensures
        pow256(n) >= 1,
    decreases n,
{
    if n > 0 {
        lemma_pow256_pos((n - 1) as nat);
    }
}

/// `256^n` grows monotonically in `n`.
pub proof fn lemma_pow256_le(a: nat, b: nat)
    requires
        a <= b,
    ensures
        pow256(a) <= pow256(b),
    decreases b,
{
    if a < b {
        lemma_pow256_le(a, (b - 1) as nat);
        lemma_pow256_pos((b - 1) as nat);
    }
}

/// A window of `n` bytes decodes below `256^n` under the little-endian order.
pub proof fn lemma_le_val_bound(s: Seq<u8>)
    ensures
        0 <= le_val(s) < pow256(s.len()),
    decreases s.len(),
{
    if s.len() > 0 {
        lemma_le_val_bound(s.skip(1));
    }
}

/// Decodes a 2- or 4-byte window as a big-endian unsigned integer.
/// Used for the `VERS` section's version field.
pub fn to_u32(slice: &Vec<u8>) -> (r: u32)
    requires
        slice@.len() == 2 || slice@.len() == 4,
    ensures
        r == be_val(slice@),
{
    proof {
        assert(pow256(0) == 1);
        assert(pow256(1) == 256);
        assert(pow256(2) == 0x1_0000);
        assert(pow256(3) == 0x100_0000);
        assert(pow256(4) == 0x1_0000_0000);
    }
    let mut acc: u32 = 0;
    let mut i: usize = 0;
    while i < slice.len()
        invariant
            i <= slice@.len(),
            slice@.len() == 2 || slice@.len() == 4,
            acc == be_val(slice@.take(i as int)),
            acc < pow256(i as nat),
            pow256(4) == 0x1_0000_0000,
        decreases slice@.len() - i,
    {
        proof {
            lemma_pow256_le((i + 1) as nat, 4);
            assert(pow256((i + 1) as nat) == 256 * pow256(i as nat));
            assert(slice@.take(i + 1).drop_last() =~= slice@.take(i as int));
            assert(slice@.take(i + 1).last() == slice@[i as int]);
        }
        acc = acc * 256 + slice[i] as u32;
        i = i + 1;
    }
    proof {
        assert(slice@.take(slice@.len() as int) =~= slice@);
    }
    acc
}

/// Decodes a 2- or 4-byte window as a little-endian unsigned integer.
/// Used for section sizes, zone sizes and other size-like fields.
pub fn to_u32le(slice: &Vec<u8>) -> (r: u32)
    requires
        slice@.len() == 2 || slice@.len() == 4,
    ensures
        r == le_val(slice@),
{
    proof {
        assert(pow256(0) == 1);
        assert(pow256(1) == 256);
        assert(pow256(2) == 0x1_0000);
        assert(pow256(3) == 0x100_0000);
        assert(pow256(4) == 0x1_0000_0000);
        assert(slice@.skip(slice@.len() as int) =~= Seq::<u8>::empty());
    }
    let mut acc: u32 = 0;
    let mut i: usize = slice.len();
    while i > 0
        invariant
            i <= slice@.len(),
            slice@.len() == 2 || slice@.len() == 4,
            acc == le_val(slice@.skip(i as int)),
            acc < pow256((slice@.len() - i) as nat),
            pow256(4) == 0x1_0000_0000,
        decreases i,
    {
        proof {
            lemma_pow256_le((slice@.len() - i + 1) as nat, 4);
            assert(pow256((slice@.len() - i + 1) as nat) == 256 * pow256(
                (slice@.len() - i) as nat,
            ));
            assert(slice@.skip(i - 1).skip(1) =~= slice@.skip(i as int));
            assert(slice@.skip(i - 1)[0] == slice@[i - 1]);
        }
        i = i - 1;
        acc = acc * 256 + slice[i] as u32;
    }
    proof {
        assert(slice@.skip(0) =~= slice@);
    }
    acc
}

/// Decodes a 2-byte window as a big-endian unsigned integer.
pub fn to_u16(slice: &Vec<u8>) -> (r: u16)
    requires
        slice@.len() == 2,
    ensures
        r == be_val(slice@),
{
    let r: u16 = slice[0] as u16 * 256 + slice[1] as u16;
    proof {
        assert(slice@.drop_last() =~= seq![slice@[0]]);
        assert(seq![slice@[0]].drop_last() =~= Seq::<u8>::empty());
        assert(be_val(seq![slice@[0]]) == be_val(Seq::<u8>::empty()) * 256 + slice@[0]);
    }
    r
}

/// Decodes a 2-byte window as a little-endian unsigned integer.
/// Used for zone counts and sound filename-length fields.
pub fn to_u16le(slice: &Vec<u8>) -> (r: u16)
    requires
        slice@.len() == 2,
    ensures
        r == le_val(slice@),
{
    let r: u16 = slice[1] as u16 * 256 + slice[0] as u16;
    proof {
        assert(slice@.skip(1) =~= seq![slice@[1]]);
        assert(seq![slice@[1]].skip(1) =~= Seq::<u8>::empty());
        assert(le_val(seq![slice@[1]]) == le_val(Seq::<u8>::empty()) * 256 + slice@[1]);
    }
    r
}

} // verus!
