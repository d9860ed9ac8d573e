//! Little-endian byte encodings of the fixed-width integers the persisted
//! formats are built from.

use vstd::prelude::*;

verus! {

/// The two little-endian bytes of a value in [0, 2^16).
pub open spec fn le2(v: int) -> Seq<u8> {
    seq![(v % 256) as u8, (v / 256 % 256) as u8]
}

/// The value held by two little-endian bytes.
pub open spec fn le2_val(s: Seq<u8>) -> int {
    s[0] as int + 256 * (s[1] as int)
}

/// The four little-endian bytes of a value in [0, 2^32).
pub open spec fn le4(v: int) -> Seq<u8> {
    seq![
        (v % 256) as u8,
        (v / 256 % 256) as u8,
        (v / 256 / 256 % 256) as u8,
        (v / 256 / 256 / 256 % 256) as u8,
    ]
}

/// The value held by four little-endian bytes.
pub open spec fn le4_val(s: Seq<u8>) -> int {
    s[0] as int + 256 * (s[1] as int + 256 * (s[2] as int + 256 * (s[3] as int)))
}

/// The eight little-endian bytes of a value in [0, 2^64).
pub open spec fn le8(v: int) -> Seq<u8> {
    seq![
        (v % 256) as u8,
        (v / 256 % 256) as u8,
        (v / 256 / 256 % 256) as u8,
        (v / 256 / 256 / 256 % 256) as u8,
        (v / 256 / 256 / 256 / 256 % 256) as u8,
        (v / 256 / 256 / 256 / 256 / 256 % 256) as u8,
        (v / 256 / 256 / 256 / 256 / 256 / 256 % 256) as u8,
        (v / 256 / 256 / 256 / 256 / 256 / 256 / 256 % 256) as u8,
    ]
}

/// The value held by eight little-endian bytes.
pub open spec fn le8_val(s: Seq<u8>) -> int {
    s[0] as int + 256 * (s[1] as int + 256 * (s[2] as int + 256 * (s[3] as int + 256 * (
    s[4] as int + 256 * (s[5] as int + 256 * (s[6] as int + 256 * (s[7] as int)))))))
}

/// Reading two little-endian bytes gives back the encoded value.
pub proof fn lemma_le2_roundtrip(v: int)
    requires
        0 <= v < 0x10000,
    ensures
        le2_val(le2(v)) == v,
{
}

/// Reading four little-endian bytes gives back the encoded value.
pub proof fn lemma_le4_roundtrip(v: int)
    requires
        0 <= v < 0x1_0000_0000,
    ensures
        le4_val(le4(v)) == v,
{
}

/// Reading eight little-endian bytes gives back the encoded value.
pub proof fn lemma_le8_roundtrip(v: int)
    requires
        0 <= v < 0x1_0000_0000_0000_0000,
    ensures
        le8_val(le8(v)) == v,
{
    let v1 = v / 256;
    let v2 = v1 / 256;
    let v3 = v2 / 256;
    let v4 = v3 / 256;
    let v5 = v4 / 256;
    let v6 = v5 / 256;
    let v7 = v6 / 256;
    assert(v7 < 256);
    assert(v6 == v6 % 256 + 256 * v7);
    assert(v5 == v5 % 256 + 256 * v6);
    assert(v4 == v4 % 256 + 256 * v5);
    assert(v3 == v3 % 256 + 256 * v4);
    assert(v2 == v2 % 256 + 256 * v3);
    assert(v1 == v1 % 256 + 256 * v2);
    assert(v == v % 256 + 256 * v1);
}

/// Appends the two little-endian bytes of `v`.
pub fn push_u16_le(out: &mut Vec<u8>, v: u16)
    ensures
        final(out)@ == old(out)@ + le2(v as int),
{
    out.push((v % 256) as u8);
    out.push((v / 256) as u8);
    proof {
        assert(out@ =~= old(out)@ + le2(v as int));
    }
}

/// Appends the four little-endian bytes of `v`.
pub fn push_u32_le(out: &mut Vec<u8>, v: u32)
    ensures
        final(out)@ == old(out)@ + le4(v as int),
{
    out.push((v % 256) as u8);
    out.push((v / 256 % 256) as u8);
    out.push((v / 256 / 256 % 256) as u8);
    out.push((v / 256 / 256 / 256) as u8);
    proof {
        assert(out@ =~= old(out)@ + le4(v as int));
    }
}

/// Appends the eight little-endian bytes of `v`.
pub fn push_u64_le(out: &mut Vec<u8>, v: u64)
    ensures
        final(out)@ == old(out)@ + le8(v as int),
{
    out.push((v % 256) as u8);
    out.push((v / 256 % 256) as u8);
    out.push((v / 256 / 256 % 256) as u8);
    out.push((v / 256 / 256 / 256 % 256) as u8);
    out.push((v / 256 / 256 / 256 / 256 % 256) as u8);
    out.push((v / 256 / 256 / 256 / 256 / 256 % 256) as u8);
    out.push((v / 256 / 256 / 256 / 256 / 256 / 256 % 256) as u8);
    out.push((v / 256 / 256 / 256 / 256 / 256 / 256 / 256) as u8);
    proof {
        assert(out@ =~= old(out)@ + le8(v as int));
    }
}

/// Reads the two little-endian bytes at `pos`.
pub fn read_u16_le(bytes: &Vec<u8>, pos: usize) -> (v: u16)
    requires
        pos + 2 <= usize::MAX,
        pos + 2 <= bytes@.len(),
    ensures
        v as int == le2_val(bytes@.subrange(pos as int, pos as int + 2)),
{
    bytes[pos] as u16 + 256 * (bytes[pos + 1] as u16)
}

/// Reads the four little-endian bytes at `pos`.
pub fn read_u32_le(bytes: &Vec<u8>, pos: usize) -> (v: u32)
    requires
        pos + 4 <= usize::MAX,
        pos + 4 <= bytes@.len(),
    ensures
        v as int == le4_val(bytes@.subrange(pos as int, pos as int + 4)),
{
    let b0 = bytes[pos] as u32;
    let b1 = bytes[pos + 1] as u32;
    let b2 = bytes[pos + 2] as u32;
    let b3 = bytes[pos + 3] as u32;
    b0 + 256 * (b1 + 256 * (b2 + 256 * b3))
}

/// Reads the eight little-endian bytes at `pos`.
pub fn read_u64_le(bytes: &Vec<u8>, pos: usize) -> (v: u64)
    requires
        pos + 8 <= usize::MAX,
        pos + 8 <= bytes@.len(),
    ensures
        v as int == le8_val(bytes@.subrange(pos as int, pos as int + 8)),
{
    let b0 = bytes[pos] as u64;
    let b1 = bytes[pos + 1] as u64;
    let b2 = bytes[pos + 2] as u64;
    let b3 = bytes[pos + 3] as u64;
    let b4 = bytes[pos + 4] as u64;
    let b5 = bytes[pos + 5] as u64;
    let b6 = bytes[pos + 6] as u64;
    let b7 = bytes[pos + 7] as u64;
    b0 + 256 * (b1 + 256 * (b2 + 256 * (b3 + 256 * (b4 + 256 * (b5 + 256 * (b6 + 256 * b7))))))
}

} // verus!
