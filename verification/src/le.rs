//! Little-endian 32-bit integers: reading and writing a 4-byte field of
//! the buffer at a given offset, with the signed view reinterpreting the
//! same bytes in two's complement.

use vstd::prelude::*;

verus! {

/// The unsigned 32-bit value stored little-endian at offset `i`.
pub open spec fn le_u32_at(b: Seq<u8>, i: int) -> u32
    recommends
        0 <= i && i + 4 <= b.len(),
{
    (b[i] + 0x100 * b[i + 1] + 0x10000 * b[i + 2] + 0x1000000 * b[i + 3]) as u32
}

/// The signed 32-bit value stored little-endian at offset `i`: the same
/// bytes read in two's complement.
pub open spec fn le_i32_at(b: Seq<u8>, i: int) -> i32
    recommends
        0 <= i && i + 4 <= b.len(),
{
    le_u32_at(b, i) as i32
}

/// The four little-endian bytes of an unsigned 32-bit value.
pub open spec fn u32_le_bytes(v: u32) -> Seq<u8> {
    seq![
        (v % 0x100) as u8,
        ((v / 0x100) % 0x100) as u8,
        ((v / 0x10000) % 0x100) as u8,
        ((v / 0x1000000) % 0x100) as u8,
    ]
}

/// The four little-endian bytes of a signed 32-bit value, in two's
/// complement.
pub open spec fn i32_le_bytes(v: i32) -> Seq<u8> {
    u32_le_bytes(v as u32)
}

/// The buffer with the 4 bytes at offset `i` replaced by `w` and every
/// other byte unchanged.
pub open spec fn splice4(b: Seq<u8>, i: int, w: Seq<u8>) -> Seq<u8>
    recommends
        0 <= i && i + 4 <= b.len() && w.len() == 4,
{
    b.take(i) + w + b.skip(i + 4)
}

/// Reading back the four bytes of a value yields the value.
pub proof fn lemma_u32_le_round_trip(v: u32)
    ensures
        u32_le_bytes(v).len() == 4,
        le_u32_at(u32_le_bytes(v), 0) == v,
{
    let b = u32_le_bytes(v);
    assert(b[0] + 0x100 * b[1] + 0x10000 * b[2] + 0x1000000 * b[3] == v) by (nonlinear_arith)
        requires
            b[0] == v % 0x100,
            b[1] == (v / 0x100) % 0x100,
            b[2] == (v / 0x10000) % 0x100,
            b[3] == (v / 0x1000000) % 0x100,
    ;
}

/// A 4-byte stretch that holds the little-endian bytes of a value reads
/// back as that value.
pub proof fn lemma_le_u32_at_of_bytes(b: Seq<u8>, i: int, v: u32)
    requires
        0 <= i && i + 4 <= b.len(),
        b.subrange(i, i + 4) == u32_le_bytes(v),
    ensures
        le_u32_at(b, i) == v,
{
    let w = u32_le_bytes(v);
    assert(b[i] == w[0] && b[i + 1] == w[1] && b[i + 2] == w[2] && b[i + 3] == w[3]) by {
        assert(b.subrange(i, i + 4)[0] == b[i]);
        assert(b.subrange(i, i + 4)[1] == b[i + 1]);
        assert(b.subrange(i, i + 4)[2] == b[i + 2]);
        assert(b.subrange(i, i + 4)[3] == b[i + 3]);
    }
    lemma_u32_le_round_trip(v);
}

/// Reading a spliced-in value back from the spliced buffer yields the
/// value, and bytes outside the spliced field are unchanged.
pub proof fn lemma_splice4_read_back(b: Seq<u8>, i: int, v: u32)
    requires
        0 <= i && i + 4 <= b.len(),
    ensures
        splice4(b, i, u32_le_bytes(v)).len() == b.len(),
        le_u32_at(splice4(b, i, u32_le_bytes(v)), i) == v,
        forall|j: int|
            0 <= j < b.len() && !(i <= j < i + 4) ==> splice4(b, i, u32_le_bytes(v))[j] == b[j],
{
    let s = splice4(b, i, u32_le_bytes(v));
    let w = u32_le_bytes(v);
    assert(s[i] == w[0] && s[i + 1] == w[1] && s[i + 2] == w[2] && s[i + 3] == w[3]);
    lemma_u32_le_round_trip(v);
}

/// Read the unsigned 32-bit little-endian integer at offset `idx`.
pub fn read_u32_le(data: &[u8], idx: usize) -> (v: u32)
    requires
        idx + 4 <= data@.len(),
    ensures
        v == le_u32_at(data@, idx as int),
{
    let b0 = data[idx] as u32;
    let b1 = data[idx + 1] as u32;
    let b2 = data[idx + 2] as u32;
    let b3 = data[idx + 3] as u32;
    b0 + 0x100 * b1 + 0x10000 * b2 + 0x1000000 * b3
}

/// Read the signed 32-bit little-endian integer at offset `idx`.
pub fn read_i32_le(data: &[u8], idx: usize) -> (v: i32)
    requires
        idx + 4 <= data@.len(),
    ensures
        v == le_i32_at(data@, idx as int),
{
    read_u32_le(data, idx) as i32
}

/// Write `v` as 4 little-endian bytes at offset `idx`.
pub fn write_u32_le(data: &mut Vec<u8>, idx: usize, v: u32)
    requires
        idx + 4 <= old(data)@.len(),
    ensures
        final(data)@ == splice4(old(data)@, idx as int, u32_le_bytes(v)),
{
    let n = data.len();
    assert(idx + 4 <= n <= usize::MAX);
    data.set(idx, (v % 0x100) as u8);
    data.set(idx + 1, ((v / 0x100) % 0x100) as u8);
    data.set(idx + 2, ((v / 0x10000) % 0x100) as u8);
    data.set(idx + 3, ((v / 0x1000000) % 0x100) as u8);
    proof {
        assert(data@ =~= splice4(old(data)@, idx as int, u32_le_bytes(v)));
    }
}

/// Write `v` as 4 little-endian bytes at offset `idx`, in two's complement.
pub fn write_i32_le(data: &mut Vec<u8>, idx: usize, v: i32)
    requires
        idx + 4 <= old(data)@.len(),
    ensures
        final(data)@ == splice4(old(data)@, idx as int, i32_le_bytes(v)),
{
    write_u32_le(data, idx, v as u32);
}

} // verus!
