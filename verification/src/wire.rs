//! Byte-level primitives shared by the wire forms and the canonical
//! commitment encodings: little-endian integers and buffer building.

use vstd::prelude::*;

verus! {

/// The little-endian bytes of a 64-bit integer.
pub open spec fn u64_le_bytes(v: u64) -> Seq<u8> {
    seq![
        (v % 256) as u8,
        ((v / 0x100) % 256) as u8,
        ((v / 0x10000) % 256) as u8,
        ((v / 0x1000000) % 256) as u8,
        ((v / 0x100000000) % 256) as u8,
        ((v / 0x10000000000) % 256) as u8,
        ((v / 0x1000000000000) % 256) as u8,
        ((v / 0x100000000000000) % 256) as u8,
    ]
}

/// A 64-bit integer is recoverable from its little-endian bytes.
pub proof fn lemma_u64_le_bytes_injective(x: u64, y: u64)
    requires
        u64_le_bytes(x) == u64_le_bytes(y),
    ensures
        x == y,
{
    assert(u64_le_bytes(x)[0] == u64_le_bytes(y)[0]);
    assert(u64_le_bytes(x)[1] == u64_le_bytes(y)[1]);
    assert(u64_le_bytes(x)[2] == u64_le_bytes(y)[2]);
    assert(u64_le_bytes(x)[3] == u64_le_bytes(y)[3]);
    assert(u64_le_bytes(x)[4] == u64_le_bytes(y)[4]);
    assert(u64_le_bytes(x)[5] == u64_le_bytes(y)[5]);
    assert(u64_le_bytes(x)[6] == u64_le_bytes(y)[6]);
    assert(u64_le_bytes(x)[7] == u64_le_bytes(y)[7]);
    assert(x % 256 == y % 256);
    assert((x / 0x100) % 256 == (y / 0x100) % 256);
    assert((x / 0x10000) % 256 == (y / 0x10000) % 256);
    assert((x / 0x1000000) % 256 == (y / 0x1000000) % 256);
    assert((x / 0x100000000) % 256 == (y / 0x100000000) % 256);
    assert((x / 0x10000000000) % 256 == (y / 0x10000000000) % 256);
    assert((x / 0x1000000000000) % 256 == (y / 0x1000000000000) % 256);
    assert((x / 0x100000000000000) % 256 == (y / 0x100000000000000) % 256);
    assert(x == y) by (bit_vector)
        requires
            x % 256 == y % 256,
            (x / 0x100) % 256 == (y / 0x100) % 256,
            (x / 0x10000) % 256 == (y / 0x10000) % 256,
            (x / 0x1000000) % 256 == (y / 0x1000000) % 256,
            (x / 0x100000000) % 256 == (y / 0x100000000) % 256,
            (x / 0x10000000000) % 256 == (y / 0x10000000000) % 256,
            (x / 0x1000000000000) % 256 == (y / 0x1000000000000) % 256,
            (x / 0x100000000000000) % 256 == (y / 0x100000000000000) % 256,
    ;
}

pub(crate) fn push_u64_le(out: &mut Vec<u8>, v: u64)
    ensures
        final(out)@ == old(out)@ + u64_le_bytes(v),
{
    out.push((v % 256) as u8);
    out.push(((v / 0x100) % 256) as u8);
    out.push(((v / 0x10000) % 256) as u8);
    out.push(((v / 0x1000000) % 256) as u8);
    out.push(((v / 0x100000000) % 256) as u8);
    out.push(((v / 0x10000000000) % 256) as u8);
    out.push(((v / 0x1000000000000) % 256) as u8);
    out.push(((v / 0x100000000000000) % 256) as u8);
    proof {
        assert(out@ =~= old(out)@ + u64_le_bytes(v));
    }
}

/// The little-endian bytes of a 16-bit integer.
pub open spec fn u16_le_bytes(v: u16) -> Seq<u8> {
    seq![(v % 256) as u8, (v / 256) as u8]
}

/// The 16-bit integer read from two little-endian bytes.
pub open spec fn u16_from_le(b0: u8, b1: u8) -> u16 {
    (b0 + 256 * b1) as u16
}

/// A 16-bit integer survives the round trip through its little-endian
/// bytes.
pub proof fn lemma_u16_le_roundtrip(v: u16)
    ensures
        u16_from_le(u16_le_bytes(v)[0], u16_le_bytes(v)[1]) == v,
{
    vstd::arithmetic::div_mod::lemma_fundamental_div_mod(v as int, 256);
}

/// Two little-endian bytes survive the round trip through the 16-bit
/// integer they encode.
pub proof fn lemma_u16_from_le_roundtrip(b0: u8, b1: u8)
    ensures
        u16_le_bytes(u16_from_le(b0, b1)) == seq![b0, b1],
{
    let v = u16_from_le(b0, b1);
    assert(v % 256 == b0 && v / 256 == b1) by (nonlinear_arith)
        requires
            0 <= b0 < 256,
            0 <= b1 < 256,
            v == b0 + 256 * b1,
    ;
    assert(u16_le_bytes(v) =~= seq![b0, b1]);
}

pub(crate) fn push_u16_le(out: &mut Vec<u8>, v: u16)
    ensures
        final(out)@ == old(out)@ + u16_le_bytes(v),
{
    out.push((v % 256) as u8);
    out.push((v / 256) as u8);
    proof {
        assert(out@ =~= old(out)@ + u16_le_bytes(v));
    }
}

pub(crate) fn read_u16_le(b0: u8, b1: u8) -> (r: u16)
    ensures
        r == u16_from_le(b0, b1),
{
    b0 as u16 + 256u16 * (b1 as u16)
}

pub(crate) fn push_bytes(out: &mut Vec<u8>, data: &[u8])
    ensures
        final(out)@ == old(out)@ + data@,
{
    let mut i: usize = 0;
    while i < data.len()
        invariant
            0 <= i <= data@.len(),
            out@ == old(out)@ + data@.subrange(0, i as int),
        decreases data@.len() - i,
    {
        proof {
            assert(old(out)@ + data@.subrange(0, i as int) + seq![data@[i as int]] =~= old(out)@
                + data@.subrange(0, i + 1));
        }
        out.push(data[i]);
        i += 1;
    }
    proof {
        assert(data@.subrange(0, data@.len() as int) =~= data@);
    }
}

/// Copies `len` bytes starting at `pos` into a fresh buffer.
pub(crate) fn read_vec(bytes: &Vec<u8>, pos: usize, len: usize) -> (r: Vec<u8>)
    requires
        pos + len <= bytes@.len(),
    ensures
        r@ == bytes@.subrange(pos as int, pos + len),
{
    let n = bytes.len();
    let mut out: Vec<u8> = Vec::new();
    let mut i: usize = 0;
    while i < len
        invariant
            0 <= i <= len,
            pos + len <= n,
            n == bytes@.len(),
            out@ == bytes@.subrange(pos as int, pos + i),
        decreases len - i,
    {
        proof {
            assert(bytes@.subrange(pos as int, pos + i) + seq![bytes@[pos + i]] =~= bytes@.subrange(
                pos as int,
                pos + i + 1,
            ));
        }
        out.push(bytes[pos + i]);
        i += 1;
    }
    out
}

/// Copies 32 bytes starting at `pos` into a fixed array.
pub(crate) fn read_array32(bytes: &Vec<u8>, pos: usize) -> (r: [u8; 32])
    requires
        pos + 32 <= bytes@.len(),
    ensures
        r@ == bytes@.subrange(pos as int, pos + 32),
{
    let n = bytes.len();
    let mut arr = [0u8; 32];
    let mut i: usize = 0;
    while i < 32
        invariant
            0 <= i <= 32,
            pos + 32 <= n,
            n == bytes@.len(),
            arr@.len() == 32,
            forall|j: int| 0 <= j < i ==> arr@[j] == bytes@[pos + j],
        decreases 32 - i,
    {
        arr[i] = bytes[pos + i];
        i += 1;
    }
    proof {
        assert(arr@ =~= bytes@.subrange(pos as int, pos + 32));
    }
    arr
}

pub(crate) fn bytes32_eq(a: &[u8; 32], b: &[u8; 32]) -> (r: bool)
    ensures
        r == (a@ == b@),
{
    let mut i: usize = 0;
    while i < 32
        invariant
            0 <= i <= 32,
            forall|j: int| 0 <= j < i ==> a@[j] == b@[j],
        decreases 32 - i,
    {
        if a[i] != b[i] {
            return false;
        }
        i += 1;
    }
    proof {
        assert(a@ =~= b@);
    }
    true
}

/// Bytewise lexicographic comparison of two equal-length byte strings.
pub open spec fn lex_cmp(a: Seq<u8>, b: Seq<u8>) -> core::cmp::Ordering
    decreases a.len(),
{
    if a.len() == 0 || b.len() == 0 {
        core::cmp::Ordering::Equal
    } else if a[0] < b[0] {
        core::cmp::Ordering::Less
    } else if a[0] > b[0] {
        core::cmp::Ordering::Greater
    } else {
        lex_cmp(a.skip(1), b.skip(1))
    }
}

pub(crate) fn bytes32_lex(a: &[u8; 32], b: &[u8; 32]) -> (r: core::cmp::Ordering)
    ensures
        r == lex_cmp(a@, b@),
{
    let mut i: usize = 0;
    proof {
        assert(a@.skip(0) =~= a@);
        assert(b@.skip(0) =~= b@);
    }
    while i < 32
        invariant
            0 <= i <= 32,
            lex_cmp(a@, b@) == lex_cmp(a@.skip(i as int), b@.skip(i as int)),
        decreases 32 - i,
    {
        if a[i] < b[i] {
            return core::cmp::Ordering::Less;
        }
        if a[i] > b[i] {
            return core::cmp::Ordering::Greater;
        }
        proof {
            assert(a@.skip(i as int).skip(1) =~= a@.skip(i + 1));
            assert(b@.skip(i as int).skip(1) =~= b@.skip(i + 1));
        }
        i += 1;
    }
    core::cmp::Ordering::Equal
}

} // verus!
