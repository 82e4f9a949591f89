//! The wire format primitives protocol messages are built from: fixed
//! little-endian integers and length-prefixed byte strings, each with an
//! exact model and a round-trip law.

use vstd::prelude::*;

verus! {

/// The eight little-endian bytes of a 64-bit integer.
pub open spec fn spec_le64(v: u64) -> Seq<u8> {
    seq![
        (v & 0xff) as u8,
        ((v >> 8) & 0xff) as u8,
        ((v >> 16) & 0xff) as u8,
        ((v >> 24) & 0xff) as u8,
        ((v >> 32) & 0xff) as u8,
        ((v >> 40) & 0xff) as u8,
        ((v >> 48) & 0xff) as u8,
        ((v >> 56) & 0xff) as u8,
    ]
}

/// The integer eight little-endian bytes denote.
pub open spec fn spec_from_le64(s: Seq<u8>) -> u64
    recommends
        s.len() == 8,
{
    (s[0] as u64) | ((s[1] as u64) << 8) | ((s[2] as u64) << 16) | ((s[3] as u64) << 24) | ((
    s[4] as u64) << 32) | ((s[5] as u64) << 40) | ((s[6] as u64) << 48) | ((s[7] as u64) << 56)
}

/// Reading back the bytes of an integer yields the integer.
pub proof fn lemma_le64_round(v: u64)
    ensures
        spec_from_le64(spec_le64(v)) == v,
{
    let b0 = (v & 0xff) as u8;
    let b1 = ((v >> 8) & 0xff) as u8;
    let b2 = ((v >> 16) & 0xff) as u8;
    let b3 = ((v >> 24) & 0xff) as u8;
    let b4 = ((v >> 32) & 0xff) as u8;
    let b5 = ((v >> 40) & 0xff) as u8;
    let b6 = ((v >> 48) & 0xff) as u8;
    let b7 = ((v >> 56) & 0xff) as u8;
    assert((b0 as u64) | ((b1 as u64) << 8) | ((b2 as u64) << 16) | ((b3 as u64) << 24) | ((
    b4 as u64) << 32) | ((b5 as u64) << 40) | ((b6 as u64) << 48) | ((b7 as u64) << 56) == v)
        by (bit_vector)
        requires
            b0 == (v & 0xff) as u8,
            b1 == ((v >> 8) & 0xff) as u8,
            b2 == ((v >> 16) & 0xff) as u8,
            b3 == ((v >> 24) & 0xff) as u8,
            b4 == ((v >> 32) & 0xff) as u8,
            b5 == ((v >> 40) & 0xff) as u8,
            b6 == ((v >> 48) & 0xff) as u8,
            b7 == ((v >> 56) & 0xff) as u8,
    ;
}

/// Appends the little-endian bytes of an integer.
pub fn push_u64(out: &mut Vec<u8>, v: u64)
    ensures
        final(out)@ == old(out)@ + spec_le64(v),
{
    out.push((v & 0xff) as u8);
    out.push(((v >> 8) & 0xff) as u8);
    out.push(((v >> 16) & 0xff) as u8);
    out.push(((v >> 24) & 0xff) as u8);
    out.push(((v >> 32) & 0xff) as u8);
    out.push(((v >> 40) & 0xff) as u8);
    out.push(((v >> 48) & 0xff) as u8);
    out.push(((v >> 56) & 0xff) as u8);
    proof {
        assert(out@ =~= old(out)@ + spec_le64(v));
    }
}

/// Reads the integer at `off`, little endian.
pub fn read_u64(b: &Vec<u8>, off: usize) -> (r: u64)
    requires
        off + 8 <= b@.len(),
    ensures
        r == spec_from_le64(b@.subrange(off as int, off + 8)),
{
    let n = b.len();
    let r = (b[off] as u64) | ((b[off + 1] as u64) << 8) | ((b[off + 2] as u64) << 16) | ((b[off
        + 3] as u64) << 24) | ((b[off + 4] as u64) << 32) | ((b[off + 5] as u64) << 40) | ((b[off
        + 6] as u64) << 48) | ((b[off + 7] as u64) << 56);
    proof {
        let s = b@.subrange(off as int, off + 8);
        assert(s[0] == b@[off as int]);
        assert(s[1] == b@[off + 1]);
        assert(s[2] == b@[off + 2]);
        assert(s[3] == b@[off + 3]);
        assert(s[4] == b@[off + 4]);
        assert(s[5] == b@[off + 5]);
        assert(s[6] == b@[off + 6]);
        assert(s[7] == b@[off + 7]);
    }
    r
}

/// The four little-endian bytes of a 32-bit integer.
pub open spec fn spec_le32(v: u32) -> Seq<u8> {
    seq![
        (v & 0xff) as u8,
        ((v >> 8) & 0xff) as u8,
        ((v >> 16) & 0xff) as u8,
        ((v >> 24) & 0xff) as u8,
    ]
}

/// The integer four little-endian bytes denote.
pub open spec fn spec_from_le32(s: Seq<u8>) -> u32
    recommends
        s.len() == 4,
{
    (s[0] as u32) | ((s[1] as u32) << 8) | ((s[2] as u32) << 16) | ((s[3] as u32) << 24)
}

/// Reading back the bytes of an integer yields the integer.
pub proof fn lemma_le32_round(v: u32)
    ensures
        spec_from_le32(spec_le32(v)) == v,
{
    let b0 = (v & 0xff) as u8;
    let b1 = ((v >> 8) & 0xff) as u8;
    let b2 = ((v >> 16) & 0xff) as u8;
    let b3 = ((v >> 24) & 0xff) as u8;
    assert((b0 as u32) | ((b1 as u32) << 8) | ((b2 as u32) << 16) | ((b3 as u32) << 24) == v)
        by (bit_vector)
        requires
            b0 == (v & 0xff) as u8,
            b1 == ((v >> 8) & 0xff) as u8,
            b2 == ((v >> 16) & 0xff) as u8,
            b3 == ((v >> 24) & 0xff) as u8,
    ;
}

/// Appends the little-endian bytes of an integer.
pub fn push_u32(out: &mut Vec<u8>, v: u32)
    ensures
        final(out)@ == old(out)@ + spec_le32(v),
{
    out.push((v & 0xff) as u8);
    out.push(((v >> 8) & 0xff) as u8);
    out.push(((v >> 16) & 0xff) as u8);
    out.push(((v >> 24) & 0xff) as u8);
    proof {
        assert(out@ =~= old(out)@ + spec_le32(v));
    }
}

/// Reads the integer at `off`, little endian.
pub fn read_u32(b: &Vec<u8>, off: usize) -> (r: u32)
    requires
        off + 4 <= b@.len(),
    ensures
        r == spec_from_le32(b@.subrange(off as int, off + 4)),
{
    let n = b.len();
    let r = (b[off] as u32) | ((b[off + 1] as u32) << 8) | ((b[off + 2] as u32) << 16) | ((b[off
        + 3] as u32) << 24);
    proof {
        let s = b@.subrange(off as int, off + 4);
        assert(s[0] == b@[off as int]);
        assert(s[1] == b@[off + 1]);
        assert(s[2] == b@[off + 2]);
        assert(s[3] == b@[off + 3]);
    }
    r
}

/// The two little-endian bytes of a 16-bit integer.
pub open spec fn spec_le16(v: u16) -> Seq<u8> {
    seq![(v & 0xff) as u8, ((v >> 8) & 0xff) as u8]
}

/// The integer two little-endian bytes denote.
pub open spec fn spec_from_le16(s: Seq<u8>) -> u16
    recommends
        s.len() == 2,
{
    (s[0] as u16) | ((s[1] as u16) << 8)
}

/// Reading back the bytes of an integer yields the integer.
pub proof fn lemma_le16_round(v: u16)
    ensures
        spec_from_le16(spec_le16(v)) == v,
{
    let b0 = (v & 0xff) as u8;
    let b1 = ((v >> 8) & 0xff) as u8;
    assert((b0 as u16) | ((b1 as u16) << 8) == v) by (bit_vector)
        requires
            b0 == (v & 0xff) as u8,
            b1 == ((v >> 8) & 0xff) as u8,
    ;
}

/// Appends the little-endian bytes of an integer.
pub fn push_u16(out: &mut Vec<u8>, v: u16)
    ensures
        final(out)@ == old(out)@ + spec_le16(v),
{
    out.push((v & 0xff) as u8);
    out.push(((v >> 8) & 0xff) as u8);
    proof {
        assert(out@ =~= old(out)@ + spec_le16(v));
    }
}

/// Reads the integer at `off`, little endian.
pub fn read_u16(b: &Vec<u8>, off: usize) -> (r: u16)
    requires
        off + 2 <= b@.len(),
    ensures
        r == spec_from_le16(b@.subrange(off as int, off + 2)),
{
    let n = b.len();
    let r = (b[off] as u16) | ((b[off + 1] as u16) << 8);
    proof {
        let s = b@.subrange(off as int, off + 2);
        assert(s[0] == b@[off as int]);
        assert(s[1] == b@[off + 1]);
    }
    r
}

/// A byte string framed by its 64-bit length.
pub open spec fn spec_framed(data: Seq<u8>) -> Seq<u8> {
    spec_le64(data.len() as u64) + data
}

/// Appends a length-prefixed byte string.
pub fn push_framed(out: &mut Vec<u8>, data: &Vec<u8>)
    ensures
        final(out)@ == old(out)@ + spec_framed(data@),
{
    push_u64(out, data.len() as u64);
    let ghost mid = out@;
    let n = data.len();
    let mut i: usize = 0;
    while i < n
        invariant
            n == data@.len(),
            0 <= i <= n,
            out@ == mid + data@.subrange(0, i as int),
        decreases n - i,
    {
        out.push(data[i]);
        proof {
            assert(out@ =~= mid + data@.subrange(0, i + 1));
        }
        i = i + 1;
    }
    proof {
        assert(data@.subrange(0, n as int) =~= data@);
        assert(out@ =~= old(out)@ + spec_framed(data@));
    }
}

/// What reading the length-prefixed byte string at `off` yields: the
/// string and the offset just past it, or nothing when the buffer is too
/// short for the prefix or the announced length.
pub open spec fn spec_read_framed(b: Seq<u8>, off: int) -> Option<(Seq<u8>, int)> {
    if 0 <= off && off + 8 <= b.len() {
        let l = spec_from_le64(b.subrange(off, off + 8)) as int;
        if off + 8 + l <= b.len() {
            Some((b.subrange(off + 8, off + 8 + l), off + 8 + l))
        } else {
            None
        }
    } else {
        None
    }
}

/// Reading a string framed into a buffer yields the string.
pub proof fn lemma_read_framed_round(pre: Seq<u8>, data: Seq<u8>, post: Seq<u8>)
    requires
        data.len() <= u64::MAX,
    ensures
        spec_read_framed(pre + spec_framed(data) + post, pre.len() as int) == Some(
            (data, pre.len() + 8 + data.len() as int),
        ),
{
    let b = pre + spec_framed(data) + post;
    let off = pre.len() as int;
    assert(b.subrange(off, off + 8) =~= spec_le64(data.len() as u64));
    lemma_le64_round(data.len() as u64);
    assert(b.subrange(off + 8, off + 8 + data.len()) =~= data);
}

/// A frame sitting at `off` inside a buffer reads back as its data.
pub proof fn lemma_read_framed_mid(b: Seq<u8>, off: int, data: Seq<u8>)
    requires
        data.len() <= u64::MAX,
        0 <= off,
        off + 8 + data.len() <= b.len(),
        b.subrange(off, off + 8) == spec_le64(data.len() as u64),
        b.subrange(off + 8, off + 8 + data.len() as int) == data,
    ensures
        spec_read_framed(b, off) == Some((data, off + 8 + data.len() as int)),
{
    lemma_le64_round(data.len() as u64);
}

/// Reads the length-prefixed byte string at `off`, matching
/// `spec_read_framed`.
pub fn read_framed(b: &Vec<u8>, off: usize) -> (r: Option<(Vec<u8>, usize)>)
    ensures
        match r {
            Some(p) => spec_read_framed(b@, off as int) == Some((p.0@, p.1 as int)),
            None => spec_read_framed(b@, off as int) is None,
        },
{
    if off > b.len() || b.len() - off < 8 {
        return None;
    }
    let len64 = read_u64(b, off);
    if len64 > (b.len() - off - 8) as u64 {
        return None;
    }
    let len = len64 as usize;
    let start = off + 8;
    let mut data: Vec<u8> = Vec::new();
    let mut i: usize = 0;
    while i < len
        invariant
            b@.len() <= usize::MAX,
            start + len <= b@.len(),
            0 <= i <= len,
            data@ == b@.subrange(start as int, start + i),
        decreases len - i,
    {
        data.push(b[start + i]);
        proof {
            assert(data@ =~= b@.subrange(start as int, start + i + 1));
        }
        i = i + 1;
    }
    Some((data, start + len))
}

} // verus!
