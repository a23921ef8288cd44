use vstd::prelude::*;

verus! {

/// Little-endian bytes of a 64-bit integer.
pub open spec fn le64(x: u64) -> Seq<u8> {
    seq![
        (x & 0xff) as u8,
        ((x >> 8) & 0xff) as u8,
        ((x >> 16) & 0xff) as u8,
        ((x >> 24) & 0xff) as u8,
        ((x >> 32) & 0xff) as u8,
        ((x >> 40) & 0xff) as u8,
        ((x >> 48) & 0xff) as u8,
        ((x >> 56) & 0xff) as u8,
    ]
}

/// Little-endian bytes of a 32-bit integer.
pub open spec fn le32(x: u32) -> Seq<u8> {
    seq![(x & 0xff) as u8, ((x >> 8) & 0xff) as u8, ((x >> 16) & 0xff) as u8, ((x >> 24) & 0xff) as u8]
}

pub open spec fn join8(b0: u8, b1: u8, b2: u8, b3: u8, b4: u8, b5: u8, b6: u8, b7: u8) -> u64 {
    (b0 as u64) | ((b1 as u64) << 8) | ((b2 as u64) << 16) | ((b3 as u64) << 24) | ((b4 as u64)
        << 32) | ((b5 as u64) << 40) | ((b6 as u64) << 48) | ((b7 as u64) << 56)
}

pub open spec fn join4(b0: u8, b1: u8, b2: u8, b3: u8) -> u32 {
    (b0 as u32) | ((b1 as u32) << 8) | ((b2 as u32) << 16) | ((b3 as u32) << 24)
}

/// The 64-bit integer whose little-endian bytes start at `p`.
pub open spec fn get64(b: Seq<u8>, p: int) -> u64 {
    join8(b[p], b[p + 1], b[p + 2], b[p + 3], b[p + 4], b[p + 5], b[p + 6], b[p + 7])
}

/// The 32-bit integer whose little-endian bytes start at `p`.
pub open spec fn get32(b: Seq<u8>, p: int) -> u32 {
    join4(b[p], b[p + 1], b[p + 2], b[p + 3])
}

pub proof fn lemma_join8_le64(x: u64)
    ensures
        join8(
            le64(x)[0],
            le64(x)[1],
            le64(x)[2],
            le64(x)[3],
            le64(x)[4],
            le64(x)[5],
            le64(x)[6],
            le64(x)[7],
        ) == x,
{
    let b = le64(x);
    let (b0, b1, b2, b3) = (b[0], b[1], b[2], b[3]);
    let (b4, b5, b6, b7) = (b[4], b[5], b[6], b[7]);
    assert(b0 == (x & 0xff) as u8 && b1 == ((x >> 8) & 0xff) as u8 && b2 == ((x >> 16) & 0xff) as u8
        && b3 == ((x >> 24) & 0xff) as u8 && b4 == ((x >> 32) & 0xff) as u8 && b5 == ((x >> 40)
        & 0xff) as u8 && b6 == ((x >> 48) & 0xff) as u8 && b7 == ((x >> 56) & 0xff) as u8);
    assert(((x & 0xff) as u8 as u64) | ((((x >> 8) & 0xff) as u8 as u64) << 8) | ((((x >> 16)
        & 0xff) as u8 as u64) << 16) | ((((x >> 24) & 0xff) as u8 as u64) << 24) | ((((x >> 32)
        & 0xff) as u8 as u64) << 32) | ((((x >> 40) & 0xff) as u8 as u64) << 40) | ((((x >> 48)
        & 0xff) as u8 as u64) << 48) | ((((x >> 56) & 0xff) as u8 as u64) << 56) == x)
        by (bit_vector);
}

pub proof fn lemma_join4_le32(x: u32)
    ensures
        join4(le32(x)[0], le32(x)[1], le32(x)[2], le32(x)[3]) == x,
{
    let b = le32(x);
    assert(b[0] == (x & 0xff) as u8 && b[1] == ((x >> 8) & 0xff) as u8 && b[2] == ((x >> 16)
        & 0xff) as u8 && b[3] == ((x >> 24) & 0xff) as u8);
    assert(((x & 0xff) as u8 as u32) | ((((x >> 8) & 0xff) as u8 as u32) << 8) | ((((x >> 16)
        & 0xff) as u8 as u32) << 16) | ((((x >> 24) & 0xff) as u8 as u32) << 24) == x)
        by (bit_vector);
}

/// Appends the little-endian bytes of `x`.
pub fn put_u64(out: &mut Vec<u8>, x: u64)
    ensures
        final(out)@ == old(out)@ + le64(x),
{
    out.push((x & 0xff) as u8);
    out.push(((x >> 8) & 0xff) as u8);
    out.push(((x >> 16) & 0xff) as u8);
    out.push(((x >> 24) & 0xff) as u8);
    out.push(((x >> 32) & 0xff) as u8);
    out.push(((x >> 40) & 0xff) as u8);
    out.push(((x >> 48) & 0xff) as u8);
    out.push(((x >> 56) & 0xff) as u8);
    assert(out@ =~= old(out)@ + le64(x));
}

/// Appends the little-endian bytes of `x`.
pub fn put_u32(out: &mut Vec<u8>, x: u32)
    ensures
        final(out)@ == old(out)@ + le32(x),
{
    out.push((x & 0xff) as u8);
    out.push(((x >> 8) & 0xff) as u8);
    out.push(((x >> 16) & 0xff) as u8);
    out.push(((x >> 24) & 0xff) as u8);
    assert(out@ =~= old(out)@ + le32(x));
}

/// Appends every byte of `b`.
pub fn put_bytes(out: &mut Vec<u8>, b: &[u8])
    ensures
        final(out)@ == old(out)@ + b@,
{
    let ghost start = out@;
    let mut i: usize = 0;
    while i < b.len()
        invariant
            i <= b@.len(),
            out@ == start + b@.subrange(0, i as int),
        decreases b@.len() - i,
    {
        out.push(b[i]);
        i = i + 1;
        assert(out@ =~= start + b@.subrange(0, i as int));
    }
    assert(b@.subrange(0, b@.len() as int) =~= b@);
}

/// The 64-bit integer at `p`, if eight bytes stand there.
pub fn read_u64(b: &[u8], p: usize) -> (r: Option<u64>)
    ensures
        r == (if p + 8 <= b@.len() { Some(get64(b@, p as int)) } else { None::<u64> }),
        r is Some ==> p + 8 <= usize::MAX,
{
    if p > b.len() || b.len() - p < 8 {
        return None;
    }
    Some(
        (b[p] as u64) | ((b[p + 1] as u64) << 8) | ((b[p + 2] as u64) << 16) | ((b[p + 3] as u64)
            << 24) | ((b[p + 4] as u64) << 32) | ((b[p + 5] as u64) << 40) | ((b[p + 6] as u64)
            << 48) | ((b[p + 7] as u64) << 56),
    )
}

/// The 32-bit integer at `p`, if four bytes stand there.
pub fn read_u32(b: &[u8], p: usize) -> (r: Option<u32>)
    ensures
        r == (if p + 4 <= b@.len() { Some(get32(b@, p as int)) } else { None::<u32> }),
        r is Some ==> p + 4 <= usize::MAX,
{
    if p > b.len() || b.len() - p < 4 {
        return None;
    }
    Some(
        (b[p] as u32) | ((b[p + 1] as u32) << 8) | ((b[p + 2] as u32) << 16) | ((b[p + 3] as u32)
            << 24),
    )
}

/// A copy of `b[p..q]`.
pub fn copy_range(b: &[u8], p: usize, q: usize) -> (r: Vec<u8>)
    requires
        p <= q <= b@.len(),
    ensures
        r@ == b@.subrange(p as int, q as int),
{
    let mut r: Vec<u8> = Vec::new();
    let mut i: usize = p;
    while i < q
        invariant
            p <= i <= q <= b@.len(),
            r@ == b@.subrange(p as int, i as int),
        decreases q - i,
    {
        r.push(b[i]);
        i = i + 1;
        assert(r@ =~= b@.subrange(p as int, i as int));
    }
    r
}

} // verus!
