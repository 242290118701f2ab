use vstd::prelude::*;

verus! {

/// The four little-endian bytes of a 32-bit sample.
pub open spec fn i32_le(x: i32) -> Seq<u8> {
    let u = x as u32;
    seq![(u & 0xff) as u8, ((u >> 8) & 0xff) as u8, ((u >> 16) & 0xff) as u8, ((u >> 24) & 0xff) as u8]
}

/// The two little-endian bytes of a 16-bit sample.
pub open spec fn i16_le(x: i16) -> Seq<u8> {
    let u = x as u16;
    seq![(u & 0xff) as u8, ((u >> 8) & 0xff) as u8]
}

/// 32-bit samples laid out as little-endian bytes, in order, without padding.
pub open spec fn le_bytes_i32(s: Seq<i32>) -> Seq<u8>
    decreases s.len(),
{
    if s.len() == 0 {
        Seq::empty()
    } else {
        le_bytes_i32(s.drop_last()) + i32_le(s.last())
    }
}

/// 16-bit samples laid out as little-endian bytes, in order, without padding.
pub open spec fn le_bytes_i16(s: Seq<i16>) -> Seq<u8>
    decreases s.len(),
{
    if s.len() == 0 {
        Seq::empty()
    } else {
        le_bytes_i16(s.drop_last()) + i16_le(s.last())
    }
}

/// The samples of `s` whose index leaves remainder `c` when divided by `n`:
/// channel `c` of an interleaved buffer with `n` channels.
pub open spec fn strided<T>(s: Seq<T>, n: nat, c: nat) -> Seq<T>
    decreases s.len(),
{
    if s.len() == 0 {
        Seq::empty()
    } else if (s.len() - 1) % (n as int) == c {
        strided(s.drop_last(), n, c).push(s.last())
    } else {
        strided(s.drop_last(), n, c)
    }
}

pub proof fn lemma_le_bytes_i32_len(s: Seq<i32>)
    ensures
        le_bytes_i32(s).len() == 4 * s.len(),
    decreases s.len(),
{
    if s.len() > 0 {
        lemma_le_bytes_i32_len(s.drop_last());
    }
}

/// Encoding a concatenation is concatenating the encodings: how samples are
/// split into blocks does not change the bytes.
pub proof fn lemma_le_bytes_i32_concat(a: Seq<i32>, b: Seq<i32>)
    ensures
        le_bytes_i32(a + b) == le_bytes_i32(a) + le_bytes_i32(b),
    decreases b.len(),
{
    if b.len() == 0 {
        assert(a + b =~= a);
        assert(le_bytes_i32(a) + le_bytes_i32(b) =~= le_bytes_i32(a));
    } else {
        lemma_le_bytes_i32_concat(a, b.drop_last());
        assert((a + b).drop_last() =~= a + b.drop_last());
        assert(le_bytes_i32(a + b) =~= le_bytes_i32(a) + le_bytes_i32(b));
    }
}

/// Encoding a concatenation is concatenating the encodings (16-bit samples).
pub proof fn lemma_le_bytes_i16_concat(a: Seq<i16>, b: Seq<i16>)
    ensures
        le_bytes_i16(a + b) == le_bytes_i16(a) + le_bytes_i16(b),
    decreases b.len(),
{
    if b.len() == 0 {
        assert(a + b =~= a);
        assert(le_bytes_i16(a) + le_bytes_i16(b) =~= le_bytes_i16(a));
    } else {
        lemma_le_bytes_i16_concat(a, b.drop_last());
        assert((a + b).drop_last() =~= a + b.drop_last());
        assert(le_bytes_i16(a + b) =~= le_bytes_i16(a) + le_bytes_i16(b));
    }
}

proof fn lemma_i32_le_injective(x: i32, y: i32)
    requires
        i32_le(x) == i32_le(y),
    ensures
        x == y,
{
    let ux = x as u32;
    let uy = y as u32;
    assert(i32_le(x)[0] == i32_le(y)[0]);
    assert(i32_le(x)[1] == i32_le(y)[1]);
    assert(i32_le(x)[2] == i32_le(y)[2]);
    assert(i32_le(x)[3] == i32_le(y)[3]);
    assert(ux == uy) by (bit_vector)
        requires
            (ux & 0xff) as u8 == (uy & 0xff) as u8,
            ((ux >> 8) & 0xff) as u8 == ((uy >> 8) & 0xff) as u8,
            ((ux >> 16) & 0xff) as u8 == ((uy >> 16) & 0xff) as u8,
            ((ux >> 24) & 0xff) as u8 == ((uy >> 24) & 0xff) as u8,
    ;
    assert(x == y) by (bit_vector)
        requires
            x as u32 == y as u32,
    ;
}

/// Distinct sample sequences never encode to the same bytes.
pub proof fn lemma_le_bytes_i32_injective(a: Seq<i32>, b: Seq<i32>)
    requires
        le_bytes_i32(a) == le_bytes_i32(b),
    ensures
        a == b,
    decreases a.len(),
{
    lemma_le_bytes_i32_len(a);
    lemma_le_bytes_i32_len(b);
    if a.len() > 0 {
        let pa = le_bytes_i32(a.drop_last());
        let pb = le_bytes_i32(b.drop_last());
        lemma_le_bytes_i32_len(a.drop_last());
        lemma_le_bytes_i32_len(b.drop_last());
        assert(pa =~= le_bytes_i32(a).subrange(0, pa.len() as int));
        assert(pb =~= le_bytes_i32(b).subrange(0, pb.len() as int));
        lemma_le_bytes_i32_injective(a.drop_last(), b.drop_last());
        assert(i32_le(a.last()) =~= le_bytes_i32(a).subrange(pa.len() as int, le_bytes_i32(a).len() as int));
        assert(i32_le(b.last()) =~= le_bytes_i32(b).subrange(pb.len() as int, le_bytes_i32(b).len() as int));
        lemma_i32_le_injective(a.last(), b.last());
        assert(a =~= a.drop_last().push(a.last()));
        assert(b =~= b.drop_last().push(b.last()));
    }
}

/// Appends the little-endian bytes of one 32-bit sample.
fn push_i32_le(out: &mut Vec<u8>, x: i32)
    ensures
        final(out)@ == old(out)@ + i32_le(x),
{
    let u = x as u32;
    out.push((u & 0xff) as u8);
    out.push(((u >> 8) & 0xff) as u8);
    out.push(((u >> 16) & 0xff) as u8);
    out.push(((u >> 24) & 0xff) as u8);
    assert(final(out)@ =~= old(out)@ + i32_le(x));
}

/// Appends the little-endian bytes of one 16-bit sample.
fn push_i16_le(out: &mut Vec<u8>, x: i16)
    ensures
        final(out)@ == old(out)@ + i16_le(x),
{
    let u = x as u16;
    out.push((u & 0xff) as u8);
    out.push(((u >> 8) & 0xff) as u8);
    assert(final(out)@ =~= old(out)@ + i16_le(x));
}

/// The samples `buf[start..end]` as little-endian bytes, four per sample,
/// whatever the byte order of the machine.
pub fn i32_le_bytes(buf: &[i32], start: usize, end: usize) -> (r: Vec<u8>)
    requires
        start <= end <= buf@.len(),
    ensures
        r@ == le_bytes_i32(buf@.subrange(start as int, end as int)),
{
    let mut out: Vec<u8> = Vec::new();
    let mut i: usize = start;
    assert(buf@.subrange(start as int, start as int) =~= Seq::<i32>::empty());
    while i < end
        invariant
            start <= i <= end <= buf@.len(),
            out@ == le_bytes_i32(buf@.subrange(start as int, i as int)),
        decreases end - i,
    {
        push_i32_le(&mut out, buf[i]);
        assert(buf@.subrange(start as int, i as int + 1).drop_last() =~= buf@.subrange(start as int, i as int));
        i = i + 1;
    }
    out
}

/// Channel `c` of the interleaved 16-bit buffer `buf` with `n` channels, as
/// little-endian bytes, two per sample.
pub fn i16_le_bytes_strided(buf: &[i16], n: usize, c: usize) -> (r: Vec<u8>)
    requires
        c < n,
    ensures
        r@ == le_bytes_i16(strided(buf@, n as nat, c as nat)),
{
    let mut out: Vec<u8> = Vec::new();
    let mut i: usize = 0;
    assert(buf@.subrange(0, 0) =~= Seq::<i16>::empty());
    while i < buf.len()
        invariant
            c < n,
            i <= buf@.len(),
            out@ == le_bytes_i16(strided(buf@.subrange(0, i as int), n as nat, c as nat)),
        decreases buf.len() - i,
    {
        let ghost prefix = buf@.subrange(0, i as int + 1);
        assert(prefix.drop_last() =~= buf@.subrange(0, i as int));
        if i % n == c {
            push_i16_le(&mut out, buf[i]);
            proof {
                let prev = strided(buf@.subrange(0, i as int), n as nat, c as nat);
                assert(prev.push(buf@[i as int]).drop_last() =~= prev);
            }
        }
        i = i + 1;
    }
    assert(buf@.subrange(0, buf@.len() as int) =~= buf@);
    out
}

} // verus!
