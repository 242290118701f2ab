use crate::checksum::{digest_views, xor_fold, Checksum};
use crate::samples::{
    i16_le_bytes_strided, i32_le_bytes, lemma_le_bytes_i32_concat, lemma_le_bytes_i32_injective,
    le_bytes_i16, le_bytes_i32, strided,
};
use blake2::{Blake2b, Digest};
use vstd::prelude::*;

verus! {

/// The BLAKE2b hasher of the blake2 crate (64-byte output), held opaque.
#[verifier::external_type_specification]
#[verifier::external_body]
pub struct ExBlake2b(Blake2b);

/// The bytes a BLAKE2b hasher has been fed since it was created.
pub uninterp spec fn blake2b_input(h: Blake2b) -> Seq<u8>;

/// The 64-byte BLAKE2b digest of a byte sequence.
pub uninterp spec fn blake2b_digest(data: Seq<u8>) -> Seq<u8>;

/// Relies on `<Blake2b as Digest>::new`: a fresh hasher with 64-byte output
/// that has been fed nothing.
#[verifier::external_body]
fn hasher_new() -> (h: Blake2b)
    ensures
        blake2b_input(h) == Seq::<u8>::empty(),
{
    <Blake2b as Digest>::new()
}

/// Relies on `<Blake2b as Digest>::input`: streaming input, so feeding `a`
/// then `b` is the same as feeding `a + b`.
#[verifier::external_body]
fn hasher_input(h: &mut Blake2b, bytes: &[u8])
    ensures
        blake2b_input(*final(h)) == blake2b_input(*old(h)) + bytes@,
{
    h.input(bytes);
}

/// Relies on `<Blake2b as Digest>::result`: the digest of everything fed.
#[verifier::external_body]
fn hasher_result(h: Blake2b) -> (r: [u8; 64])
    ensures
        r@ == blake2b_digest(blake2b_input(h)),
{
    let out = h.result();
    let mut r = [0u8; 64];
    r.copy_from_slice(&out);
    r
}

/// The digests of a sequence of per-channel byte streams, in channel order.
pub open spec fn channel_digests(chans: Seq<Seq<u8>>) -> Seq<Seq<u8>> {
    chans.map_values(|b: Seq<u8>| blake2b_digest(b))
}

/// The checksum of per-channel byte streams: the XOR fold of their digests.
pub open spec fn channel_checksum(chans: Seq<Seq<u8>>) -> Seq<u8> {
    xor_fold(channel_digests(chans))
}

/// The byte streams that per-channel 32-bit samples feed to the accumulators.
pub open spec fn pcm32_streams(fed: Seq<Seq<i32>>) -> Seq<Seq<u8>> {
    fed.map_values(|s: Seq<i32>| le_bytes_i32(s))
}

/// The byte streams that per-channel 16-bit samples feed to the accumulators.
pub open spec fn pcm16_streams(fed: Seq<Seq<i16>>) -> Seq<Seq<u8>> {
    fed.map_values(|s: Seq<i16>| le_bytes_i16(s))
}

/// The samples of a sequence of blocks, joined in order.
pub open spec fn joined<T>(blocks: Seq<Seq<T>>) -> Seq<T>
    decreases blocks.len(),
{
    if blocks.len() == 0 {
        Seq::empty()
    } else {
        joined(blocks.drop_last()) + blocks.last()
    }
}

/// The bytes an accumulator has been fed after taking each block of `blocks`
/// in turn, as little-endian 32-bit samples.
pub open spec fn fed_blocks(blocks: Seq<Seq<i32>>) -> Seq<u8>
    decreases blocks.len(),
{
    if blocks.len() == 0 {
        Seq::empty()
    } else {
        fed_blocks(blocks.drop_last()) + le_bytes_i32(blocks.last())
    }
}

proof fn lemma_fed_blocks_joined(blocks: Seq<Seq<i32>>)
    ensures
        fed_blocks(blocks) == le_bytes_i32(joined(blocks)),
    decreases blocks.len(),
{
    if blocks.len() > 0 {
        lemma_fed_blocks_joined(blocks.drop_last());
        lemma_le_bytes_i32_concat(joined(blocks.drop_last()), blocks.last());
    }
}

/// The checksum depends on the ordered samples of each channel alone, not on
/// how the decoder cut them into blocks: `a[c]` and `b[c]` are two blockings of
/// channel `c`, and when every channel joins to the same samples, the
/// accumulators end up fed the same bytes and the checksums agree.
pub proof fn lemma_blocking_invariant(a: Seq<Seq<Seq<i32>>>, b: Seq<Seq<Seq<i32>>>)
    requires
        a.len() == b.len(),
        forall|c: int| 0 <= c < a.len() ==> #[trigger] joined(a[c]) == joined(b[c]),
    ensures
        Seq::new(a.len(), |c: int| fed_blocks(a[c])) == Seq::new(b.len(), |c: int| fed_blocks(b[c])),
        channel_checksum(Seq::new(a.len(), |c: int| fed_blocks(a[c]))) == channel_checksum(
            Seq::new(b.len(), |c: int| fed_blocks(b[c])),
        ),
{
    assert forall|c: int| 0 <= c < a.len() implies #[trigger] fed_blocks(a[c]) == fed_blocks(b[c]) by {
        lemma_fed_blocks_joined(a[c]);
        lemma_fed_blocks_joined(b[c]);
        assert(joined(a[c]) == joined(b[c]));
    }
    assert(Seq::new(a.len(), |c: int| fed_blocks(a[c])) =~= Seq::new(b.len(), |c: int| fed_blocks(b[c])));
}

/// Changing one sample of one channel changes the bytes that channel's
/// accumulator is fed. (Whether the digests then differ rests on BLAKE2b.)
pub proof fn lemma_changed_sample_changes_input(fed: Seq<Seq<i32>>, c: int, k: int, v: i32)
    requires
        0 <= c < fed.len(),
        0 <= k < fed[c].len(),
        v != fed[c][k],
    ensures
        pcm32_streams(fed.update(c, fed[c].update(k, v)))[c] != pcm32_streams(fed)[c],
{
    let changed = fed[c].update(k, v);
    if le_bytes_i32(changed) == le_bytes_i32(fed[c]) {
        lemma_le_bytes_i32_injective(changed, fed[c]);
        assert(changed[k] == v);
    }
}

/// Run `c` of a planar block: the `c`-th stretch of `d` samples, cut at the
/// end of the buffer.
pub open spec fn planar_run(buf: Seq<i32>, d: nat, c: nat) -> Seq<i32> {
    let lo: int = if c * d < buf.len() { (c * d) as int } else { buf.len() as int };
    let hi: int = if (c + 1) * d < buf.len() { ((c + 1) * d) as int } else { buf.len() as int };
    buf.subrange(lo, hi)
}

/// One BLAKE2b accumulator per audio channel. The number of channels is fixed
/// when the bank is made; the bytes fed to accumulator `c` come from channel
/// `c` alone.
pub struct ChannelAccumulators {
    hashers: Vec<Blake2b>,
}

impl View for ChannelAccumulators {
    /// The bytes fed so far, per channel.
    type V = Seq<Seq<u8>>;

    closed spec fn view(&self) -> Seq<Seq<u8>> {
        Seq::new(self.hashers@.len(), |c: int| blake2b_input(self.hashers@[c]))
    }
}

impl ChannelAccumulators {
    /// A bank of `channels` accumulators, each fed nothing yet.
    pub fn new(channels: usize) -> (r: ChannelAccumulators)
        ensures
            r@ == Seq::new(channels as nat, |c: int| Seq::<u8>::empty()),
    {
        let mut hashers: Vec<Blake2b> = Vec::new();
        let mut i: usize = 0;
        while i < channels
            invariant
                i <= channels,
                hashers@.len() == i,
                forall|c: int| 0 <= c < i ==> blake2b_input(#[trigger] hashers@[c]) == Seq::<u8>::empty(),
            decreases channels - i,
        {
            hashers.push(hasher_new());
            i = i + 1;
        }
        let r = ChannelAccumulators { hashers };
        assert(r@ =~= Seq::new(channels as nat, |c: int| Seq::<u8>::empty()));
        r
    }

    /// The number of channels.
    pub fn channels(&self) -> (r: usize)
        ensures
            r == self@.len(),
    {
        self.hashers.len()
    }

    /// Feeds `bytes` to the accumulator of channel `c`.
    pub fn absorb(&mut self, c: usize, bytes: &[u8])
        requires
            c < old(self)@.len(),
        ensures
            final(self)@ == old(self)@.update(c as int, old(self)@[c as int] + bytes@),
    {
        let mut h = self.hashers.remove(c);
        hasher_input(&mut h, bytes);
        self.hashers.insert(c, h);
        assert(self@ =~= old(self)@.update(c as int, old(self)@[c as int] + bytes@));
    }

    /// Feeds a planar block: `buf` holds the channels one after another, `d`
    /// samples each, and channel `c` takes run `c` as little-endian 32-bit
    /// samples. A channel whose run lies past the end of `buf` takes nothing.
    pub fn absorb_planar(&mut self, buf: &[i32], d: usize)
        ensures
            final(self)@.len() == old(self)@.len(),
            forall|c: int| 0 <= c < old(self)@.len() ==> #[trigger] final(self)@[c]
                == old(self)@[c] + le_bytes_i32(planar_run(buf@, d as nat, c as nat)),
    {
        let n = self.hashers.len();
        let len = buf.len();
        let mut c: usize = 0;
        let mut lo: usize = 0;
        while c < n
            invariant
                n == old(self)@.len(),
                len == buf@.len(),
                c <= n,
                lo <= len,
                lo == (if c * d < len { c * d } else { len as int }),
                self@.len() == n,
                forall|j: int| 0 <= j < c ==> #[trigger] self@[j]
                    == old(self)@[j] + le_bytes_i32(planar_run(buf@, d as nat, j as nat)),
                forall|j: int| c <= j < n ==> #[trigger] self@[j] == old(self)@[j],
            decreases n - c,
        {
            let hi: usize = if d > len - lo { len } else { lo + d };
            assert(hi == (if (c + 1) * d < len { (c + 1) * d } else { len as int })) by (nonlinear_arith)
                requires
                    lo == (if c * d < len { c * d } else { len as int }),
                    hi == (if d > len - lo { len as int } else { lo + d }),
                    lo <= len,
                    d >= 0,
                    c >= 0,
            ;
            let bytes = i32_le_bytes(buf, lo, hi);
            self.absorb(c, bytes.as_slice());
            lo = hi;
            c = c + 1;
        }
    }

    /// Feeds an interleaved block of 16-bit samples: with `n` channels, the
    /// samples at indices `c`, `c + n`, `c + 2n`, ... go to channel `c`, as
    /// little-endian 16-bit samples.
    pub fn absorb_interleaved(&mut self, buf: &[i16])
        ensures
            final(self)@.len() == old(self)@.len(),
            forall|c: int| 0 <= c < old(self)@.len() ==> #[trigger] final(self)@[c]
                == old(self)@[c] + le_bytes_i16(strided(buf@, old(self)@.len(), c as nat)),
    {
        let n = self.hashers.len();
        let mut c: usize = 0;
        while c < n
            invariant
                n == old(self)@.len(),
                c <= n,
                self@.len() == n,
                forall|j: int| 0 <= j < c ==> #[trigger] self@[j]
                    == old(self)@[j] + le_bytes_i16(strided(buf@, n as nat, j as nat)),
                forall|j: int| c <= j < n ==> #[trigger] self@[j] == old(self)@[j],
            decreases n - c,
        {
            let bytes = i16_le_bytes_strided(buf, n, c);
            self.absorb(c, bytes.as_slice());
            c = c + 1;
        }
    }

    /// Feeds one block given channel by channel: channel `c` takes `chans[c]`
    /// as little-endian 32-bit samples; channels the block lacks take nothing,
    /// and block channels beyond the bank's count are left out.
    pub fn absorb_channels(&mut self, chans: &Vec<Vec<i32>>)
        ensures
            final(self)@.len() == old(self)@.len(),
            forall|c: int| 0 <= c < old(self)@.len() ==> #[trigger] final(self)@[c] == (if c
                < chans@.len() {
                old(self)@[c] + le_bytes_i32(chans@[c]@)
            } else {
                old(self)@[c]
            }),
    {
        let n = self.hashers.len();
        let mut c: usize = 0;
        while c < n
            invariant
                n == old(self)@.len(),
                c <= n,
                self@.len() == n,
                forall|j: int| 0 <= j < c ==> #[trigger] self@[j] == (if j < chans@.len() {
                    old(self)@[j] + le_bytes_i32(chans@[j]@)
                } else {
                    old(self)@[j]
                }),
                forall|j: int| c <= j < n ==> #[trigger] self@[j] == old(self)@[j],
            decreases n - c,
        {
            if c < chans.len() {
                let ch: &Vec<i32> = &chans[c];
                let bytes = i32_le_bytes(ch.as_slice(), 0, ch.len());
                assert(ch@.subrange(0, ch@.len() as int) =~= ch@);
                self.absorb(c, bytes.as_slice());
            } else {
                assert(self@.update(c as int, self@[c as int]) =~= self@);
            }
            c = c + 1;
        }
    }

    /// Finalizes every accumulator once, giving the digests in channel order.
    pub fn digests(self) -> (r: Vec<[u8; 64]>)
        ensures
            digest_views(r@) == channel_digests(self@),
    {
        let ghost fed = self@;
        let mut hashers = self.hashers;
        let mut out: Vec<[u8; 64]> = Vec::new();
        let ghost n = hashers@.len();
        while hashers.len() > 0
            invariant
                out@.len() + hashers@.len() == n,
                fed.len() == n,
                forall|j: int| 0 <= j < out@.len() ==> #[trigger] out@[j]@ == blake2b_digest(fed[j]),
                forall|j: int| 0 <= j < hashers@.len() ==> #[trigger] blake2b_input(hashers@[j])
                    == fed[out@.len() + j],
            decreases hashers@.len(),
        {
            let h = hashers.remove(0);
            let d = hasher_result(h);
            out.push(d);
        }
        assert(digest_views(out@) =~= channel_digests(fed));
        out
    }

    /// Finalizes every accumulator and folds the digests into one checksum.
    pub fn finish(self) -> (r: Checksum)
        ensures
            r@ == channel_checksum(self@),
    {
        let ds = self.digests();
        Checksum::new_xor(&ds)
    }
}

} // verus!
