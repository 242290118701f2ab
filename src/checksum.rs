use vstd::prelude::*;

verus! {

/// Width in bytes of a checksum and of every per-channel digest.
pub const CHECKSUM_LEN: usize = 64;

/// XOR of column `i` over every digest of `ds`.
pub open spec fn xor_column(ds: Seq<Seq<u8>>, i: int) -> u8
    decreases ds.len(),
{
    if ds.len() == 0 {
        0u8
    } else {
        xor_column(ds.drop_last(), i) ^ ds.last()[i]
    }
}

/// The byte-wise XOR of a sequence of 64-byte digests: byte `i` of the result is
/// the XOR of byte `i` of every input.
pub open spec fn xor_fold(ds: Seq<Seq<u8>>) -> Seq<u8> {
    Seq::new(CHECKSUM_LEN as nat, |i: int| xor_column(ds, i))
}

/// The digests held in a vector of arrays, as byte sequences.
pub open spec fn digest_views(ds: Seq<[u8; 64]>) -> Seq<Seq<u8>> {
    ds.map_values(|d: [u8; 64]| d@)
}

/// Hex digit of a nibble, lower case.
pub open spec fn hex_digit(n: u8) -> char {
    if n == 0 { '0' }
    else if n == 1 { '1' }
    else if n == 2 { '2' }
    else if n == 3 { '3' }
    else if n == 4 { '4' }
    else if n == 5 { '5' }
    else if n == 6 { '6' }
    else if n == 7 { '7' }
    else if n == 8 { '8' }
    else if n == 9 { '9' }
    else if n == 10 { 'a' }
    else if n == 11 { 'b' }
    else if n == 12 { 'c' }
    else if n == 13 { 'd' }
    else if n == 14 { 'e' }
    else { 'f' }
}

/// Two lower-case hex digits per byte, high nibble first, no separators.
pub open spec fn hex_of(bytes: Seq<u8>) -> Seq<char>
    decreases bytes.len(),
{
    if bytes.len() == 0 {
        Seq::empty()
    } else {
        let b = bytes.last();
        hex_of(bytes.drop_last()) + seq![hex_digit(b / 16), hex_digit(b % 16)]
    }
}

proof fn lemma_xor_swap(x: u8, y: u8, z: u8)
    ensures
        (x ^ y) ^ z == (x ^ z) ^ y,
{
    assert((x ^ y) ^ z == (x ^ z) ^ y) by (bit_vector);
}

/// Taking digest `j` out of the fold and XOR-ing it back in gives the same column.
proof fn lemma_xor_column_remove(ds: Seq<Seq<u8>>, j: int, i: int)
    requires
        0 <= j < ds.len(),
    ensures
        xor_column(ds, i) == xor_column(ds.remove(j), i) ^ ds[j][i],
    decreases ds.len(),
{
    if j == ds.len() - 1 {
        assert(ds.remove(j) =~= ds.drop_last());
    } else {
        let dl = ds.drop_last();
        lemma_xor_column_remove(dl, j, i);
        let r = ds.remove(j);
        assert(r.drop_last() =~= dl.remove(j));
        assert(r.last() == ds.last());
        lemma_xor_swap(xor_column(dl.remove(j), i), dl[j][i], ds.last()[i]);
    }
}

proof fn lemma_xor_column_order(a: Seq<Seq<u8>>, b: Seq<Seq<u8>>, i: int)
    requires
        a.to_multiset() == b.to_multiset(),
    ensures
        xor_column(a, i) == xor_column(b, i),
    decreases a.len(),
{
    broadcast use vstd::seq_lib::group_to_multiset_ensures;

    if a.len() == 0 {
        assert(a.to_multiset().len() == a.len());
        assert(b.to_multiset().len() == b.len());
    } else {
        let x = a.last();
        assert(a.to_multiset().count(x) > 0) by {
            assert(a.contains(x)) by {
                assert(a[a.len() - 1] == x);
            }
        }
        assert(b.contains(x));
        let j = choose|j: int| 0 <= j < b.len() && b[j] == x;
        assert(a.remove(a.len() - 1) =~= a.drop_last());
        assert(a.drop_last().to_multiset() == b.remove(j).to_multiset());
        lemma_xor_column_order(a.drop_last(), b.remove(j), i);
        lemma_xor_column_remove(b, j, i);
    }
}

/// The XOR fold does not depend on the order of its inputs: any two sequences
/// holding the same digests, each as often, fold to the same bytes.
pub proof fn lemma_xor_fold_order(a: Seq<Seq<u8>>, b: Seq<Seq<u8>>)
    requires
        a.to_multiset() == b.to_multiset(),
    ensures
        xor_fold(a) == xor_fold(b),
{
    assert forall|i: int| 0 <= i < CHECKSUM_LEN implies xor_column(a, i) == xor_column(b, i) by {
        lemma_xor_column_order(a, b, i);
    }
    assert(xor_fold(a) =~= xor_fold(b));
}

proof fn lemma_xor_cancel(x: u8, a: u8, b: u8)
    requires
        a != b,
    ensures
        x ^ a != x ^ b,
{
    assert(x ^ a != x ^ b) by (bit_vector)
        requires
            a != b,
    ;
}

/// Replacing one digest by a different one always changes the fold: a change
/// in one channel's digest is never cancelled by the other channels.
pub proof fn lemma_changed_digest_changes_fold(ds: Seq<Seq<u8>>, c: int, d: Seq<u8>)
    requires
        0 <= c < ds.len(),
        ds[c].len() == CHECKSUM_LEN,
        d.len() == CHECKSUM_LEN,
        d != ds[c],
    ensures
        xor_fold(ds.update(c, d)) != xor_fold(ds),
{
    assert(exists|i: int| 0 <= i < CHECKSUM_LEN && d[i] != ds[c][i]) by {
        if forall|i: int| 0 <= i < CHECKSUM_LEN ==> d[i] == ds[c][i] {
            assert(d =~= ds[c]);
        }
    }
    let i = choose|i: int| 0 <= i < CHECKSUM_LEN && d[i] != ds[c][i];
    let changed = ds.update(c, d);
    lemma_xor_column_remove(changed, c, i);
    lemma_xor_column_remove(ds, c, i);
    assert(changed.remove(c) =~= ds.remove(c));
    lemma_xor_cancel(xor_column(ds.remove(c), i), d[i], ds[c][i]);
    assert(xor_fold(changed)[i] != xor_fold(ds)[i]);
}

/// A content fingerprint of decoded audio: 64 bytes, compared byte for byte.
pub struct Checksum {
    checksum: [u8; 64],
}

impl View for Checksum {
    type V = Seq<u8>;

    closed spec fn view(&self) -> Seq<u8> {
        self.checksum@
    }
}

impl Checksum {
    /// Every checksum holds 64 bytes.
    pub proof fn lemma_view_len(self)
        ensures
            self@.len() == CHECKSUM_LEN,
    {
    }

    /// A checksum holding the given bytes.
    pub fn new(a: [u8; 64]) -> (r: Checksum)
        ensures
            r@ == a@,
            r@.len() == CHECKSUM_LEN,
    {
        Checksum { checksum: a }
    }

    /// The bytes of the checksum.
    pub fn bytes(&self) -> (r: [u8; 64])
        ensures
            r@ == self@,
    {
        self.checksum
    }

    /// Folds per-channel digests into one checksum by byte-wise XOR.
    /// With no digest at all the result is 64 zero bytes.
    pub fn new_xor(digests: &Vec<[u8; 64]>) -> (r: Checksum)
        ensures
            r@ == xor_fold(digest_views(digests@)),
    {
        let mut acc: [u8; 64] = [0u8; 64];
        let mut k: usize = 0;
        assert(acc@ =~= xor_fold(digest_views(digests@.subrange(0, 0))));
        while k < digests.len()
            invariant
                k <= digests.len(),
                acc@ == xor_fold(digest_views(digests@.subrange(0, k as int))),
            decreases digests.len() - k,
        {
            let d: &[u8; 64] = &digests[k];
            let ghost before = digest_views(digests@.subrange(0, k as int));
            let ghost after = digest_views(digests@.subrange(0, k as int + 1));
            assert(after.drop_last() =~= before);
            assert(after.last() == d@);
            let mut i: usize = 0;
            while i < CHECKSUM_LEN
                invariant
                    i <= CHECKSUM_LEN,
                    acc@.len() == CHECKSUM_LEN,
                    after.len() > 0,
                    after.drop_last() == before,
                    after.last() == d@,
                    forall|j: int| 0 <= j < i ==> acc@[j] == #[trigger] xor_column(after, j),
                    forall|j: int| i <= j < CHECKSUM_LEN ==> acc@[j] == #[trigger] xor_column(before, j),
                decreases CHECKSUM_LEN - i,
            {
                assert(xor_column(after, i as int) == xor_column(before, i as int) ^ d@[i as int]);
                acc[i] = acc[i] ^ d[i];
                i = i + 1;
            }
            assert(acc@ =~= xor_fold(after));
            k = k + 1;
        }
        assert(digests@.subrange(0, digests.len() as int) =~= digests@);
        Checksum { checksum: acc }
    }

    /// Byte-wise equality.
    pub fn equals(&self, other: &Checksum) -> (r: bool)
        ensures
            r == (self@ == other@),
    {
        let mut i: usize = 0;
        while i < CHECKSUM_LEN
            invariant
                i <= CHECKSUM_LEN,
                self@.len() == CHECKSUM_LEN,
                other@.len() == CHECKSUM_LEN,
                forall|j: int| 0 <= j < i ==> self@[j] == other@[j],
            decreases CHECKSUM_LEN - i,
        {
            if self.checksum[i] != other.checksum[i] {
                return false;
            }
            i = i + 1;
        }
        assert(self@ =~= other@);
        true
    }

    /// The checksum as 128 lower-case hex characters.
    pub fn to_hex(&self) -> (r: String)
        ensures
            r@ == hex_of(self@),
            r@.len() == 2 * CHECKSUM_LEN,
    {
        let mut out = String::new();
        let mut i: usize = 0;
        while i < CHECKSUM_LEN
            invariant
                i <= CHECKSUM_LEN,
                self@.len() == CHECKSUM_LEN,
                out@ == hex_of(self@.subrange(0, i as int)),
                out@.len() == 2 * i,
            decreases CHECKSUM_LEN - i,
        {
            let b = self.checksum[i];
            let hi = hex_digit_str(b / 16);
            let lo = hex_digit_str(b % 16);
            out.append(hi);
            out.append(lo);
            assert(self@.subrange(0, i as int + 1).drop_last() =~= self@.subrange(0, i as int));
            i = i + 1;
        }
        assert(self@.subrange(0, CHECKSUM_LEN as int) =~= self@);
        out
    }
}

impl PartialEq for Checksum {
    fn eq(&self, other: &Checksum) -> (r: bool)
        ensures
            r == (self@ == other@),
    {
        self.equals(other)
    }
}

impl vstd::std_specs::cmp::PartialEqSpecImpl for Checksum {
    open spec fn obeys_eq_spec() -> bool {
        true
    }

    open spec fn eq_spec(&self, other: &Checksum) -> bool {
        self@ == other@
    }
}

impl Default for Checksum {
    fn default() -> (r: Checksum)
        ensures
            r@ == Seq::new(CHECKSUM_LEN as nat, |i: int| 0u8),
    {
        let r = Checksum::new([0u8; 64]);
        assert(r@ =~= Seq::new(CHECKSUM_LEN as nat, |i: int| 0u8));
        r
    }
}

/// The hex digit of a nibble as a one-character string.
fn hex_digit_str(n: u8) -> (r: &'static str)
    requires
        n < 16,
    ensures
        r@ == seq![hex_digit(n)],
{
    proof {
        reveal_strlit("0");
        reveal_strlit("1");
        reveal_strlit("2");
        reveal_strlit("3");
        reveal_strlit("4");
        reveal_strlit("5");
        reveal_strlit("6");
        reveal_strlit("7");
        reveal_strlit("8");
        reveal_strlit("9");
        reveal_strlit("a");
        reveal_strlit("b");
        reveal_strlit("c");
        reveal_strlit("d");
        reveal_strlit("e");
        reveal_strlit("f");
    }
    if n == 0 { "0" }
    else if n == 1 { "1" }
    else if n == 2 { "2" }
    else if n == 3 { "3" }
    else if n == 4 { "4" }
    else if n == 5 { "5" }
    else if n == 6 { "6" }
    else if n == 7 { "7" }
    else if n == 8 { "8" }
    else if n == 9 { "9" }
    else if n == 10 { "a" }
    else if n == 11 { "b" }
    else if n == 12 { "c" }
    else if n == 13 { "d" }
    else if n == 14 { "e" }
    else { "f" }
}

} // verus!
