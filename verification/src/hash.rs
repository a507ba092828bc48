//! Content-addressed block identifier: a 32-byte digest, with byte-wise
//! equality and the lexicographic order used by consensus tie-breaking.
use vstd::prelude::*;

verus! {

/// Number of bytes in a block hash.
pub const HASH_SIZE: usize = 32;

/// A block hash: 32 opaque bytes (the input is already a cryptographic digest).
#[derive(Clone, Copy, Debug, PartialEq, Eq, Hash, PartialOrd, Ord)]
pub struct BlockHash {
    pub bytes: [u8; 32],
}

impl View for BlockHash {
    type V = Seq<u8>;

    closed spec fn view(&self) -> Seq<u8> {
        self.bytes@
    }
}

/// Lexicographic strict order on equal-length byte strings: the sequences
/// differ first at some index where `a` holds the smaller byte.
pub open spec fn lex_lt(a: Seq<u8>, b: Seq<u8>) -> bool {
    exists|i: int|
        0 <= i < a.len() && i < b.len() && a[i] < b[i] && (forall|j: int|
            0 <= j < i ==> a[j] == b[j])
}

impl BlockHash {
    /// Builds a hash from raw bytes.
    pub fn from_bytes(bytes: [u8; 32]) -> (r: BlockHash)
        ensures
            r@ == bytes@,
    {
        BlockHash { bytes }
    }

    /// Builds a hash whose last eight bytes hold `w` big-endian and whose
    /// other bytes are zero; the lexicographic order of such hashes matches
    /// the numeric order of the words.
    pub fn from_u64(w: u64) -> (r: BlockHash)
        ensures
            r@ == spec_hash_from_u64(w),
    {
        let mut bytes = [0u8; 32];
        let mut k: usize = 0;
        while k < 8
            invariant
                k <= 8,
                bytes@.len() == 32,
                forall|j: int| 0 <= j < 24 ==> bytes@[j] == 0u8,
                forall|j: int| 24 <= j < 24 + k ==> bytes@[j] == spec_u64_be_byte(w, j - 24),
                forall|j: int| 24 + k <= j < 32 ==> bytes@[j] == 0u8,
            decreases 8 - k,
        {
            let shift: u64 = (8 * (7 - k as u64)) as u64;
            bytes[24 + k] = ((w >> shift) & 0xff) as u8;
            assert(bytes@[24 + k as int] == spec_u64_be_byte(w, k as int));
            k += 1;
        }
        let r = BlockHash { bytes };
        assert(r@ =~= spec_hash_from_u64(w));
        r
    }

    /// Byte-wise equality.
    pub fn eq_hash(&self, other: &BlockHash) -> (r: bool)
        ensures
            r <==> self@ == other@,
            r <==> *self == *other,
    {
        let mut i: usize = 0;
        while i < 32
            invariant
                i <= 32,
                forall|j: int| 0 <= j < i ==> self.bytes@[j] == other.bytes@[j],
            decreases 32 - i,
        {
            if self.bytes[i] != other.bytes[i] {
                assert(self@ != other@);
                assert(self.bytes@ != other.bytes@ ==> self.bytes != other.bytes);
                return false;
            }
            i += 1;
        }
        assert(self.bytes@ =~= other.bytes@);
        assert(self.bytes =~= other.bytes);
        true
    }

    /// Strict lexicographic order on the digest bytes. The order is total:
    /// when neither hash is smaller, the two are equal.
    pub fn lt_hash(&self, other: &BlockHash) -> (r: bool)
        ensures
            r <==> lex_lt(self@, other@),
            !r ==> (*self == *other || lex_lt(other@, self@)),
    {
        let mut i: usize = 0;
        while i < 32
            invariant
                i <= 32,
                forall|j: int| 0 <= j < i ==> self.bytes@[j] == other.bytes@[j],
            decreases 32 - i,
        {
            if self.bytes[i] < other.bytes[i] {
                assert(lex_lt(self@, other@));
                return true;
            }
            if self.bytes[i] > other.bytes[i] {
                assert(forall|k: int|
                    0 <= k < self@.len() && k < other@.len() && self@[k] < other@[k] ==> !(forall|
                        j: int,
                    |
                        0 <= j < k ==> self@[j] == other@[j]));
                assert(lex_lt(other@, self@));
                return false;
            }
            i += 1;
        }
        assert(self@ =~= other@);
        assert(self.bytes =~= other.bytes);
        false
    }
}

/// A copy of a vector of hashes.
pub fn copy_hashes(v: &Vec<BlockHash>) -> (r: Vec<BlockHash>)
    ensures
        r@ == v@,
{
    let n = v.len();
    let mut r: Vec<BlockHash> = Vec::new();
    let mut i: usize = 0;
    while i < n
        invariant
            n == v@.len(),
            i <= n,
            r@ == v@.subrange(0, i as int),
        decreases n - i,
    {
        r.push(v[i]);
        proof {
            assert(r@ =~= v@.subrange(0, i + 1));
        }
        i += 1;
    }
    proof {
        assert(r@ =~= v@);
    }
    r
}

/// Whether the vector holds the given hash.
pub fn hashes_contain(v: &Vec<BlockHash>, h: &BlockHash) -> (r: bool)
    ensures
        r == v@.contains(*h),
{
    let n = v.len();
    let mut i: usize = 0;
    while i < n
        invariant
            n == v@.len(),
            i <= n,
            forall|j: int| 0 <= j < i ==> v@[j] != *h,
        decreases n - i,
    {
        if v[i].eq_hash(h) {
            return true;
        }
        i += 1;
    }
    false
}

/// The lexicographic order is transitive.
pub proof fn lemma_lex_lt_transitive(a: Seq<u8>, b: Seq<u8>, c: Seq<u8>)
    requires
        lex_lt(a, b),
        lex_lt(b, c),
    ensures
        lex_lt(a, c),
{
    let i1 = choose|i: int|
        0 <= i < a.len() && i < b.len() && a[i] < b[i] && (forall|j: int|
            0 <= j < i ==> a[j] == b[j]);
    let i2 = choose|i: int|
        0 <= i < b.len() && i < c.len() && b[i] < c[i] && (forall|j: int|
            0 <= j < i ==> b[j] == c[j]);
    let i = if i1 < i2 {
        i1
    } else {
        i2
    };
    assert(a[i] < c[i]);
    assert(forall|j: int| 0 <= j < i ==> a[j] == c[j]);
    assert(lex_lt(a, c));
}

/// Byte `i` (most significant first) of the big-endian encoding of `w`.
pub open spec fn spec_u64_be_byte(w: u64, i: int) -> u8 {
    (w >> ((8 * (7 - i)) as u64) & 0xff) as u8
}

/// The 32-byte digest that `Hash::from_u64` builds.
pub open spec fn spec_hash_from_u64(w: u64) -> Seq<u8> {
    Seq::new(32, |i: int| if i < 24 { 0u8 } else { spec_u64_be_byte(w, i - 24) })
}

} // verus!
