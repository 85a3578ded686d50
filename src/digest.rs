//! Password digests: computing them, and comparing them in constant time.
use vstd::prelude::*;

use sp_core::Hasher;

verus! {

/// The Blake2b-256 digest of a byte string, as computed by `sp_core`.
pub uninterp spec fn blake2_256_of(data: Seq<u8>) -> Seq<u8>;

/// Relies on `<sp_core::Blake2Hasher as sp_core::Hasher>::hash`, which returns the
/// 32-byte Blake2b-256 digest of its input; the digest depends on the input alone.
#[verifier::external_body]
pub(crate) fn blake2_256(data: &Vec<u8>) -> (r: [u8; 32])
    ensures
        r@ == blake2_256_of(data@),
{
    sp_core::Blake2Hasher::hash(data.as_slice()).0
}

/// Compares two digests in time independent of where they differ: every byte
/// pair is visited and the differences are folded together before the answer
/// is read.
pub fn digests_match(a: &[u8; 32], b: &[u8; 32]) -> (r: bool)
    ensures
        r == (a@ == b@),
{
    let mut diff: u8 = 0;
    let mut i: usize = 0;
    while i < 32
        invariant
            0 <= i <= 32,
            a@.len() == 32,
            b@.len() == 32,
            (diff == 0) <==> (forall|j: int| 0 <= j < i ==> a@[j] == b@[j]),
        decreases 32 - i,
    {
        let x: u8 = a[i];
        let y: u8 = b[i];
        let d: u8 = diff | (x ^ y);
        assert((d == 0) <==> (diff == 0 && x == y)) by (bit_vector)
            requires
                d == diff | (x ^ y),
        ;
        diff = d;
        i += 1;
    }
    if diff == 0 {
        assert(a@ =~= b@);
    }
    diff == 0
}

} // verus!
