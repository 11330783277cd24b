//! Binary Merkle root over a sequence of leaf hashes.
//!
//! The empty sequence commits to `sha256("")`. Otherwise the current level is
//! reduced repeatedly: an odd level duplicates its last node, then each
//! adjacent pair `(a, b)` is replaced by `sha256(a || b)`, until one node
//! remains. Duplication at each level and left-to-right pairing are part of
//! the protocol: clients must reproduce the root bit for bit.

use vstd::prelude::*;

use crate::codec::{clone_bytes, enc_record};
use crate::crypto::{sha256, sha256_of};
use crate::types::PartyRegistrationRecordView;

verus! {

/// The hash of an interior node: `sha256(left || right)`.
pub open spec fn hash_pair(a: Seq<u8>, b: Seq<u8>) -> Seq<u8> {
    sha256_of(a + b)
}

/// One level of the tree: duplicate the last node if the level is odd, then
/// hash adjacent pairs left to right.
pub open spec fn level_up(level: Seq<Seq<u8>>) -> Seq<Seq<u8>> {
    let padded = if level.len() % 2 == 1 {
        level.push(level.last())
    } else {
        level
    };
    Seq::new(padded.len() / 2, |i: int| hash_pair(padded[2 * i], padded[2 * i + 1]))
}

/// Reduces a nonempty level to its single root node.
pub open spec fn merkle_reduce(level: Seq<Seq<u8>>) -> Seq<u8>
    recommends
        level.len() >= 1,
    decreases level.len(),
{
    if level.len() <= 1 {
        if level.len() == 1 {
            level[0]
        } else {
            Seq::empty()
        }
    } else {
        merkle_reduce(level_up(level))
    }
}

/// The Merkle root of a leaf sequence: `sha256("")` when empty, else the
/// reduction of the leaf level.
pub open spec fn merkle_root_spec(leaves: Seq<Seq<u8>>) -> Seq<u8> {
    if leaves.len() == 0 {
        sha256_of(Seq::<u8>::empty())
    } else {
        merkle_reduce(leaves)
    }
}

/// The byte sequences held by a vector of hashes.
pub open spec fn hash_views(v: Seq<Vec<u8>>) -> Seq<Seq<u8>> {
    Seq::new(v.len(), |i: int| v[i]@)
}

/// The leaf hashes of a log: `sha256(enc(record))` in log order.
pub open spec fn leaves_of(log: Seq<PartyRegistrationRecordView>) -> Seq<Seq<u8>> {
    Seq::new(log.len(), |i: int| sha256_of(enc_record(log[i])))
}

/// Merkle leaf hash for a record's canonical bytes: `sha256(bytes)`.
pub fn leaf_hash(leaf_bytes: &[u8]) -> (r: Vec<u8>)
    ensures
        r@ == sha256_of(leaf_bytes@),
        r@.len() == 32,
{
    sha256(leaf_bytes)
}

/// Hash two nodes: `sha256(left || right)`.
pub fn hash_node(a: &Vec<u8>, b: &Vec<u8>) -> (r: Vec<u8>)
    ensures
        r@ == hash_pair(a@, b@),
        r@.len() == 32,
{
    let mut buf = clone_bytes(a);
    let mut tail = clone_bytes(b);
    buf.append(&mut tail);
    sha256(buf.as_slice())
}

/// Computes the Merkle root of the given leaf hashes: a pure function of the
/// leaf sequence.
pub fn merkle_root(leaves: Vec<Vec<u8>>) -> (r: Vec<u8>)
    ensures
        r@ == merkle_root_spec(hash_views(leaves@)),
        (forall|i: int| 0 <= i < leaves@.len() ==> (#[trigger] leaves@[i])@.len() == 32)
            ==> r@.len() == 32,
{
    let ghost lv = leaves@;
    let ghost orig = hash_views(leaves@);
    let ghost all32 = forall|i: int| 0 <= i < lv.len() ==> (#[trigger] lv[i])@.len() == 32;
    if leaves.len() == 0 {
        let empty: Vec<u8> = Vec::new();
        let r = sha256(empty.as_slice());
        return r;
    }
    let mut level = leaves;
    while level.len() > 1
        invariant
            1 <= level@.len(),
            orig.len() >= 1,
            merkle_reduce(hash_views(level@)) == merkle_reduce(orig),
            all32 == (forall|i: int| 0 <= i < lv.len() ==> (#[trigger] lv[i])@.len() == 32),
            all32 ==> forall|i: int| 0 <= i < level@.len() ==> (#[trigger] level@[i])@.len()
                == 32,
        decreases level@.len(),
    {
        let ghost before = hash_views(level@);
        if level.len() % 2 == 1 {
            let last = clone_bytes(&level[level.len() - 1]);
            level.push(last);
            proof {
                assert(hash_views(level@) =~= before.push(before.last()));
            }
        }
        let ghost padded = hash_views(level@);
        proof {
            assert(level_up(before) =~= Seq::new(
                padded.len() / 2,
                |i: int| hash_pair(padded[2 * i], padded[2 * i + 1]),
            ));
        }
        let mut next: Vec<Vec<u8>> = Vec::new();
        let mut i: usize = 0;
        while i < level.len()
            invariant
                level@.len() % 2 == 0,
                level@.len() >= 2,
                i % 2 == 0,
                i <= level@.len(),
                hash_views(level@) == padded,
                next@.len() == i / 2,
                forall|j: int| 0 <= j < next@.len() ==> (#[trigger] next@[j])@ == hash_pair(
                    padded[2 * j],
                    padded[2 * j + 1],
                ),
                forall|j: int| 0 <= j < next@.len() ==> (#[trigger] next@[j])@.len() == 32,
            decreases level@.len() - i,
        {
            let h = hash_node(&level[i], &level[i + 1]);
            next.push(h);
            i += 2;
        }
        proof {
            assert(hash_views(next@) =~= level_up(before));
            assert(merkle_reduce(level_up(before)) == merkle_reduce(before));
        }
        level = next;
    }
    let r = clone_bytes(&level[0]);
    proof {
        assert(merkle_reduce(hash_views(level@)) == hash_views(level@)[0]);
    }
    r
}

/// Snapshot consistency: the first `l1.len()` leaves of a longer log `l2`
/// that extends `l1` commit to the same root as `l1` itself — appending
/// entries cannot rewrite what an earlier snapshot committed to.
pub proof fn lemma_snapshot_consistency(
    l1: Seq<PartyRegistrationRecordView>,
    l2: Seq<PartyRegistrationRecordView>,
)
    requires
        l1.len() <= l2.len(),
        l1 == l2.subrange(0, l1.len() as int),
    ensures
        merkle_root_spec(leaves_of(l2).subrange(0, l1.len() as int)) == merkle_root_spec(
            leaves_of(l1),
        ),
{
    assert(leaves_of(l1) =~= leaves_of(l2).subrange(0, l1.len() as int));
}

} // verus!
