//! Merkle root: empty commitment, odd-level duplication, purity, prefix
//! consistency.

use roster_attest::crypto::sha256;
use roster_attest::merkle::{hash_node, leaf_hash, merkle_root};

fn leaf(n: u8) -> Vec<u8> {
    leaf_hash(&[n])
}

#[test]
fn empty_root_is_hash_of_empty_string() {
    assert_eq!(merkle_root(Vec::new()), sha256(&[]));
}

#[test]
fn single_leaf_is_its_own_root() {
    let a = leaf(1);
    assert_eq!(merkle_root(vec![a.clone()]), a);
}

#[test]
fn two_leaves_hash_left_to_right() {
    let a = leaf(1);
    let b = leaf(2);
    assert_eq!(merkle_root(vec![a.clone(), b.clone()]), hash_node(&a, &b));
    assert_ne!(merkle_root(vec![a.clone(), b.clone()]), hash_node(&b, &a));
}

#[test]
fn odd_level_duplicates_last_node() {
    let a = leaf(1);
    let b = leaf(2);
    let c = leaf(3);
    let expected = hash_node(&hash_node(&a, &b), &hash_node(&c, &c));
    assert_eq!(merkle_root(vec![a, b, c]), expected);
}

#[test]
fn root_is_pure_function_of_leaves() {
    let leaves = vec![leaf(1), leaf(2), leaf(3), leaf(4)];
    assert_eq!(merkle_root(leaves.clone()), merkle_root(leaves.clone()));
    let expected = hash_node(
        &hash_node(&leaf(1), &leaf(2)),
        &hash_node(&leaf(3), &leaf(4)),
    );
    assert_eq!(merkle_root(leaves), expected);
}

#[test]
fn appending_a_leaf_changes_the_root() {
    let leaves = vec![leaf(1), leaf(2)];
    let mut extended = leaves.clone();
    extended.push(leaf(3));
    assert_ne!(merkle_root(leaves), merkle_root(extended));
}
