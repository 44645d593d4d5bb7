//! The Merkle tree a checkpoint commits over.
//!
//! One digest commits to every record of a range, and one record can be proved
//! a member of it without the rest of the log. Leaves and interior nodes are
//! hashed with different prefixes, so that an interior node can never be
//! presented as a leaf. An odd node at any level is promoted unchanged rather
//! than paired with itself, so that two different ranges never share a root.

use vstd::prelude::*;
use vstd::string::*;

use crate::digest::{hasher_finalize, hasher_new, hasher_update, sha256, Digest32};
use crate::types::bytes_equal;

verus! {

/// Domain separator for every hash in the tree.
pub const MERKLE_DOMAIN: &'static str = "record-store/audit-merkle/v1";

/// Prefix of a leaf's message.
pub const LEAF_PREFIX: u8 = 0x00;

/// Prefix of an interior node's message.
pub const NODE_PREFIX: u8 = 0x01;

/// The bytes of the domain separator.
pub open spec fn domain() -> Seq<u8> {
    MERKLE_DOMAIN.spec_bytes()
}

/// The message hashed for the leaf of one record.
pub open spec fn leaf_message(record: Digest32) -> Seq<u8> {
    domain() + seq![LEAF_PREFIX] + record@
}

/// The message hashed for the node over two children.
pub open spec fn node_message(left: Digest32, right: Digest32) -> Seq<u8> {
    domain() + seq![NODE_PREFIX] + left@ + right@
}

/// The leaf of one record.
pub open spec fn leaf_of(record: Digest32) -> Digest32 {
    sha256(leaf_message(record))
}

/// The node over two children.
pub open spec fn node_of(left: Digest32, right: Digest32) -> Digest32 {
    sha256(node_message(left, right))
}

/// The leaves of a range, in order.
pub open spec fn leaves_of(records: Seq<Digest32>) -> Seq<Digest32> {
    Seq::new(records.len(), |i: int| leaf_of(records[i]))
}

/// The level above `level`: neighbours are joined, and an odd last node rises
/// unchanged.
pub open spec fn parents(level: Seq<Digest32>) -> Seq<Digest32> {
    Seq::new(
        ((level.len() + 1) / 2) as nat,
        |i: int|
            if 2 * i + 1 < level.len() {
                node_of(level[2 * i], level[2 * i + 1])
            } else {
                level[2 * i]
            },
    )
}

/// The single node left once `level` has been reduced to one.
pub open spec fn apex(level: Seq<Digest32>) -> Digest32
    decreases level.len(),
{
    if level.len() <= 1 {
        level[0]
    } else {
        apex(parents(level))
    }
}

/// The root over a range; an empty range has none.
pub open spec fn root_of(records: Seq<Digest32>) -> Option<Digest32> {
    if records.len() == 0 {
        None
    } else {
        Some(apex(leaves_of(records)))
    }
}

/// The steps from the node at `position` of `level` up to the apex. A promoted
/// node has no sibling and contributes no step.
pub open spec fn steps_from(level: Seq<Digest32>, position: int) -> Seq<PathStep>
    decreases level.len(),
{
    if level.len() <= 1 {
        Seq::empty()
    } else {
        sibling_of(level, position) + steps_from(parents(level), position / 2)
    }
}

/// The step over the sibling of the node at `position`, if it has one.
pub open spec fn sibling_of(level: Seq<Digest32>, position: int) -> Seq<PathStep> {
    if position % 2 == 1 {
        seq![PathStep { side: Side::Left, hash: level[position - 1] }]
    } else if position + 1 < level.len() {
        seq![PathStep { side: Side::Right, hash: level[position + 1] }]
    } else {
        Seq::empty()
    }
}

/// The parent of `current` and the sibling that `step` names.
pub open spec fn joined(current: Digest32, step: PathStep) -> Digest32 {
    match step.side {
        Side::Left => node_of(step.hash, current),
        Side::Right => node_of(current, step.hash),
    }
}

/// The node reached from `start` after all of `steps`.
pub open spec fn climb(start: Digest32, steps: Seq<PathStep>) -> Digest32
    decreases steps.len(),
{
    if steps.len() == 0 {
        start
    } else {
        joined(climb(start, steps.drop_last()), steps.last())
    }
}

/// Returns the tree leaf for one record hash.
pub fn leaf_hash(record_hash: &Digest32) -> (leaf: Digest32)
    ensures
        leaf == leaf_of(*record_hash),
{
    let mut hasher = hasher_new();
    let prefix: [u8; 1] = [LEAF_PREFIX];
    proof {
        lemma_domain_length();
    }
    hasher_update(&mut hasher, MERKLE_DOMAIN.as_bytes());
    hasher_update(&mut hasher, &prefix);
    hasher_update(&mut hasher, record_hash);
    assert(crate::digest::absorbed(hasher) =~= leaf_message(*record_hash));
    hasher_finalize(hasher)
}

/// Returns the interior node joining two children.
pub fn node_hash(left: &Digest32, right: &Digest32) -> (node: Digest32)
    ensures
        node == node_of(*left, *right),
{
    let mut hasher = hasher_new();
    let prefix: [u8; 1] = [NODE_PREFIX];
    proof {
        lemma_domain_length();
    }
    hasher_update(&mut hasher, MERKLE_DOMAIN.as_bytes());
    hasher_update(&mut hasher, &prefix);
    hasher_update(&mut hasher, left);
    hasher_update(&mut hasher, right);
    assert(crate::digest::absorbed(hasher) =~= node_message(*left, *right));
    hasher_finalize(hasher)
}

/// The domain separator is short.
pub proof fn lemma_domain_length()
    ensures
        domain().len() == 28,
{
    reveal_strlit("record-store/audit-merkle/v1");
    assert(vstd::string::is_ascii(MERKLE_DOMAIN));
    vstd::string::is_ascii_spec_bytes(MERKLE_DOMAIN);
}

/// Which side of its parent a sibling sits on.
#[derive(Debug, Clone, Copy, PartialEq, Eq, Structural)]
pub enum Side {
    /// The sibling is the left child, so the proved hash is the right one.
    Left,
    /// The sibling is the right child, so the proved hash is the left one.
    Right,
}

/// One step of an inclusion path.
#[derive(Debug, Clone, Copy, PartialEq, Eq)]
pub struct PathStep {
    /// Which side the sibling is on.
    pub side: Side,
    /// The sibling's hash.
    pub hash: Digest32,
}

/// A record's path from its leaf up to a checkpoint root.
#[derive(Debug, Clone, PartialEq, Eq)]
pub struct InclusionPath {
    /// Position of the record within the checkpoint's range.
    pub index: u64,
    /// Sibling hashes, innermost first.
    pub steps: Vec<PathStep>,
}

/// Hashes every record of a range into its leaf.
fn leaf_level(record_hashes: &[Digest32]) -> (level: Vec<Digest32>)
    ensures
        level@ == leaves_of(record_hashes@),
{
    let mut level: Vec<Digest32> = Vec::with_capacity(record_hashes.len());
    let mut i: usize = 0;
    while i < record_hashes.len()
        invariant
            i <= record_hashes@.len(),
            level@.len() == i,
            forall|j: int| 0 <= j < i ==> level@[j] == leaf_of(record_hashes@[j]),
        decreases record_hashes@.len() - i,
    {
        level.push(leaf_hash(&record_hashes[i]));
        i += 1;
    }
    assert(level@ =~= leaves_of(record_hashes@));
    level
}

/// Returns the root committing to every record hash, in order.
///
/// `None` for an empty range: a checkpoint over no records would commit to
/// nothing while looking like it committed to something.
pub fn root(record_hashes: &[Digest32]) -> (root: Option<Digest32>)
    ensures
        root == root_of(record_hashes@),
{
    if record_hashes.len() == 0 {
        return None;
    }
    let mut level: Vec<Digest32> = leaf_level(record_hashes);
    while level.len() > 1
        invariant
            level@.len() >= 1,
            apex(level@) == apex(leaves_of(record_hashes@)),
        decreases level@.len(),
    {
        level = combine(&level);
    }
    Some(level[0])
}

/// Reduces one level of the tree to its parents.
fn combine(level: &Vec<Digest32>) -> (next: Vec<Digest32>)
    ensures
        next@ == parents(level@),
{
    let mut next: Vec<Digest32> = Vec::with_capacity(level.len() / 2 + level.len() % 2);
    let count: usize = level.len();
    let pairs: usize = count / 2;
    let mut i: usize = 0;
    while i < pairs
        invariant
            i <= pairs,
            count == level@.len(),
            pairs == count / 2,
            next@.len() == i,
            forall|j: int|
                0 <= j < i ==> #[trigger] next@[j] == node_of(level@[2 * j], level@[2 * j + 1]),
        decreases pairs - i,
    {
        next.push(node_hash(&level[2 * i], &level[2 * i + 1]));
        i += 1;
    }
    // An odd node is carried up unchanged. Hashing it with itself instead would
    // make a range of three records produce the same root as a range of four
    // whose last entry repeats, so two different logs could agree.
    if level.len() % 2 == 1 {
        next.push(level[level.len() - 1]);
    }
    assert(next@ =~= parents(level@));
    next
}

/// Returns the path proving the record at `index` is under the root.
pub fn inclusion_path(record_hashes: &[Digest32], index: usize) -> (path: Option<InclusionPath>)
    ensures
        path is Some <==> index < record_hashes@.len(),
        path matches Some(p) ==> {
            &&& p.index == index
            &&& p.steps@ == steps_from(leaves_of(record_hashes@), index as int)
        },
{
    if index >= record_hashes.len() {
        return None;
    }
    let mut level: Vec<Digest32> = leaf_level(record_hashes);
    let mut position: usize = index;
    let mut steps: Vec<PathStep> = Vec::new();
    assert(steps@ + steps_from(level@, position as int) =~= steps_from(
        leaves_of(record_hashes@),
        index as int,
    ));
    while level.len() > 1
        invariant
            position < level@.len(),
            steps@ + steps_from(level@, position as int) == steps_from(
                leaves_of(record_hashes@),
                index as int,
            ),
        decreases level@.len(),
    {
        let ghost before = steps@;
        // The promoted odd node has no sibling at this level, so it
        // contributes no step; it simply rises.
        if position % 2 == 1 {
            steps.push(PathStep { side: Side::Left, hash: level[position - 1] });
        } else if position + 1 < level.len() {
            steps.push(PathStep { side: Side::Right, hash: level[position + 1] });
        }
        assert(steps@ =~= before + sibling_of(level@, position as int));
        assert(steps@ + steps_from(parents(level@), position as int / 2) =~= before + steps_from(
            level@,
            position as int,
        ));
        position = position / 2;
        level = combine(&level);
    }
    assert(steps@ + steps_from(level@, position as int) =~= steps@);
    Some(InclusionPath { index: index as u64, steps })
}

/// Recomputes a root from one record hash and its path.
///
/// This is what an offline verifier runs: it never sees the other records, only
/// the digests on the way up.
pub fn root_from_path(record_hash: &Digest32, path: &InclusionPath) -> (root: Digest32)
    ensures
        root == climb(leaf_of(*record_hash), path.steps@),
{
    let mut current: Digest32 = leaf_hash(record_hash);
    let mut i: usize = 0;
    while i < path.steps.len()
        invariant
            i <= path.steps@.len(),
            current == climb(leaf_of(*record_hash), path.steps@.take(i as int)),
        decreases path.steps@.len() - i,
    {
        let step: PathStep = path.steps[i];
        current =
        match step.side {
            Side::Left => node_hash(&step.hash, &current),
            Side::Right => node_hash(&current, &step.hash),
        };
        assert(path.steps@.take(i + 1).drop_last() =~= path.steps@.take(i as int));
        i += 1;
    }
    assert(path.steps@.take(i as int) =~= path.steps@);
    current
}

/// Returns whether a record hash is proved to sit under `expected_root`.
pub fn verify_inclusion(
    record_hash: &Digest32,
    path: &InclusionPath,
    expected_root: &Digest32,
) -> (proved: bool)
    ensures
        proved == (climb(leaf_of(*record_hash), path.steps@) == *expected_root),
{
    let computed: Digest32 = root_from_path(record_hash, path);
    bytes_equal(&computed, expected_root)
}

} // verus!
