//! What the Merkle tree guarantees: every record of a range proves against the
//! range's root, and nothing else does unless SHA-256 itself collides on the
//! messages that were hashed.

use vstd::arithmetic::power2::{lemma2_to64, lemma_pow2_pos, lemma_pow2_unfold, pow2};
use vstd::prelude::*;
use vstd::string::*;

use crate::digest::{sha256, Digest32};
use crate::merkle::{
    apex, climb, domain, joined, leaf_message, leaf_of, leaves_of, lemma_domain_length,
    node_message, node_of, parents, root_of, sibling_of, steps_from, PathStep, Side,
    MERKLE_DOMAIN,
};

verus! {

/// No two of these messages share a SHA-256 digest.
pub open spec fn collision_free(messages: Set<Seq<u8>>) -> bool {
    forall|a: Seq<u8>, b: Seq<u8>|
        #![trigger messages.contains(a), messages.contains(b)]
        messages.contains(a) && messages.contains(b) && sha256(a) == sha256(b) ==> a == b
}

/// The shape of a range's tree, with its records at the leaves.
pub enum Tree {
    /// One record.
    Leaf(Digest32),
    /// Two subtrees joined.
    Node(Box<Tree>, Box<Tree>),
}

impl Tree {
    /// The hash of the tree's topmost node.
    pub open spec fn hash(self) -> Digest32
        decreases self,
    {
        match self {
            Tree::Leaf(record) => leaf_of(record),
            Tree::Node(left, right) => node_of(left.hash(), right.hash()),
        }
    }

    /// The records at the leaves, in order.
    pub open spec fn records(self) -> Seq<Digest32>
        decreases self,
    {
        match self {
            Tree::Leaf(record) => seq![record],
            Tree::Node(left, right) => left.records() + right.records(),
        }
    }

    /// The message hashed for the topmost node.
    pub open spec fn message(self) -> Seq<u8> {
        match self {
            Tree::Leaf(record) => leaf_message(record),
            Tree::Node(left, right) => node_message(left.hash(), right.hash()),
        }
    }

    /// Every message hashed on the way to the topmost node.
    pub open spec fn messages(self) -> Set<Seq<u8>>
        decreases self,
    {
        match self {
            Tree::Leaf(record) => set![self.message()],
            Tree::Node(left, right) => left.messages().union(right.messages()).insert(
                self.message(),
            ),
        }
    }
}

/// The level above `level`, tree by tree.
pub open spec fn tree_parents(level: Seq<Tree>) -> Seq<Tree> {
    Seq::new(
        ((level.len() + 1) / 2) as nat,
        |i: int|
            if 2 * i + 1 < level.len() {
                Tree::Node(Box::new(level[2 * i]), Box::new(level[2 * i + 1]))
            } else {
                level[2 * i]
            },
    )
}

/// The single tree left once `level` has been reduced to one.
pub open spec fn tree_apex(level: Seq<Tree>) -> Tree
    decreases level.len(),
{
    if level.len() <= 1 {
        level[0]
    } else {
        tree_apex(tree_parents(level))
    }
}

/// The tree over a range.
pub open spec fn tree_of(records: Seq<Digest32>) -> Tree {
    tree_apex(Seq::new(records.len(), |i: int| Tree::Leaf(records[i])))
}

/// Every message hashed while the root over `records` is computed.
pub open spec fn range_messages(records: Seq<Digest32>) -> Set<Seq<u8>> {
    tree_of(records).messages()
}

/// Every message hashed while a path is followed from a record's leaf.
pub open spec fn path_messages(record: Digest32, steps: Seq<PathStep>) -> Set<Seq<u8>>
    decreases steps.len(),
{
    if steps.len() == 0 {
        set![leaf_message(record)]
    } else {
        path_messages(record, steps.drop_last()).insert(
            step_message(climb(leaf_of(record), steps.drop_last()), steps.last()),
        )
    }
}

/// The message hashed for one step.
pub open spec fn step_message(current: Digest32, step: PathStep) -> Seq<u8> {
    match step.side {
        Side::Left => node_message(step.hash, current),
        Side::Right => node_message(current, step.hash),
    }
}

proof fn lemma_collision_free_subset(part: Set<Seq<u8>>, whole: Set<Seq<u8>>)
    requires
        part.subset_of(whole),
        collision_free(whole),
    ensures
        collision_free(part),
{
    assert forall|a: Seq<u8>, b: Seq<u8>|
        #![trigger part.contains(a), part.contains(b)]
        part.contains(a) && part.contains(b) && sha256(a) == sha256(b) implies a == b by {
        assert(whole.contains(a) && whole.contains(b));
    }
}

/// Leaves and interior nodes are not interchangeable: no record's leaf is
/// hashed from the message of an interior node.
pub proof fn law_leaf_and_node_messages_differ(record: Digest32, left: Digest32, right: Digest32)
    ensures
        leaf_message(record) != node_message(left, right),
{
    lemma_domain_length();
    assert(leaf_message(record)[28] == 0x00u8);
    assert(node_message(left, right)[28] == 0x01u8);
}

/// So the leaf of a record and an interior node are equal only where SHA-256
/// collides on their two messages.
pub proof fn law_leaf_is_no_node(record: Digest32, left: Digest32, right: Digest32)
    requires
        collision_free(set![leaf_message(record), node_message(left, right)]),
    ensures
        leaf_of(record) != node_of(left, right),
{
    law_leaf_and_node_messages_differ(record, left, right);
    let messages = set![leaf_message(record), node_message(left, right)];
    assert(messages.contains(leaf_message(record)));
    assert(messages.contains(node_message(left, right)));
}

proof fn lemma_leaf_message_injective(a: Digest32, b: Digest32)
    requires
        leaf_message(a) == leaf_message(b),
    ensures
        a == b,
{
    lemma_domain_length();
    assert forall|i: int| 0 <= i < 32 implies a@[i] == b@[i] by {
        assert(leaf_message(a)[29 + i] == a@[i]);
        assert(leaf_message(b)[29 + i] == b@[i]);
    }
    assert(a =~= b);
}

proof fn lemma_node_message_injective(a: Digest32, b: Digest32, c: Digest32, d: Digest32)
    requires
        node_message(a, b) == node_message(c, d),
    ensures
        a == c,
        b == d,
{
    lemma_domain_length();
    assert forall|i: int| 0 <= i < 32 implies a@[i] == c@[i] && b@[i] == d@[i] by {
        assert(node_message(a, b)[29 + i] == a@[i]);
        assert(node_message(c, d)[29 + i] == c@[i]);
        assert(node_message(a, b)[61 + i] == b@[i]);
        assert(node_message(c, d)[61 + i] == d@[i]);
    }
    assert(a =~= c);
    assert(b =~= d);
}

proof fn lemma_climb_first(start: Digest32, steps: Seq<PathStep>)
    requires
        steps.len() > 0,
    ensures
        climb(start, steps) == climb(joined(start, steps[0]), steps.skip(1)),
    decreases steps.len(),
{
    if steps.len() == 1 {
        assert(steps.skip(1) =~= Seq::<PathStep>::empty());
        assert(steps.drop_last() =~= Seq::<PathStep>::empty());
        assert(climb(start, steps.drop_last()) == start);
    } else {
        lemma_climb_first(start, steps.drop_last());
        assert(steps.skip(1).drop_last() =~= steps.drop_last().skip(1));
    }
}

proof fn lemma_steps_reach_apex(level: Seq<Digest32>, position: int)
    requires
        0 <= position < level.len(),
    ensures
        climb(level[position], steps_from(level, position)) == apex(level),
    decreases level.len(),
{
    if level.len() > 1 {
        let next = parents(level);
        lemma_steps_reach_apex(next, position / 2);
        let steps = steps_from(level, position);
        let above = steps_from(next, position / 2);
        if sibling_of(level, position).len() == 0 {
            assert(steps =~= above);
            assert(next[position / 2] == level[position]);
        } else {
            lemma_climb_first(level[position], steps);
            assert(steps.skip(1) =~= above);
            assert(joined(level[position], steps[0]) == next[position / 2]);
        }
    }
}

/// Every record proves against the root of its range: following the inclusion
/// path of the record at `index` from that record's leaf gives the root.
pub proof fn law_every_record_proves_against_its_root(records: Seq<Digest32>, index: int)
    requires
        0 <= index < records.len(),
    ensures
        Some(climb(leaf_of(records[index]), steps_from(leaves_of(records), index))) == root_of(
            records,
        ),
{
    lemma_steps_reach_apex(leaves_of(records), index);
}

spec fn hashes(level: Seq<Tree>) -> Seq<Digest32> {
    Seq::new(level.len(), |i: int| level[i].hash())
}

proof fn lemma_tree_apex_hash(level: Seq<Tree>)
    requires
        level.len() >= 1,
    ensures
        tree_apex(level).hash() == apex(hashes(level)),
    decreases level.len(),
{
    if level.len() > 1 {
        lemma_tree_apex_hash(tree_parents(level));
        assert(hashes(tree_parents(level)) =~= parents(hashes(level)));
    }
}

/// The records under a level of trees, in order.
spec fn under(level: Seq<Tree>) -> Seq<Digest32>
    decreases level.len(),
{
    if level.len() == 0 {
        Seq::empty()
    } else {
        under(level.drop_last()) + level.last().records()
    }
}

proof fn lemma_under_parents(level: Seq<Tree>)
    ensures
        under(tree_parents(level)) == under(level),
    decreases level.len(),
{
    let next = tree_parents(level);
    if level.len() == 0 {
    } else if level.len() % 2 == 1 {
        lemma_under_parents(level.drop_last());
        assert(next.drop_last() =~= tree_parents(level.drop_last()));
        assert(next.last() == level.last());
    } else {
        let rest = level.drop_last().drop_last();
        lemma_under_parents(rest);
        assert(next.drop_last() =~= tree_parents(rest));
        let left = level[level.len() - 2];
        let right = level[level.len() - 1];
        assert(next.last() == Tree::Node(Box::new(left), Box::new(right)));
        assert(next.last().records() == left.records() + right.records());
        assert(under(level.drop_last()) == under(rest) + left.records());
        assert(under(level) =~= under(rest) + (left.records() + right.records()));
    }
}

proof fn lemma_tree_apex_records(level: Seq<Tree>)
    requires
        level.len() >= 1,
    ensures
        tree_apex(level).records() == under(level),
    decreases level.len(),
{
    if level.len() == 1 {
        assert(under(level.drop_last()) =~= Seq::<Digest32>::empty());
        assert(under(level) =~= level[0].records());
    } else {
        lemma_tree_apex_records(tree_parents(level));
        lemma_under_parents(level);
    }
}

proof fn lemma_under_leaves(records: Seq<Digest32>)
    ensures
        under(Seq::new(records.len(), |i: int| Tree::Leaf(records[i]))) == records,
    decreases records.len(),
{
    let level = Seq::new(records.len(), |i: int| Tree::Leaf(records[i]));
    if records.len() > 0 {
        let shorter = records.drop_last();
        lemma_under_leaves(shorter);
        assert(level.drop_last() =~= Seq::new(shorter.len(), |i: int| Tree::Leaf(shorter[i])));
        assert(level.last().records() =~= seq![records.last()]);
        assert(under(level) =~= records);
    } else {
        assert(records =~= Seq::<Digest32>::empty());
    }
}

/// The tree over a range holds the range's records in order, and its hash is
/// the range's root.
pub proof fn law_tree_of_a_range(records: Seq<Digest32>)
    requires
        records.len() > 0,
    ensures
        root_of(records) == Some(tree_of(records).hash()),
        tree_of(records).records() == records,
{
    let level = Seq::new(records.len(), |i: int| Tree::Leaf(records[i]));
    lemma_tree_apex_hash(level);
    assert(hashes(level) =~= leaves_of(records));
    lemma_tree_apex_records(level);
    lemma_under_leaves(records);
}

proof fn lemma_tree_message(tree: Tree)
    ensures
        tree.hash() == sha256(tree.message()),
        tree.messages().contains(tree.message()),
{
}

proof fn lemma_hash_binds_tree(a: Tree, b: Tree)
    requires
        collision_free(a.messages().union(b.messages())),
        a.hash() == b.hash(),
    ensures
        a == b,
    decreases a,
{
    let messages = a.messages().union(b.messages());
    lemma_tree_message(a);
    lemma_tree_message(b);
    assert(messages.contains(a.message()) && messages.contains(b.message()));
    assert(a.message() == b.message());
    match (a, b) {
        (Tree::Leaf(x), Tree::Leaf(y)) => {
            lemma_leaf_message_injective(x, y);
        },
        (Tree::Leaf(x), Tree::Node(left, right)) => {
            law_leaf_and_node_messages_differ(x, left.hash(), right.hash());
        },
        (Tree::Node(left, right), Tree::Leaf(y)) => {
            law_leaf_and_node_messages_differ(y, left.hash(), right.hash());
        },
        (Tree::Node(l1, r1), Tree::Node(l2, r2)) => {
            lemma_node_message_injective(l1.hash(), r1.hash(), l2.hash(), r2.hash());
            lemma_collision_free_subset(l1.messages().union(l2.messages()), messages);
            lemma_collision_free_subset(r1.messages().union(r2.messages()), messages);
            lemma_hash_binds_tree(*l1, *l2);
            lemma_hash_binds_tree(*r1, *r2);
        },
    }
}

/// A root commits to its whole range: two ranges, of whatever lengths, share a
/// root only if they are the same range. Editing, dropping, adding or moving a
/// record therefore changes the root.
pub proof fn law_root_binds_range(a: Seq<Digest32>, b: Seq<Digest32>)
    requires
        root_of(a) == root_of(b),
        a.len() > 0 && b.len() > 0 ==> collision_free(
            range_messages(a).union(range_messages(b)),
        ),
    ensures
        a == b,
{
    if a.len() > 0 && b.len() > 0 {
        law_tree_of_a_range(a);
        law_tree_of_a_range(b);
        lemma_hash_binds_tree(tree_of(a), tree_of(b));
    } else {
        assert(a =~= b);
    }
}

/// Repeating the last record changes the root: an odd node is promoted, not
/// paired with itself.
pub proof fn law_repeated_tail_changes_the_root(records: Seq<Digest32>)
    requires
        records.len() > 0,
        collision_free(
            range_messages(records).union(range_messages(records.push(records.last()))),
        ),
    ensures
        root_of(records) != root_of(records.push(records.last())),
{
    let longer = records.push(records.last());
    if root_of(records) == root_of(longer) {
        law_root_binds_range(records, longer);
        assert(records.len() != longer.len());
    }
}

/// The last node of an odd level rises unchanged.
pub proof fn law_odd_node_is_promoted(level: Seq<Digest32>)
    requires
        level.len() % 2 == 1,
    ensures
        parents(level).last() == level.last(),
{
}

proof fn lemma_path_message(record: Digest32, steps: Seq<PathStep>)
    ensures
        steps.len() == 0 ==> {
            &&& climb(leaf_of(record), steps) == sha256(leaf_message(record))
            &&& path_messages(record, steps).contains(leaf_message(record))
        },
        steps.len() > 0 ==> {
            let message = step_message(climb(leaf_of(record), steps.drop_last()), steps.last());
            &&& climb(leaf_of(record), steps) == sha256(message)
            &&& path_messages(record, steps).contains(message)
        },
{
}

proof fn lemma_path_lands_in_tree(tree: Tree, record: Digest32, steps: Seq<PathStep>)
    requires
        collision_free(tree.messages().union(path_messages(record, steps))),
        climb(leaf_of(record), steps) == tree.hash(),
    ensures
        tree.records().contains(record),
    decreases steps.len(),
{
    let messages = tree.messages().union(path_messages(record, steps));
    lemma_tree_message(tree);
    lemma_path_message(record, steps);
    assert(messages.contains(tree.message()));
    if steps.len() == 0 {
        assert(messages.contains(leaf_message(record)));
        match tree {
            Tree::Leaf(other) => {
                lemma_leaf_message_injective(record, other);
                assert(tree.records()[0] == record);
            },
            Tree::Node(left, right) => {
                law_leaf_and_node_messages_differ(record, left.hash(), right.hash());
            },
        }
    } else {
        let below = steps.drop_last();
        let step = steps.last();
        let current = climb(leaf_of(record), below);
        assert(messages.contains(step_message(current, step)));
        match tree {
            Tree::Leaf(other) => {
                law_leaf_and_node_messages_differ(other, step.hash, current);
                law_leaf_and_node_messages_differ(other, current, step.hash);
            },
            Tree::Node(left, right) => {
                let child = match step.side {
                    Side::Left => {
                        lemma_node_message_injective(
                            step.hash,
                            current,
                            left.hash(),
                            right.hash(),
                        );
                        *right
                    },
                    Side::Right => {
                        lemma_node_message_injective(
                            current,
                            step.hash,
                            left.hash(),
                            right.hash(),
                        );
                        *left
                    },
                };
                lemma_collision_free_subset(
                    child.messages().union(path_messages(record, below)),
                    messages,
                );
                lemma_path_lands_in_tree(child, record, below);
                let i = choose|i: int|
                    0 <= i < child.records().len() && child.records()[i] == record;
                match step.side {
                    Side::Left => {
                        assert(tree.records()[left.records().len() + i] == record);
                    },
                    Side::Right => {
                        assert(tree.records()[i] == record);
                    },
                }
            },
        }
    }
}

/// A path proves nothing that is not in the tree: whatever the path, a record
/// that it carries up to the root of a range is a record of that range.
pub proof fn law_proved_record_is_in_the_range(
    records: Seq<Digest32>,
    record: Digest32,
    steps: Seq<PathStep>,
)
    requires
        root_of(records) == Some(climb(leaf_of(record), steps)),
        collision_free(range_messages(records).union(path_messages(record, steps))),
    ensures
        records.contains(record),
{
    law_tree_of_a_range(records);
    lemma_path_lands_in_tree(tree_of(records), record, steps);
}

/// Altering the record or any sibling hash of a path changes the root it leads
/// to: two paths with the same sides reach the same root only if they are equal
/// and start from the same record.
pub proof fn law_path_binds_record_and_siblings(
    record1: Digest32,
    steps1: Seq<PathStep>,
    record2: Digest32,
    steps2: Seq<PathStep>,
)
    requires
        steps1.len() == steps2.len(),
        forall|i: int| 0 <= i < steps1.len() ==> steps1[i].side == steps2[i].side,
        climb(leaf_of(record1), steps1) == climb(leaf_of(record2), steps2),
        collision_free(path_messages(record1, steps1).union(path_messages(record2, steps2))),
    ensures
        record1 == record2,
        steps1 == steps2,
    decreases steps1.len(),
{
    let messages = path_messages(record1, steps1).union(path_messages(record2, steps2));
    lemma_path_message(record1, steps1);
    lemma_path_message(record2, steps2);
    if steps1.len() == 0 {
        assert(messages.contains(leaf_message(record1)));
        assert(messages.contains(leaf_message(record2)));
        lemma_leaf_message_injective(record1, record2);
        assert(steps1 =~= steps2);
    } else {
        let below1 = steps1.drop_last();
        let below2 = steps2.drop_last();
        let step1 = steps1.last();
        let step2 = steps2.last();
        let current1 = climb(leaf_of(record1), below1);
        let current2 = climb(leaf_of(record2), below2);
        assert(messages.contains(step_message(current1, step1)));
        assert(messages.contains(step_message(current2, step2)));
        assert(step1.side == step2.side);
        match step1.side {
            Side::Left => {
                lemma_node_message_injective(step1.hash, current1, step2.hash, current2);
            },
            Side::Right => {
                lemma_node_message_injective(current1, step1.hash, current2, step2.hash);
            },
        }
        lemma_collision_free_subset(
            path_messages(record1, below1).union(path_messages(record2, below2)),
            messages,
        );
        law_path_binds_record_and_siblings(record1, below1, record2, below2);
        assert(steps1 =~= below1.push(step1));
        assert(steps2 =~= below2.push(step2));
    }
}

/// The step with its sibling on the other side.
pub open spec fn flipped(step: PathStep) -> PathStep {
    PathStep {
        side: match step.side {
            Side::Left => Side::Right,
            Side::Right => Side::Left,
        },
        hash: step.hash,
    }
}

/// Flipping which side a sibling sits on changes the root, unless the sibling
/// equals the very node it is joined with.
pub proof fn law_flipping_a_side_changes_the_root(
    record: Digest32,
    steps: Seq<PathStep>,
    at: int,
)
    requires
        0 <= at < steps.len(),
        climb(leaf_of(record), steps.take(at)) != steps[at].hash,
        collision_free(
            path_messages(record, steps).union(
                path_messages(record, steps.update(at, flipped(steps[at]))),
            ),
        ),
    ensures
        climb(leaf_of(record), steps) != climb(
            leaf_of(record),
            steps.update(at, flipped(steps[at])),
        ),
    decreases steps.len(),
{
    let other = steps.update(at, flipped(steps[at]));
    let messages = path_messages(record, steps).union(path_messages(record, other));
    lemma_path_message(record, steps);
    lemma_path_message(record, other);
    let below = steps.drop_last();
    let other_below = other.drop_last();
    let current = climb(leaf_of(record), below);
    let other_current = climb(leaf_of(record), other_below);
    assert(messages.contains(step_message(current, steps.last())));
    assert(messages.contains(step_message(other_current, other.last())));
    if at == steps.len() - 1 {
        assert(other_below =~= below);
        assert(below =~= steps.take(at));
        if climb(leaf_of(record), steps) == climb(leaf_of(record), other) {
            let hash = steps.last().hash;
            match steps.last().side {
                Side::Left => {
                    lemma_node_message_injective(hash, current, current, hash);
                },
                Side::Right => {
                    lemma_node_message_injective(current, hash, hash, current);
                },
            }
        }
    } else {
        assert(other_below =~= below.update(at, flipped(below[at])));
        assert(below.take(at) =~= steps.take(at));
        lemma_collision_free_subset(
            path_messages(record, below).union(path_messages(record, other_below)),
            messages,
        );
        law_flipping_a_side_changes_the_root(record, below, at);
        if climb(leaf_of(record), steps) == climb(leaf_of(record), other) {
            let hash = steps.last().hash;
            match steps.last().side {
                Side::Left => {
                    lemma_node_message_injective(hash, current, hash, other_current);
                },
                Side::Right => {
                    lemma_node_message_injective(current, hash, other_current, hash);
                },
            }
        }
    }
}

/// The bytes of the domain separator are the characters of its text.
proof fn lemma_domain_bytes()
    ensures
        domain().len() == 28,
        forall|i: int|
            0 <= i < 28 ==> #[trigger] domain()[i] == "record-store/audit-merkle/v1"@[i] as u8,
{
    reveal_strlit("record-store/audit-merkle/v1");
    assert(vstd::string::is_ascii(MERKLE_DOMAIN));
    vstd::string::is_ascii_spec_bytes(MERKLE_DOMAIN);
}

/// The leaf of a record is the digest of 61 bytes: the 28 of the domain
/// separator, a zero, and the 32 of the record hash in their order.
pub proof fn law_leaf_is_the_digest_of_its_bytes(record: Digest32, message: Seq<u8>)
    requires
        message.len() == 61,
        forall|i: int|
            0 <= i < 28 ==> #[trigger] message[i] == "record-store/audit-merkle/v1"@[i] as u8,
        message[28] == 0x00,
        forall|i: int| 0 <= i < 32 ==> #[trigger] message[29 + i] == record@[i],
    ensures
        leaf_of(record) == sha256(message),
{
    lemma_domain_bytes();
    assert forall|i: int| 0 <= i < 61 implies message[i] == leaf_message(record)[i] by {
        if i >= 29 {
            assert(message[29 + (i - 29)] == record@[i - 29]);
        } else if i < 28 {
            assert(message[i] == domain()[i]);
        }
    }
    assert(message =~= leaf_message(record));
}

/// The node over two children is the digest of 93 bytes: the 28 of the domain
/// separator, a one, the 32 of the left child and the 32 of the right child,
/// each in their order.
pub proof fn law_node_is_the_digest_of_its_bytes(left: Digest32, right: Digest32, message: Seq<u8>)
    requires
        message.len() == 93,
        forall|i: int|
            0 <= i < 28 ==> #[trigger] message[i] == "record-store/audit-merkle/v1"@[i] as u8,
        message[28] == 0x01,
        forall|i: int| 0 <= i < 32 ==> #[trigger] message[29 + i] == left@[i],
        forall|i: int| 0 <= i < 32 ==> #[trigger] message[61 + i] == right@[i],
    ensures
        node_of(left, right) == sha256(message),
{
    lemma_domain_bytes();
    assert forall|i: int| 0 <= i < 93 implies message[i] == node_message(left, right)[i] by {
        if i >= 61 {
            assert(message[61 + (i - 61)] == right@[i - 61]);
        } else if i >= 29 {
            assert(message[29 + (i - 29)] == left@[i - 29]);
        } else if i < 28 {
            assert(message[i] == domain()[i]);
        }
    }
    assert(message =~= node_message(left, right));
}

/// No records have no root, and one record's root is its leaf.
pub proof fn law_smallest_roots(record: Digest32)
    ensures
        root_of(Seq::empty()) is None,
        root_of(seq![record]) == Some(leaf_of(record)),
{
    assert(leaves_of(seq![record]) =~= seq![leaf_of(record)]);
}

proof fn lemma_split_level(level: Seq<Digest32>, exponent: nat)
    requires
        exponent > 0,
        pow2(exponent) < level.len(),
    ensures
        pow2(exponent) == 2 * pow2((exponent - 1) as nat),
        parents(level).take(pow2((exponent - 1) as nat) as int) == parents(
            level.take(pow2(exponent) as int),
        ),
        parents(level).skip(pow2((exponent - 1) as nat) as int) == parents(
            level.skip(pow2(exponent) as int),
        ),
{
    lemma_pow2_unfold(exponent);
    lemma_pow2_pos((exponent - 1) as nat);
    let half = pow2((exponent - 1) as nat) as int;
    assert(parents(level).take(half) =~= parents(level.take(2 * half)));
    assert(parents(level).skip(half) =~= parents(level.skip(2 * half)));
}

proof fn lemma_apex_rises(level: Seq<Digest32>)
    requires
        level.len() > 0,
    ensures
        apex(parents(level)) == apex(level),
        parents(level).len() == (level.len() + 1) / 2,
{
    if level.len() == 1 {
        assert(parents(level) =~= level);
    }
}

proof fn lemma_apex_splits(level: Seq<Digest32>, exponent: nat)
    requires
        pow2(exponent) < level.len() <= 2 * pow2(exponent),
    ensures
        apex(level) == node_of(
            apex(level.take(pow2(exponent) as int)),
            apex(level.skip(pow2(exponent) as int)),
        ),
    decreases exponent,
{
    let size = pow2(exponent) as int;
    lemma_pow2_pos(exponent);
    if exponent == 0 {
        lemma2_to64();
        assert(parents(level) =~= seq![node_of(level[0], level[1])]);
        assert(apex(parents(level)) == node_of(level[0], level[1]));
    } else {
        lemma_split_level(level, exponent);
        lemma_pow2_pos((exponent - 1) as nat);
        lemma_apex_splits(parents(level), (exponent - 1) as nat);
        lemma_apex_rises(level);
        lemma_apex_rises(level.take(size));
        lemma_apex_rises(level.skip(size));
    }
}

/// The root over two or more records is the node over two roots: that of the
/// largest whole power of two of them that leaves some over, and that of the
/// rest.
pub proof fn law_root_splits(records: Seq<Digest32>, exponent: nat)
    requires
        pow2(exponent) < records.len() <= 2 * pow2(exponent),
    ensures
        root_of(records) == Some(
            node_of(
                root_of(records.take(pow2(exponent) as int))->0,
                root_of(records.skip(pow2(exponent) as int))->0,
            ),
        ),
{
    lemma_pow2_pos(exponent);
    let size = pow2(exponent) as int;
    lemma_apex_splits(leaves_of(records), exponent);
    assert(leaves_of(records).take(size) =~= leaves_of(records.take(size)));
    assert(leaves_of(records).skip(size) =~= leaves_of(records.skip(size)));
}

proof fn lemma_steps_rise(level: Seq<Digest32>, position: int)
    requires
        0 <= position < level.len(),
    ensures
        steps_from(level, position) == (if level.len() == 1 {
            Seq::<PathStep>::empty()
        } else {
            sibling_of(level, position)
        }) + steps_from(parents(level), position / 2),
{
    if level.len() == 1 {
        assert(parents(level) =~= level);
        assert(steps_from(level, position) =~= Seq::<PathStep>::empty() + steps_from(
            parents(level),
            position / 2,
        ));
    }
}

proof fn lemma_steps_split(level: Seq<Digest32>, position: int, exponent: nat)
    requires
        pow2(exponent) < level.len() <= 2 * pow2(exponent),
        0 <= position < level.len(),
    ensures
        ({
            let size = pow2(exponent) as int;
            let left = level.take(size);
            let right = level.skip(size);
            steps_from(level, position) == if position < size {
                steps_from(left, position).push(PathStep { side: Side::Right, hash: apex(right) })
            } else {
                steps_from(right, position - size).push(
                    PathStep { side: Side::Left, hash: apex(left) },
                )
            }
        }),
    decreases exponent,
{
    let size = pow2(exponent) as int;
    let left = level.take(size);
    let right = level.skip(size);
    lemma_pow2_pos(exponent);
    if exponent == 0 {
        lemma2_to64();
        assert(parents(level).len() == 1);
        assert(steps_from(parents(level), position / 2) =~= Seq::<PathStep>::empty());
        assert(steps_from(level, position) =~= sibling_of(level, position));
        if position < size {
            assert(steps_from(left, position) =~= Seq::<PathStep>::empty());
            assert(steps_from(level, position) =~= steps_from(left, position).push(
                PathStep { side: Side::Right, hash: apex(right) },
            ));
        } else {
            assert(steps_from(right, position - size) =~= Seq::<PathStep>::empty());
            assert(steps_from(level, position) =~= steps_from(right, position - size).push(
                PathStep { side: Side::Left, hash: apex(left) },
            ));
        }
    } else {
        lemma_split_level(level, exponent);
        let half = pow2((exponent - 1) as nat) as int;
        lemma_pow2_pos((exponent - 1) as nat);
        lemma_steps_split(parents(level), position / 2, (exponent - 1) as nat);
        lemma_apex_rises(left);
        lemma_apex_rises(right);
        lemma_steps_rise(level, position);
        if position < size {
            lemma_steps_rise(left, position);
            assert(sibling_of(level, position) =~= sibling_of(left, position));
            assert(steps_from(level, position) =~= steps_from(left, position).push(
                PathStep { side: Side::Right, hash: apex(right) },
            ));
        } else {
            lemma_steps_rise(right, position - size);
            assert((position - size) / 2 == position / 2 - half);
            assert(sibling_of(level, position) =~= (if right.len() == 1 {
                Seq::<PathStep>::empty()
            } else {
                sibling_of(right, position - size)
            }));
            assert(steps_from(level, position) =~= steps_from(right, position - size).push(
                PathStep { side: Side::Left, hash: apex(left) },
            ));
        }
    }
}

/// A single record needs no step. In a larger range the path of a record is its
/// path within its part, then one step over the root of the other part, on the
/// side where that part lies.
pub proof fn law_path_splits(records: Seq<Digest32>, index: int, exponent: nat)
    requires
        0 <= index < records.len(),
    ensures
        records.len() == 1 ==> steps_from(leaves_of(records), index).len() == 0,
        pow2(exponent) < records.len() <= 2 * pow2(exponent) ==> {
            let size = pow2(exponent) as int;
            let left = records.take(size);
            let right = records.skip(size);
            steps_from(leaves_of(records), index) == if index < size {
                steps_from(leaves_of(left), index).push(
                    PathStep { side: Side::Right, hash: root_of(right)->0 },
                )
            } else {
                steps_from(leaves_of(right), index - size).push(
                    PathStep { side: Side::Left, hash: root_of(left)->0 },
                )
            }
        },
{
    if pow2(exponent) < records.len() <= 2 * pow2(exponent) {
        let size = pow2(exponent) as int;
        lemma_pow2_pos(exponent);
        lemma_steps_split(leaves_of(records), index, exponent);
        assert(leaves_of(records).take(size) =~= leaves_of(records.take(size)));
        assert(leaves_of(records).skip(size) =~= leaves_of(records.skip(size)));
    }
}

/// A path without steps leads to the leaf it starts from. Each further step
/// joins what was reached with the sibling it names: the sibling comes first
/// where it is on the left, and second where it is on the right.
pub proof fn law_each_step_joins_its_sibling(start: Digest32, steps: Seq<PathStep>, hash: Digest32)
    ensures
        climb(start, Seq::empty()) == start,
        climb(start, steps.push(PathStep { side: Side::Left, hash })) == node_of(
            hash,
            climb(start, steps),
        ),
        climb(start, steps.push(PathStep { side: Side::Right, hash })) == node_of(
            climb(start, steps),
            hash,
        ),
{
    assert(steps.push(PathStep { side: Side::Left, hash }).drop_last() =~= steps);
    assert(steps.push(PathStep { side: Side::Right, hash }).drop_last() =~= steps);
}

} // verus!
