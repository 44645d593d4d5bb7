use record_store::digest::Digest32;
use record_store::merkle::{
    inclusion_path, leaf_hash, node_hash, root, root_from_path, verify_inclusion, InclusionPath,
    PathStep, Side,
};
use sha2::{Digest, Sha256};

fn hashes(count: usize) -> Vec<Digest32> {
    (0..count)
        .map(|index| Sha256::digest(format!("record-{index}")).into())
        .collect()
}

#[test]
fn an_empty_range_has_no_root() {
    assert!(root(&[]).is_none());
}

#[test]
fn a_single_record_roots_at_its_leaf() {
    let leaves = hashes(1);
    assert_eq!(root(&leaves), Some(leaf_hash(&leaves[0])));
}

/// Leaves and interior nodes must not be interchangeable, or a proof could
/// present an interior node as though it were a record.
#[test]
fn a_leaf_and_a_node_over_the_same_bytes_differ() {
    let value = Sha256::digest(b"same").into();
    assert_ne!(leaf_hash(&value), node_hash(&value, &value));
}

/// The promotion rule, pinned. Duplicating the odd node instead would let a
/// three-record range collide with a four-record one whose tail repeats.
#[test]
fn an_odd_node_is_promoted_rather_than_duplicated() {
    let three = hashes(3);
    let duplicated_tail = vec![three[0], three[1], three[2], three[2]];
    assert_ne!(root(&three), root(&duplicated_tail));

    let leaves: Vec<Digest32> = three.iter().map(leaf_hash).collect();
    let expected = node_hash(&node_hash(&leaves[0], &leaves[1]), &leaves[2]);
    assert_eq!(root(&three), Some(expected));
}

#[test]
fn a_balanced_tree_matches_a_hand_computed_root() {
    let four = hashes(4);
    let leaves: Vec<Digest32> = four.iter().map(leaf_hash).collect();
    let expected = node_hash(
        &node_hash(&leaves[0], &leaves[1]),
        &node_hash(&leaves[2], &leaves[3]),
    );
    assert_eq!(root(&four), Some(expected));
}

/// Every record in every range size must prove against the root it is actually
/// under. The odd sizes are where promotion bites.
#[test]
fn every_record_proves_against_its_root_at_every_range_size() {
    for count in 1..=33_usize {
        let records = hashes(count);
        let expected = root(&records).expect("a non-empty range has a root");
        for index in 0..count {
            let path = inclusion_path(&records, index).expect("in range");
            assert!(
                verify_inclusion(&records[index], &path, &expected),
                "record {index} of {count} must prove against its root"
            );
        }
    }
}

/// A proof must not transfer to a record that was never in the tree.
#[test]
fn a_path_does_not_prove_a_record_that_is_not_in_the_tree() {
    let records = hashes(8);
    let expected = root(&records).expect("root");
    let path = inclusion_path(&records, 3).expect("in range");
    let absent: Digest32 = Sha256::digest(b"never written").into();
    assert!(!verify_inclusion(&absent, &path, &expected));
}

/// Tampering with any step of the path must break it.
#[test]
fn altering_a_path_step_breaks_the_proof() {
    let records = hashes(8);
    let expected = root(&records).expect("root");
    for step_index in 0..3 {
        let mut path = inclusion_path(&records, 5).expect("in range");
        path.steps[step_index].hash[0] ^= 0xff;
        assert!(
            !verify_inclusion(&records[5], &path, &expected),
            "step {step_index} altered"
        );
    }
}

/// Flipping which side a sibling sits on changes the order it is hashed in,
/// which must change the root.
#[test]
fn flipping_a_sibling_side_breaks_the_proof() {
    let records = hashes(8);
    let expected = root(&records).expect("root");
    let mut path = inclusion_path(&records, 5).expect("in range");
    path.steps[0].side = match path.steps[0].side {
        Side::Left => Side::Right,
        Side::Right => Side::Left,
    };
    assert!(!verify_inclusion(&records[5], &path, &expected));
}

#[test]
fn an_index_outside_the_range_has_no_path() {
    assert!(inclusion_path(&hashes(4), 4).is_none());
    assert!(inclusion_path(&[], 0).is_none());
}

/// Changing any record changes the root, so a checkpoint cannot cover an edited
/// range and still match what was anchored.
#[test]
fn changing_any_record_changes_the_root() {
    let records = hashes(9);
    let original = root(&records).expect("root");
    for index in 0..records.len() {
        let mut edited = records.clone();
        edited[index][0] ^= 0xff;
        assert_ne!(root(&edited), Some(original), "record {index}");
    }
}

/// The construction that an independent verifier has to reproduce.
#[test]
fn leaves_and_nodes_are_hashed_under_their_domain_and_prefix() {
    let record = [7u8; 32];
    let other = [9u8; 32];
    let mut leaf = b"record-store/audit-merkle/v1".to_vec();
    leaf.push(0x00);
    leaf.extend_from_slice(&record);
    let expected: Digest32 = Sha256::digest(&leaf).into();
    assert_eq!(leaf_hash(&record), expected);

    let mut node = b"record-store/audit-merkle/v1".to_vec();
    node.push(0x01);
    node.extend_from_slice(&record);
    node.extend_from_slice(&other);
    let expected: Digest32 = Sha256::digest(&node).into();
    assert_eq!(node_hash(&record, &other), expected);
}

#[test]
fn a_path_names_its_index_and_the_siblings_from_the_leaf_up() {
    let three = hashes(3);
    let leaves: Vec<Digest32> = three.iter().map(leaf_hash).collect();

    let middle = inclusion_path(&three, 1).expect("in range");
    assert_eq!(middle.index, 1);
    assert_eq!(
        middle.steps,
        vec![
            PathStep { side: Side::Left, hash: leaves[0] },
            PathStep { side: Side::Right, hash: leaves[2] },
        ]
    );

    // The promoted record skips the level it has no sibling on.
    let last = inclusion_path(&three, 2).expect("in range");
    assert_eq!(
        last.steps,
        vec![PathStep {
            side: Side::Left,
            hash: node_hash(&leaves[0], &leaves[1]),
        }]
    );
}

#[test]
fn a_path_without_steps_roots_at_the_leaf() {
    let record = [3u8; 32];
    let path = InclusionPath { index: 0, steps: Vec::new() };
    assert_eq!(root_from_path(&record, &path), leaf_hash(&record));
}
