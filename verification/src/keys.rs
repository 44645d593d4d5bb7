//! The order of byte keys, and ranges of keys that share a prefix.

use vstd::prelude::*;

verus! {

/// Whether `a` comes strictly before `b`, byte by byte; a proper prefix comes
/// first.
pub open spec fn key_before(a: Seq<u8>, b: Seq<u8>) -> bool
    decreases a.len(),
{
    if b.len() == 0 {
        false
    } else if a.len() == 0 {
        true
    } else if a[0] != b[0] {
        a[0] < b[0]
    } else {
        key_before(a.skip(1), b.skip(1))
    }
}

/// Whether `key` lies at or after `start`, and before `end` where there is one.
pub open spec fn within(key: Seq<u8>, start: Seq<u8>, end: Option<Seq<u8>>) -> bool {
    &&& !key_before(key, start)
    &&& end matches Some(bound) ==> key_before(key, bound)
}

/// Whether `key` begins with `prefix`.
pub open spec fn starts_with(key: Seq<u8>, prefix: Seq<u8>) -> bool {
    prefix.len() <= key.len() && key.take(prefix.len() as int) == prefix
}

/// The first key after all those with the prefix, if there is one.
spec fn successor(prefix: Seq<u8>) -> Option<Seq<u8>>
    decreases prefix.len(),
{
    if prefix.len() == 0 {
        None
    } else {
        match successor(prefix.skip(1)) {
            Some(rest) => Some(seq![prefix[0]] + rest),
            None => if prefix[0] == 0xff {
                None
            } else {
                Some(seq![(prefix[0] + 1) as u8])
            },
        }
    }
}

proof fn lemma_successor_bounds(key: Seq<u8>, prefix: Seq<u8>)
    ensures
        within(key, prefix, successor(prefix)) <==> starts_with(key, prefix),
    decreases prefix.len(),
{
    if prefix.len() == 0 {
        assert(key.take(0) =~= prefix);
    } else if key.len() > 0 {
        let rest = prefix.skip(1);
        lemma_successor_bounds(key.skip(1), rest);
        if starts_with(key, prefix) {
            assert(key[0] == key.take(prefix.len() as int)[0]);
            assert(key.skip(1).take(rest.len() as int) =~= key.take(prefix.len() as int).skip(1));
        }
        if key[0] == prefix[0] && starts_with(key.skip(1), rest) {
            assert forall|i: int| 0 <= i < prefix.len() implies key[i] == prefix[i] by {
                if i > 0 {
                    assert(key.skip(1).take(rest.len() as int)[i - 1] == rest[i - 1]);
                }
            }
            assert(key.take(prefix.len() as int) =~= prefix);
        }
        assert(key[0] == prefix[0] ==> key_before(key, prefix) == key_before(key.skip(1), rest));
        assert(starts_with(key, prefix) <==> key[0] == prefix[0] && starts_with(key.skip(1), rest));
        match successor(rest) {
            Some(bound) => {
                let end = seq![prefix[0]] + bound;
                assert(end.skip(1) =~= bound);
                assert(key[0] == prefix[0] ==> key_before(key, end) == key_before(
                    key.skip(1),
                    bound,
                ));
            },
            None => {
                if prefix[0] != 0xff {
                    let end = seq![(prefix[0] + 1) as u8];
                    assert(!key_before(key.skip(1), Seq::<u8>::empty()));
                    assert(end.skip(1) =~= Seq::<u8>::empty());
                    assert(key_before(key, end) <==> key[0] <= prefix[0]);
                }
            },
        }
    }
}

/// The successor is found at the last byte that can still grow.
proof fn lemma_successor_at(prefix: Seq<u8>, at: int)
    requires
        -1 <= at < prefix.len(),
        at >= 0 ==> prefix[at] != 0xff,
        forall|j: int| at < j < prefix.len() ==> prefix[j] == 0xff,
    ensures
        successor(prefix) == (if at < 0 {
            None::<Seq<u8>>
        } else {
            Some(prefix.take(at).push((prefix[at] + 1) as u8))
        }),
    decreases prefix.len(),
{
    if prefix.len() > 0 {
        let rest = prefix.skip(1);
        let below: int = if at <= 0 {
            -1
        } else {
            at - 1
        };
        lemma_successor_at(rest, below);
        if at == 0 {
            assert(prefix.take(0).push((prefix[0] + 1) as u8) =~= seq![(prefix[0] + 1) as u8]);
        } else if at > 0 {
            assert(prefix.take(at).push((prefix[at] + 1) as u8) =~= seq![prefix[0]] + rest.take(
                at - 1,
            ).push((prefix[at] + 1) as u8));
        }
    }
}

/// Returns the end of the range of keys that begin with `prefix`. Where every
/// byte is the largest there is, nothing comes after them and the range has no
/// end.
pub fn prefix_successor(prefix: &[u8]) -> (end: Option<Vec<u8>>)
    ensures
        forall|key: Seq<u8>|
            #![trigger starts_with(key, prefix@)]
            within(
                key,
                prefix@,
                match end {
                    Some(bound) => Some(bound@),
                    None => None,
                },
            ) <==> starts_with(key, prefix@),
{
    let mut at: usize = prefix.len();
    while at > 0 && prefix[at - 1] == 0xff
        invariant
            at <= prefix@.len(),
            forall|j: int| at <= j < prefix@.len() ==> prefix@[j] == 0xff,
        decreases at,
    {
        at -= 1;
    }
    proof {
        lemma_successor_at(prefix@, at - 1);
        assert forall|key: Seq<u8>|
            #![trigger starts_with(key, prefix@)]
            within(key, prefix@, successor(prefix@)) <==> starts_with(key, prefix@) by {
            lemma_successor_bounds(key, prefix@);
        }
    }
    if at == 0 {
        return None;
    }
    let mut end: Vec<u8> = Vec::with_capacity(at);
    let mut i: usize = 0;
    while i < at - 1
        invariant
            1 <= at <= prefix@.len(),
            i <= at - 1,
            end@ == prefix@.take(i as int),
        decreases at - i,
    {
        end.push(prefix[i]);
        assert(end@ =~= prefix@.take(i + 1));
        i += 1;
    }
    end.push(prefix[at - 1] + 1);
    assert(end@ =~= prefix@.take(at - 1).push((prefix@[at - 1] + 1) as u8));
    Some(end)
}

/// Keys come in the order of a dictionary: at the first byte in which two keys
/// differ the smaller byte decides, and a key comes before every longer one that
/// begins with it.
pub proof fn law_keys_are_in_dictionary_order(a: Seq<u8>, b: Seq<u8>, at: int)
    requires
        0 <= at <= a.len(),
        at <= b.len(),
        forall|i: int| 0 <= i < at ==> #[trigger] a[i] == b[i],
    ensures
        at < a.len() && at < b.len() && a[at] < b[at] ==> key_before(a, b) && !key_before(b, a),
        at == a.len() && at < b.len() ==> key_before(a, b) && !key_before(b, a),
        at == a.len() && at == b.len() ==> !key_before(a, b) && !key_before(b, a),
    decreases at,
{
    if at > 0 {
        let rest_a = a.skip(1);
        let rest_b = b.skip(1);
        assert(a[0] == b[0]);
        assert forall|i: int| 0 <= i < at - 1 implies #[trigger] rest_a[i] == rest_b[i] by {
            assert(a[i + 1] == b[i + 1]);
        }
        law_keys_are_in_dictionary_order(rest_a, rest_b, at - 1);
    }
}

/// A key begins with a prefix when it is at least as long and has the prefix's
/// bytes in the prefix's places.
pub proof fn law_prefix_is_the_first_bytes(key: Seq<u8>, prefix: Seq<u8>)
    ensures
        starts_with(key, prefix) ==> key.len() >= prefix.len() && forall|i: int|
            0 <= i < prefix.len() ==> #[trigger] key[i] == prefix[i],
        key.len() >= prefix.len() && (forall|i: int|
            0 <= i < prefix.len() ==> #[trigger] key[i] == prefix[i]) ==> starts_with(key, prefix),
{
    if starts_with(key, prefix) {
        assert forall|i: int| 0 <= i < prefix.len() implies #[trigger] key[i] == prefix[i] by {
            assert(key.take(prefix.len() as int)[i] == prefix[i]);
        }
    }
    if key.len() >= prefix.len() && (forall|i: int|
        0 <= i < prefix.len() ==> #[trigger] key[i] == prefix[i]) {
        assert(key.take(prefix.len() as int) =~= prefix);
    }
}

/// A range holds its start, nothing before it, and nothing from its end on.
pub proof fn law_range_is_half_open(key: Seq<u8>, start: Seq<u8>, end: Option<Seq<u8>>)
    ensures
        key_before(key, start) ==> !within(key, start, end),
        end is Some && !key_before(key, end->0) ==> !within(key, start, end),
        !key_before(key, start) && (end is Some ==> key_before(key, end->0)) ==> within(
            key,
            start,
            end,
        ),
{
}

} // verus!
