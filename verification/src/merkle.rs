//! A bottom-up binary hash tree (Merkle tree) over an ordered sequence of
//! string blocks.
//!
//! Each block becomes a leaf carrying `hash_of(block)`; levels are reduced
//! pairwise, an odd level (of more than one node) first duplicating its last
//! digest, until a single root remains. The root digest therefore commits to
//! every block and to their order. An empty input yields a tree with no root,
//! whose root digest is the empty string (the documented sentinel).

use crate::digest::hash_of;
use crate::digest::mock_hash;
use vstd::prelude::*;
use vstd::string::StringExecFns;

verus! {

/// One digest per block, in block order: level 0 of the reduction.
pub open spec fn leaf_digests(blocks: Seq<Seq<char>>) -> Seq<Seq<char>> {
    blocks.map_values(|b: Seq<char>| hash_of(b))
}

/// The parity rule: an odd level repeats its last digest so that pairing
/// can proceed.
pub open spec fn pad_to_even(level: Seq<Seq<char>>) -> Seq<Seq<char>> {
    if level.len() % 2 == 1 {
        level.push(level.last())
    } else {
        level
    }
}

/// One reduction step over an even-length level: consecutive pairs, left
/// digest first, each pair hashed into one parent digest.
pub open spec fn pair_up(level: Seq<Seq<char>>) -> Seq<Seq<char>> {
    Seq::new(level.len() / 2, |i: int| hash_of(level[2 * i] + level[2 * i + 1]))
}

/// The digest that reducing a level down to one node yields; the empty
/// string for an empty level.
pub open spec fn root_of_level(level: Seq<Seq<char>>) -> Seq<char>
    decreases level.len(),
{
    if level.len() == 0 {
        Seq::empty()
    } else if level.len() == 1 {
        level[0]
    } else {
        root_of_level(pair_up(pad_to_even(level)))
    }
}

/// The root digest that a tree built from `blocks` carries.
pub open spec fn merkle_root_of(blocks: Seq<Seq<char>>) -> Seq<char> {
    root_of_level(leaf_digests(blocks))
}

/// A tree node: a leaf has no children; an internal node owns exactly two.
/// Its fields are library-internal; nodes are built only by the tree.
pub struct Node {
    hash: String,
    left: Option<Box<Node>>,
    right: Option<Box<Node>>,
}

/// Either both children are absent (a leaf) or both are present and the
/// node's digest is the hash of the children's digests, left then right.
spec fn node_wf(n: Node) -> bool
    decreases n,
{
    match (n.left, n.right) {
        (Option::None, Option::None) => true,
        (Option::Some(l), Option::Some(r)) => node_wf(*l) && node_wf(*r) && n.hash@ == hash_of(
            l.hash@ + r.hash@,
        ),
        _ => false,
    }
}

/// The digests carried by a level of nodes, in order.
spec fn digests_of(nodes: Seq<Box<Node>>) -> Seq<Seq<char>> {
    nodes.map_values(|n: Box<Node>| n.hash@)
}

impl Node {
    fn new_leaf(data: &str) -> (n: Node)
        ensures
            n.hash@ == hash_of(data@),
            node_wf(n),
    {
        Node { hash: mock_hash(data), left: None, right: None }
    }

    fn new_internal(left: Box<Node>, right: Box<Node>) -> (n: Node)
        requires
            node_wf(*left),
            node_wf(*right),
        ensures
            n.hash@ == hash_of(left.hash@ + right.hash@),
            node_wf(n),
    {
        let combined = left.hash.clone().concat(right.hash.as_str());
        let new_hash = mock_hash(combined.as_str());
        Node { hash: new_hash, left: Some(left), right: Some(right) }
    }
}

/// The tree: the root node (absent exactly when the input was empty) and the
/// original blocks, kept for later re-derivation of the root.
pub struct MerkleTree {
    pub root: Option<Box<Node>>,
    pub leaves: Vec<String>,
}

impl MerkleTree {
    /// The root digest as an abstract value; the empty sequence when there
    /// is no root.
    pub closed spec fn spec_root_digest(self) -> Seq<char> {
        match self.root {
            Option::Some(n) => n.hash@,
            Option::None => Seq::empty(),
        }
    }

    /// The retained blocks as abstract values, in input order.
    pub open spec fn spec_leaves(self) -> Seq<Seq<char>> {
        self.leaves.deep_view()
    }

    /// Well-formed: the root is present exactly for a non-empty input, the
    /// structure is a strict binary tree of consistent digests, and the root
    /// digest is the reduction of the retained blocks.
    pub closed spec fn wf(self) -> bool {
        &&& (self.root is Some <==> self.leaves@.len() > 0)
        &&& (self.root matches Some(n) ==> node_wf(*n))
        &&& self.spec_root_digest() == merkle_root_of(self.leaves.deep_view())
    }

    /// Builds the tree bottom-up from the given blocks. Total: every finite
    /// input is accepted, including the empty and the single-block sequence.
    pub fn new(data: Vec<String>) -> (tree: MerkleTree)
        ensures
            tree.spec_leaves() == data.deep_view(),
            tree.wf(),
            tree.spec_root_digest() == merkle_root_of(data.deep_view()),
    {
        if data.is_empty() {
            let tree = MerkleTree { root: None, leaves: data };
            proof {
                assert(leaf_digests(tree.leaves.deep_view()) =~= Seq::<Seq<char>>::empty());
            }
            return tree;
        }
        let mut nodes: Vec<Box<Node>> = Vec::new();
        let mut i: usize = 0;
        while i < data.len()
            invariant
                i <= data@.len(),
                nodes@.len() == i,
                forall|j: int| 0 <= j < i ==> node_wf(*#[trigger] nodes@[j]),
                forall|j: int|
                    0 <= j < i ==> #[trigger] nodes@[j].hash@ == hash_of(data@[j]@),
            decreases data@.len() - i,
        {
            nodes.push(Box::new(Node::new_leaf(data[i].as_str())));
            i += 1;
        }
        proof {
            assert(digests_of(nodes@) =~= leaf_digests(data.deep_view()));
        }
        let root = Self::build_recursive(nodes);
        MerkleTree { root: Some(root), leaves: data }
    }

    /// Reduces one level of nodes to the single root node: pads an odd level
    /// by repeating the last digest, pairs neighbours left-to-right, and
    /// recurses on the next level.
    fn build_recursive(nodes: Vec<Box<Node>>) -> (root: Box<Node>)
        requires
            nodes@.len() >= 1,
            forall|j: int| 0 <= j < nodes@.len() ==> node_wf(*#[trigger] nodes@[j]),
        ensures
            root.hash@ == root_of_level(digests_of(nodes@)),
            node_wf(*root),
        decreases nodes@.len(),
    {
        let ghost orig: Seq<Box<Node>> = nodes@;
        let mut nodes = nodes;
        if nodes.len() == 1 {
            let root = nodes.pop().unwrap();
            proof {
                assert(digests_of(orig)[0] == root.hash@);
            }
            return root;
        }
        // Parity rule: duplicate the last node's digest (never recomputed
        // from source data) so the level has even length.
        if nodes.len() % 2 != 0 {
            let last_hash = nodes[nodes.len() - 1].hash.clone();
            nodes.push(Box::new(Node { hash: last_hash, left: None, right: None }));
        }
        proof {
            assert(digests_of(nodes@) =~= pad_to_even(digests_of(orig)));
        }
        let ghost padded: Seq<Seq<char>> = digests_of(nodes@);
        let mut next_level: Vec<Box<Node>> = Vec::new();
        while nodes.len() >= 2
            invariant
                nodes@.len() % 2 == 0,
                forall|j: int| 0 <= j < nodes@.len() ==> node_wf(*#[trigger] nodes@[j]),
                forall|j: int|
                    0 <= j < next_level@.len() ==> node_wf(*#[trigger] next_level@[j]),
                next_level@.len() * 2 + nodes@.len() == padded.len(),
                digests_of(next_level@) + pair_up(digests_of(nodes@)) =~= pair_up(padded),
            decreases nodes@.len(),
        {
            let ghost before: Seq<Seq<char>> = digests_of(nodes@);
            let left = nodes.remove(0);
            let right = nodes.remove(0);
            let parent = Node::new_internal(left, right);
            next_level.push(Box::new(parent));
            proof {
                assert(digests_of(nodes@) =~= before.skip(2));
                lemma_pair_up_peel(before);
                assert(digests_of(next_level@) + pair_up(digests_of(nodes@)) =~= pair_up(
                    padded,
                ));
            }
        }
        proof {
            assert(nodes@.len() == 0);
            assert(pair_up(digests_of(nodes@)) =~= Seq::<Seq<char>>::empty());
            assert(digests_of(next_level@) =~= pair_up(padded));
            assert(padded.len() >= 2);
            assert(next_level@.len() >= 1);
            assert(next_level@.len() < orig.len());
        }
        Self::build_recursive(next_level)
    }

    /// Returns the root digest; the empty string when the input was empty
    /// (the sentinel for "no root").
    pub fn root_hash(&self) -> (r: String)
        ensures
            r@ == self.spec_root_digest(),
            self.wf() ==> r@ == merkle_root_of(self.spec_leaves()),
    {
        match &self.root {
            Some(node) => node.hash.clone(),
            None => String::new(),
        }
    }

    /// The number of original (pre-padding) input blocks.
    pub fn leaf_count(&self) -> (n: usize)
        ensures
            n == self.spec_leaves().len(),
    {
        self.leaves.len()
    }
}

/// Determinism: any two well-formed trees over the same blocks carry the
/// same root digest — the root is a pure function of the input sequence.
pub proof fn lemma_build_deterministic(t1: MerkleTree, t2: MerkleTree)
    requires
        t1.wf(),
        t2.wf(),
        t1.spec_leaves() == t2.spec_leaves(),
    ensures
        t1.spec_root_digest() == t2.spec_root_digest(),
{
}

/// Empty input: the root digest is the empty-string sentinel.
pub proof fn lemma_empty_input()
    ensures
        merkle_root_of(Seq::<Seq<char>>::empty()) == Seq::<char>::empty(),
{
    assert(leaf_digests(Seq::<Seq<char>>::empty()) =~= Seq::<Seq<char>>::empty());
}

/// Single input: the root digest is exactly the hash of the one block, with
/// no internal-node wrapping.
pub proof fn lemma_single_input(b: Seq<char>)
    ensures
        merkle_root_of(seq![b]) == hash_of(b),
{
    assert(leaf_digests(seq![b]) =~= seq![hash_of(b)]);
}

/// Two blocks: one pairing step, the left block's digest hashed first.
pub proof fn lemma_two_blocks(a: Seq<char>, b: Seq<char>)
    ensures
        merkle_root_of(seq![a, b]) == hash_of(hash_of(a) + hash_of(b)),
{
    let l0 = leaf_digests(seq![a, b]);
    assert(l0 =~= seq![hash_of(a), hash_of(b)]);
    assert(pad_to_even(l0) == l0);
    assert(pair_up(l0) =~= seq![hash_of(hash_of(a) + hash_of(b))]);
    assert(root_of_level(l0) == root_of_level(pair_up(l0)));
}

/// Order sensitivity, as far as the structure alone guarantees it: the two
/// orders of a pair hash different byte sequences at the root whenever the
/// blocks' digests differ (and have equal length — concatenation order is
/// otherwise ambiguous). Whether different root-level inputs give different
/// root digests is up to the hash function's collision behaviour.
pub proof fn lemma_order_sensitivity(a: Seq<char>, b: Seq<char>)
    ensures
        merkle_root_of(seq![a, b]) == hash_of(hash_of(a) + hash_of(b)),
        merkle_root_of(seq![b, a]) == hash_of(hash_of(b) + hash_of(a)),
        (hash_of(a) != hash_of(b) && hash_of(a).len() == hash_of(b).len()) ==> hash_of(a)
            + hash_of(b) != hash_of(b) + hash_of(a),
{
    lemma_two_blocks(a, b);
    lemma_two_blocks(b, a);
    let x = hash_of(a);
    let y = hash_of(b);
    if x.len() == y.len() && x + y == y + x {
        assert forall|i: int| 0 <= i < x.len() implies x[i] == y[i] by {
            assert((x + y)[i] == (y + x)[i]);
        }
        assert(x =~= y);
    }
}

/// Odd-length padding: with three blocks the last leaf digest is duplicated
/// at the leaf level before the final pairing.
pub proof fn lemma_odd_length_padding(a: Seq<char>, b: Seq<char>, c: Seq<char>)
    ensures
        merkle_root_of(seq![a, b, c]) == hash_of(
            hash_of(hash_of(a) + hash_of(b)) + hash_of(hash_of(c) + hash_of(c)),
        ),
{
    let l0 = leaf_digests(seq![a, b, c]);
    assert(l0 =~= seq![hash_of(a), hash_of(b), hash_of(c)]);
    let p0 = pad_to_even(l0);
    assert(p0 =~= seq![hash_of(a), hash_of(b), hash_of(c), hash_of(c)]);
    let l1 = pair_up(p0);
    let d01 = hash_of(hash_of(a) + hash_of(b));
    let d22 = hash_of(hash_of(c) + hash_of(c));
    assert(l1 =~= seq![d01, d22]);
    assert(pad_to_even(l1) == l1);
    assert(pair_up(l1) =~= seq![hash_of(d01 + d22)]);
    assert(root_of_level(l0) == root_of_level(l1));
    assert(root_of_level(l1) == root_of_level(pair_up(l1)));
}

/// Four blocks (even): two pairings and no duplication anywhere.
pub proof fn lemma_four_blocks(a: Seq<char>, b: Seq<char>, c: Seq<char>, d: Seq<char>)
    ensures
        merkle_root_of(seq![a, b, c, d]) == hash_of(
            hash_of(hash_of(a) + hash_of(b)) + hash_of(hash_of(c) + hash_of(d)),
        ),
{
    let l0 = leaf_digests(seq![a, b, c, d]);
    assert(l0 =~= seq![hash_of(a), hash_of(b), hash_of(c), hash_of(d)]);
    assert(pad_to_even(l0) == l0);
    let l1 = pair_up(l0);
    let d01 = hash_of(hash_of(a) + hash_of(b));
    let d23 = hash_of(hash_of(c) + hash_of(d));
    assert(l1 =~= seq![d01, d23]);
    assert(pad_to_even(l1) == l1);
    assert(pair_up(l1) =~= seq![hash_of(d01 + d23)]);
    assert(root_of_level(l0) == root_of_level(l1));
    assert(root_of_level(l1) == root_of_level(pair_up(l1)));
}

/// Duplicating the whole input of a singleton is not the internal parity
/// padding: `[s]` reduces to the bare leaf digest, while `[s, s]` gains a
/// root-level pairing step. The two root digests coincide only if the hash
/// function maps `hash_of(s) ++ hash_of(s)` back to `hash_of(s)`.
pub proof fn lemma_whole_duplication_adds_a_level(s: Seq<char>)
    ensures
        merkle_root_of(seq![s]) == hash_of(s),
        merkle_root_of(seq![s, s]) == hash_of(hash_of(s) + hash_of(s)),
{
    lemma_single_input(s);
    lemma_two_blocks(s, s);
}

/// Whether `n` is a power of two (so a level of that size is never padded,
/// at any depth of the reduction).
pub open spec fn is_power_of_two(n: nat) -> bool
    decreases n,
{
    if n == 0 {
        false
    } else if n == 1 {
        true
    } else {
        n % 2 == 0 && is_power_of_two(n / 2)
    }
}

/// Duplicating the whole input, for any block count that is a power of two:
/// the doubled input's root is one pairing step above the original root, so
/// the two coincide only if the hash maps `r ++ r` back to `r`. (For other
/// lengths padding interleaves the copies and no such closed form holds.)
pub proof fn lemma_whole_duplication_doubles_the_root(blocks: Seq<Seq<char>>)
    requires
        is_power_of_two(blocks.len()),
    ensures
        merkle_root_of(blocks + blocks) == hash_of(
            merkle_root_of(blocks) + merkle_root_of(blocks),
        ),
{
    assert(leaf_digests(blocks + blocks) =~= leaf_digests(blocks) + leaf_digests(blocks));
    lemma_root_of_doubled_level(leaf_digests(blocks));
}

/// A doubled level of power-of-two size reduces to the hash of the single
/// level's root paired with itself.
proof fn lemma_root_of_doubled_level(level: Seq<Seq<char>>)
    requires
        is_power_of_two(level.len()),
    ensures
        root_of_level(level + level) == hash_of(root_of_level(level) + root_of_level(level)),
    decreases level.len(),
{
    let doubled = level + level;
    assert(pad_to_even(doubled) == doubled);
    if level.len() == 1 {
        assert(pair_up(doubled) =~= seq![hash_of(level[0] + level[0])]);
        assert(root_of_level(doubled) == root_of_level(pair_up(doubled)));
    } else {
        let p = pair_up(level);
        lemma_pair_up_split(level, level);
        assert(root_of_level(doubled) == root_of_level(p + p));
        assert(pad_to_even(level) == level);
        assert(root_of_level(level) == root_of_level(p));
        lemma_root_of_doubled_level(p);
    }
}

/// Pairing an even-length level followed by another even-length level pairs
/// each part on its own: no pair straddles the seam.
proof fn lemma_pair_up_split(l1: Seq<Seq<char>>, l2: Seq<Seq<char>>)
    requires
        l1.len() % 2 == 0,
        l2.len() % 2 == 0,
    ensures
        pair_up(l1 + l2) =~= pair_up(l1) + pair_up(l2),
{
    let joined = l1 + l2;
    assert(pair_up(joined).len() == l1.len() / 2 + l2.len() / 2);
    assert forall|i: int| 0 <= i < joined.len() / 2 implies pair_up(joined)[i] == (pair_up(l1)
        + pair_up(l2))[i] by {
        if i < l1.len() / 2 {
            assert(joined[2 * i] == l1[2 * i]);
            assert(joined[2 * i + 1] == l1[2 * i + 1]);
        } else {
            let k = i - l1.len() / 2;
            assert(joined[2 * i] == l2[2 * k]);
            assert(joined[2 * i + 1] == l2[2 * k + 1]);
            assert(pair_up(l2)[k] == hash_of(l2[2 * k] + l2[2 * k + 1]));
        }
    }
}

/// An even level is never padded: one reduction step turns consecutive,
/// non-overlapping pairs — left digest first — into parents, and taking
/// that step leaves the root unchanged.
pub proof fn lemma_even_level_reduction(level: Seq<Seq<char>>)
    requires
        level.len() >= 2,
        level.len() % 2 == 0,
    ensures
        pad_to_even(level) == level,
        pair_up(level).len() == level.len() / 2,
        forall|i: int|
            0 <= i < level.len() / 2 ==> #[trigger] pair_up(level)[i] == hash_of(
                level[2 * i] + level[2 * i + 1],
            ),
        root_of_level(level) == root_of_level(pair_up(level)),
{
}

/// Peeling one pair off an even-length level: its reduction is the hash of
/// the first pair, followed by the reduction of the rest.
proof fn lemma_pair_up_peel(level: Seq<Seq<char>>)
    requires
        level.len() >= 2,
        level.len() % 2 == 0,
    ensures
        pair_up(level) =~= seq![hash_of(level[0] + level[1])] + pair_up(level.skip(2)),
{
    let rest = level.skip(2);
    assert(pair_up(level).len() == level.len() / 2);
    assert(pair_up(rest).len() == (level.len() - 2) / 2);
    assert forall|i: int| 0 <= i < level.len() / 2 implies pair_up(level)[i] == (seq![
        hash_of(level[0] + level[1]),
    ] + pair_up(rest))[i] by {
        if i > 0 {
            assert(rest[2 * (i - 1)] == level[2 * i]);
            assert(rest[2 * (i - 1) + 1] == level[2 * i + 1]);
            assert(pair_up(rest)[i - 1] == hash_of(rest[2 * (i - 1)] + rest[2 * (i - 1) + 1]));
        }
    }
}

} // verus!
