use std::collections::BTreeSet;

use vstd::prelude::*;
use vstd::std_specs::cmp::OrdSpec;
use vstd::std_specs::iter::IteratorSpec;

verus! {

broadcast use {vstd::laws_cmp::group_laws_cmp, vstd::std_specs::btree::group_btree_axioms};

/// The undirected edge `{left, right}` as its ordered key `(min, max)`.
pub open spec fn edge_key(left: usize, right: usize) -> (usize, usize) {
    if left < right {
        (left, right)
    } else {
        (right, left)
    }
}

/// The undirected edge `{left, right}` as its ordered key `(min, max)`.
pub fn ordered_pair(left: usize, right: usize) -> (pair: (usize, usize))
    ensures
        pair == edge_key(left, right),
{
    if left < right {
        (left, right)
    } else {
        (right, left)
    }
}

/// The keys of the three edges `(a, b)`, `(b, c)`, `(c, a)` of a triangle.
pub open spec fn triangle_edge_keys(t: [usize; 3]) -> Set<(usize, usize)> {
    set![edge_key(t[0], t[1]), edge_key(t[1], t[2]), edge_key(t[2], t[0])]
}

/// The keys of every edge of every triangle.
pub open spec fn edge_set(triangles: Seq<[usize; 3]>) -> Set<(usize, usize)>
    decreases triangles.len(),
{
    if triangles.len() == 0 {
        Set::empty()
    } else {
        edge_set(triangles.drop_last()).union(triangle_edge_keys(triangles.last()))
    }
}

/// An edge key belongs to the edge set exactly when it is an edge of some triangle.
pub proof fn lemma_edge_set_membership(triangles: Seq<[usize; 3]>, key: (usize, usize))
    ensures
        edge_set(triangles).contains(key) <==> exists|t: int|
            0 <= t < triangles.len() && #[trigger] triangle_edge_keys(triangles[t]).contains(key),
    decreases triangles.len(),
{
    if triangles.len() > 0 {
        let prefix = triangles.drop_last();
        lemma_edge_set_membership(prefix, key);
        if edge_set(triangles).contains(key) {
            if edge_set(prefix).contains(key) {
                let t = choose|t: int|
                    0 <= t < prefix.len() && #[trigger] triangle_edge_keys(prefix[t]).contains(key);
                assert(triangles[t] == prefix[t]);
            } else {
                assert(triangle_edge_keys(triangles[triangles.len() - 1]).contains(key));
            }
        }
        if exists|t: int|
            0 <= t < triangles.len() && #[trigger] triangle_edge_keys(triangles[t]).contains(key) {
            let t = choose|t: int|
                0 <= t < triangles.len() && #[trigger] triangle_edge_keys(triangles[t]).contains(key);
            if t < prefix.len() {
                assert(prefix[t] == triangles[t]);
            }
        }
    }
}

/// Lexicographic order on edge keys.
pub open spec fn key_less(x: (usize, usize), y: (usize, usize)) -> bool {
    x.0 < y.0 || (x.0 == y.0 && x.1 < y.1)
}

/// Keys in strictly increasing lexicographic order.
pub open spec fn strictly_increasing(keys: Seq<(usize, usize)>) -> bool {
    forall|i: int, j: int| 0 <= i < j < keys.len() ==> key_less(#[trigger] keys[i], #[trigger] keys[j])
}

/// The edge keys of all triangles, collected into an ordered set.
pub fn mesh_edges(triangles: &[[usize; 3]]) -> (edges: BTreeSet<(usize, usize)>)
    ensures
        edges@ == edge_set(triangles@),
{
    let mut edges: BTreeSet<(usize, usize)> = BTreeSet::new();
    let mut t: usize = 0;
    assert(triangles@.take(0) =~= Seq::<[usize; 3]>::empty());
    while t < triangles.len()
        invariant
            t <= triangles@.len(),
            edges@ == edge_set(triangles@.take(t as int)),
        decreases triangles.len() - t,
    {
        let triangle = triangles[t];
        edges.insert(ordered_pair(triangle[0], triangle[1]));
        edges.insert(ordered_pair(triangle[1], triangle[2]));
        edges.insert(ordered_pair(triangle[2], triangle[0]));
        proof {
            let next = triangles@.take(t + 1);
            assert(next.drop_last() =~= triangles@.take(t as int));
            assert(next.last() == triangle);
            assert(edges@ =~= edge_set(next));
        }
        t = t + 1;
    }
    assert(triangles@.take(triangles@.len() as int) =~= triangles@);
    edges
}

/// The ordered set's iteration order is the lexicographic key order.
proof fn lemma_increasing_keys(keys: Seq<&(usize, usize)>)
    requires
        vstd::std_specs::btree::increasing_seq(keys),
    ensures
        strictly_increasing(keys.unref()),
{
    assert(vstd::laws_cmp::obeys_cmp::<usize>());
    assert(vstd::laws_cmp::obeys_cmp::<(usize, usize)>());
    assert(vstd::laws_cmp::obeys_cmp::<&(usize, usize)>());
    assert forall|i: int, j: int| 0 <= i < j < keys.unref().len() implies key_less(
        #[trigger] keys.unref()[i],
        #[trigger] keys.unref()[j],
    ) by {
        assert(OrdSpec::cmp_spec(&keys[i], &keys[j]) is Less);
    }
}

/// The members of an edge set in increasing lexicographic order.
pub fn sorted_edges(edges: &BTreeSet<(usize, usize)>) -> (sorted: Vec<(usize, usize)>)
    ensures
        sorted@.to_set() == edges@,
        sorted@.len() == edges@.len(),
        sorted@.no_duplicates(),
        strictly_increasing(sorted@),
{
    let iter = edges.iter();
    let ghost keys = iter.remaining().unref();
    proof {
        lemma_increasing_keys(iter.remaining());
    }
    let mut sorted: Vec<(usize, usize)> = Vec::new();
    for key in it: iter
        invariant
            it.seq().unref() == keys,
            sorted@ == keys.take(it.index() as int),
            keys.to_set() == edges@,
            keys.len() == edges@.len(),
            keys.no_duplicates(),
            strictly_increasing(keys),
    {
        sorted.push(*key);
        assert(sorted@ =~= keys.take(it.index() + 1));
    }
    assert(sorted@ =~= keys);
    sorted
}

} // verus!
