use std::collections::BTreeMap;

use vstd::prelude::*;

use super::particle::{ClothError, Particle};
use crate::garment::{
    copy_items, same_triangles, fnv_word, fnv_words, hash_u64, hash_triangles, lemma_fnv_words_append,
    lemma_fnv_words_single, triangle_is_valid, triangle_seq_words, vec3_words, FNV_OFFSET_BASIS,
};
use crate::math::{finite_bits, is_finite_bits, is_negative_bits, is_positive_bits, negative_bits,
    positive_bits, Vec3};
use crate::topology::{
    edge_key, edge_set, mesh_edges, ordered_pair, sorted_edges, strictly_increasing,
};

verus! {

broadcast use {vstd::laws_cmp::group_laws_cmp, vstd::std_specs::btree::group_btree_axioms};

/// Marker word that separates triangle-mesh fingerprints from other cloth fingerprints.
pub const TRIANGLE_MESH_FINGERPRINT_MARKER: u64 = 0xffff_ffff_ffff_ffff;

/// Solver parameters for an arbitrary indexed triangle surface (binary64 bit patterns).
///
/// A plain triangle mesh does not encode warp/weft or pattern-space shear directions, so this
/// configuration exposes structural stretch and bending only.
#[derive(Clone, Copy, Debug, PartialEq, Eq, Structural)]
pub struct TriangleMeshClothConfig {
    pub particle_mass: u64,
    pub stretch_compliance: u64,
    pub bending_compliance: u64,
}

/// The floating-point measurements of a mesh that construction needs, as binary64 bit patterns:
/// `inverse_mass` is `1.0 / particle_mass`; `flat_triangles[t]` tells whether the cross product of
/// triangle `t`'s edge vectors `b - a` and `c - a` is non-finite or has squared length at most
/// `f64::EPSILON` (only meaningful for triangles whose indices address the positions);
/// `rest_lengths[k]` is the distance between the endpoints of the `k`-th structural edge listed by
/// [`TriangleMeshCloth::structural_edges`].
#[derive(Clone, Debug)]
pub struct TriangleMeshMeasures {
    pub inverse_mass: u64,
    pub flat_triangles: Vec<bool>,
    pub rest_lengths: Vec<u64>,
}

#[derive(Clone, Copy, Debug, PartialEq, Eq, Structural)]
pub enum TriangleMeshClothError {
    EmptyMesh,
    InvalidParticleMass,
    InvalidCompliance,
    InvalidParticlePosition,
    InvalidTriangleIndex,
    DegenerateTriangle,
    NonManifoldTopology,
    InconsistentTriangleWinding,
    Solver(ClothError),
}

/// XPBD distance constraint between two particles (rest length, compliance, and accumulated
/// multiplier as binary64 bit patterns).
#[derive(Clone, Copy, Debug, PartialEq, Eq, Structural)]
pub struct DistanceConstraint {
    pub particle_a: usize,
    pub particle_b: usize,
    pub rest_length: u64,
    pub compliance: u64,
    pub lambda: u64,
}

/// How an undirected mesh edge has been used so far: the direction of its first use and the
/// number of triangles that contain it.
#[derive(Clone, Copy, Debug, PartialEq, Eq, Structural)]
pub struct EdgeUse {
    pub start: usize,
    pub end: usize,
    pub count: u8,
}

/// Records that a triangle traverses the edge `start -> end`. An edge may be shared by at most two
/// triangles, and the second one must traverse it in the opposite direction.
pub open spec fn record_edge(uses: Map<(usize, usize), EdgeUse>, start: usize, end: usize) -> Result<
    Map<(usize, usize), EdgeUse>,
    TriangleMeshClothError,
> {
    let key = edge_key(start, end);
    if !uses.contains_key(key) {
        Ok(uses.insert(key, EdgeUse { start, end, count: 1 }))
    } else if uses[key].count >= 2 {
        Err(TriangleMeshClothError::NonManifoldTopology)
    } else if uses[key].start == start && uses[key].end == end {
        Err(TriangleMeshClothError::InconsistentTriangleWinding)
    } else {
        Ok(
            uses.insert(
                key,
                EdgeUse { start: uses[key].start, end: uses[key].end, count: (uses[key].count + 1) as u8 },
            ),
        )
    }
}

/// Checks one triangle: indices in range, three distinct corners, not flat, then its edges
/// `(a, b)`, `(b, c)`, `(c, a)` in that order.
pub open spec fn check_triangle(
    vertex_count: int,
    flat: bool,
    uses: Map<(usize, usize), EdgeUse>,
    t: [usize; 3],
) -> Result<Map<(usize, usize), EdgeUse>, TriangleMeshClothError> {
    if t[0] >= vertex_count || t[1] >= vertex_count || t[2] >= vertex_count {
        Err(TriangleMeshClothError::InvalidTriangleIndex)
    } else if t[0] == t[1] || t[1] == t[2] || t[0] == t[2] || flat {
        Err(TriangleMeshClothError::DegenerateTriangle)
    } else {
        match record_edge(uses, t[0], t[1]) {
            Err(e) => Err(e),
            Ok(u1) => match record_edge(u1, t[1], t[2]) {
                Err(e) => Err(e),
                Ok(u2) => record_edge(u2, t[2], t[0]),
            },
        }
    }
}

/// Checks the triangles in order; the first failing triangle decides the error.
pub open spec fn scan_triangles(
    vertex_count: int,
    flat: Seq<bool>,
    triangles: Seq<[usize; 3]>,
) -> Result<Map<(usize, usize), EdgeUse>, TriangleMeshClothError>
    decreases triangles.len(),
{
    if triangles.len() == 0 {
        Ok(Map::empty())
    } else {
        match scan_triangles(vertex_count, flat, triangles.drop_last()) {
            Err(e) => Err(e),
            Ok(uses) => check_triangle(
                vertex_count,
                flat[triangles.len() - 1],
                uses,
                triangles.last(),
            ),
        }
    }
}

/// A compliance that is finite and not below zero.
pub open spec fn compliance_is_valid(bits: u64) -> bool {
    is_finite_bits(bits) && !is_negative_bits(bits)
}

/// Validation of a triangle mesh and its solver configuration, in the order the checks apply.
pub open spec fn mesh_validation(
    positions: Seq<Vec3>,
    triangles: Seq<[usize; 3]>,
    config: TriangleMeshClothConfig,
    flat: Seq<bool>,
) -> Result<(), TriangleMeshClothError> {
    if positions.len() == 0 || triangles.len() == 0 {
        Err(TriangleMeshClothError::EmptyMesh)
    } else if !(is_finite_bits(config.particle_mass) && is_positive_bits(config.particle_mass)) {
        Err(TriangleMeshClothError::InvalidParticleMass)
    } else if !compliance_is_valid(config.stretch_compliance) || !compliance_is_valid(
        config.bending_compliance,
    ) {
        Err(TriangleMeshClothError::InvalidCompliance)
    } else if exists|i: int| 0 <= i < positions.len() && !(#[trigger] positions[i]).spec_is_finite() {
        Err(TriangleMeshClothError::InvalidParticlePosition)
    } else {
        match scan_triangles(positions.len() as int, flat, triangles) {
            Err(e) => Err(e),
            Ok(_) => Ok(()),
        }
    }
}

proof fn lemma_scan_error_persists(
    vertex_count: int,
    flat: Seq<bool>,
    triangles: Seq<[usize; 3]>,
    k: int,
)
    requires
        0 <= k <= triangles.len(),
        scan_triangles(vertex_count, flat, triangles.take(k)) is Err,
    ensures
        scan_triangles(vertex_count, flat, triangles) == scan_triangles(
            vertex_count,
            flat,
            triangles.take(k),
        ),
    decreases triangles.len() - k,
{
    if k < triangles.len() {
        let next = triangles.take(k + 1);
        assert(next.drop_last() =~= triangles.take(k));
        lemma_scan_error_persists(vertex_count, flat, triangles, k + 1);
    } else {
        assert(triangles.take(k) =~= triangles);
    }
}

/// Triangle `t` traverses the directed edge `start -> end` (its edges run `a -> b -> c -> a`).
pub open spec fn traverses(t: [usize; 3], start: usize, end: usize) -> bool {
    ||| (t[0] == start && t[1] == end)
    ||| (t[1] == start && t[2] == end)
    ||| (t[2] == start && t[0] == end)
}

/// Triangle `t` has the undirected edge between `start` and `end`, in either direction.
pub open spec fn touches(t: [usize; 3], start: usize, end: usize) -> bool {
    traverses(t, start, end) || traverses(t, end, start)
}

/// No two triangles traverse an edge in the same direction, and no three share an edge.
pub open spec fn edges_are_manifold(triangles: Seq<[usize; 3]>) -> bool {
    &&& forall|i: int, j: int, s: usize, e: usize|
        0 <= i < j < triangles.len() && #[trigger] traverses(triangles[i], s, e) ==> !(
        #[trigger] traverses(triangles[j], s, e))
    &&& forall|i: int, j: int, k: int, s: usize, e: usize|
        0 <= i < j < k < triangles.len() && #[trigger] traverses(triangles[i], s, e)
            && #[trigger] touches(triangles[j], s, e) ==> !(#[trigger] touches(triangles[k], s, e))
}

/// What the edge bookkeeping of a scan knows about the triangles scanned so far.
spec fn scan_facts(triangles: Seq<[usize; 3]>, uses: Map<(usize, usize), EdgeUse>) -> bool {
    &&& forall|i: int, s: usize, e: usize|
        0 <= i < triangles.len() && #[trigger] traverses(triangles[i], s, e) ==> uses.contains_key(
            edge_key(s, e),
        )
    &&& forall|k: (usize, usize)| #[trigger]
        uses.contains_key(k) ==> (uses[k].count == 1 || uses[k].count == 2)
    &&& forall|i: int, s: usize, e: usize|
        0 <= i < triangles.len() && #[trigger] traverses(triangles[i], s, e) && uses[edge_key(
            s,
            e,
        )].count == 1 ==> uses[edge_key(s, e)].start == s && uses[edge_key(s, e)].end == e
    &&& forall|i: int, j: int, s: usize, e: usize|
        0 <= i < j < triangles.len() && #[trigger] traverses(triangles[i], s, e)
            && #[trigger] touches(triangles[j], s, e) ==> uses[edge_key(s, e)].count == 2
    &&& edges_are_manifold(triangles)
}

proof fn lemma_check_triangle_effect(
    vertex_count: int,
    flat: bool,
    uses: Map<(usize, usize), EdgeUse>,
    t: [usize; 3],
)
    requires
        check_triangle(vertex_count, flat, uses, t) is Ok,
    ensures
        ({
            let after = check_triangle(vertex_count, flat, uses, t)->Ok_0;
            &&& t[0] != t[1] && t[1] != t[2] && t[0] != t[2]
            &&& forall|k: (usize, usize)|
                #[trigger] after.contains_key(k) <==> (uses.contains_key(k) || k == edge_key(
                    t[0],
                    t[1],
                ) || k == edge_key(t[1], t[2]) || k == edge_key(t[2], t[0]))
            &&& forall|k: (usize, usize)|
                uses.contains_key(k) && k != edge_key(t[0], t[1]) && k != edge_key(t[1], t[2]) && k
                    != edge_key(t[2], t[0]) ==> #[trigger] after[k] == uses[k]
            &&& forall|s: usize, e: usize|
                #[trigger] traverses(t, s, e) ==> if uses.contains_key(edge_key(s, e)) {
                    &&& uses[edge_key(s, e)].count < 2
                    &&& !(uses[edge_key(s, e)].start == s && uses[edge_key(s, e)].end == e)
                    &&& after[edge_key(s, e)].count == uses[edge_key(s, e)].count + 1
                } else {
                    after[edge_key(s, e)] == EdgeUse { start: s, end: e, count: 1 }
                }
        }),
{
    let (a, b, c) = (t[0], t[1], t[2]);
    let u1 = record_edge(uses, a, b)->Ok_0;
    let u2 = record_edge(u1, b, c)->Ok_0;
    let u3 = record_edge(u2, c, a)->Ok_0;
    assert(edge_key(a, b) != edge_key(b, c));
    assert(edge_key(b, c) != edge_key(c, a));
    assert(edge_key(a, b) != edge_key(c, a));
    assert(u3 == check_triangle(vertex_count, flat, uses, t)->Ok_0);
    assert forall|s: usize, e: usize| #[trigger] traverses(t, s, e) implies if uses.contains_key(
        edge_key(s, e),
    ) {
        &&& uses[edge_key(s, e)].count < 2
        &&& !(uses[edge_key(s, e)].start == s && uses[edge_key(s, e)].end == e)
        &&& u3[edge_key(s, e)].count == uses[edge_key(s, e)].count + 1
    } else {
        u3[edge_key(s, e)] == EdgeUse { start: s, end: e, count: 1 }
    } by {
        if s == a && e == b {
        } else if s == b && e == c {
        } else {
        }
    }
}

proof fn lemma_scan_facts(vertex_count: int, flat: Seq<bool>, triangles: Seq<[usize; 3]>)
    requires
        scan_triangles(vertex_count, flat, triangles) is Ok,
    ensures
        scan_facts(triangles, scan_triangles(vertex_count, flat, triangles)->Ok_0),
    decreases triangles.len(),
{
    if triangles.len() > 0 {
        let prefix = triangles.drop_last();
        let n = prefix.len() as int;
        lemma_scan_facts(vertex_count, flat, prefix);
        let uses = scan_triangles(vertex_count, flat, prefix)->Ok_0;
        let t = triangles.last();
        lemma_check_triangle_effect(vertex_count, flat[triangles.len() - 1], uses, t);
        let after = scan_triangles(vertex_count, flat, triangles)->Ok_0;
        assert(after == check_triangle(vertex_count, flat[triangles.len() - 1], uses, t)->Ok_0);
        assert forall|i: int| 0 <= i < n implies #[trigger] triangles[i] == prefix[i] by {}
        assert(triangles[n] == t);
        assert forall|i: int, s: usize, e: usize|
            0 <= i < triangles.len() && #[trigger] traverses(triangles[i], s, e) implies after.contains_key(
            edge_key(s, e),
        ) by {
            if i < n {
                assert(traverses(prefix[i], s, e));
            }
        }
    }
}

/// A mesh that construction accepts uses every edge at most twice, and two triangles that share an
/// edge traverse it in opposite directions: no two triangles traverse an edge the same way, and no
/// three triangles have a common edge.
pub proof fn lemma_accepted_mesh_edges_are_manifold(
    positions: Seq<Vec3>,
    triangles: Seq<[usize; 3]>,
    config: TriangleMeshClothConfig,
    flat: Seq<bool>,
)
    requires
        mesh_validation(positions, triangles, config, flat) is Ok,
    ensures
        edges_are_manifold(triangles),
{
    lemma_scan_facts(positions.len() as int, flat, triangles);
}

/// A successful scan accepts only valid triangles.
proof fn lemma_scan_ok_valid(vertex_count: int, flat: Seq<bool>, triangles: Seq<[usize; 3]>)
    requires
        scan_triangles(vertex_count, flat, triangles) is Ok,
    ensures
        forall|t: int|
            0 <= t < triangles.len() ==> triangle_is_valid(#[trigger] triangles[t], vertex_count),
    decreases triangles.len(),
{
    if triangles.len() > 0 {
        let prefix = triangles.drop_last();
        lemma_scan_ok_valid(vertex_count, flat, prefix);
        assert forall|t: int| 0 <= t < triangles.len() implies triangle_is_valid(
            #[trigger] triangles[t],
            vertex_count,
        ) by {
            if t < prefix.len() {
                assert(triangles[t] == prefix[t]);
            }
        }
    }
}

/// The particles a mesh starts from: at rest at their positions, all with one inverse mass.
pub open spec fn rest_particles(positions: Seq<Vec3>, inverse_mass: u64) -> Seq<Particle> {
    positions.map_values(
        |p: Vec3| Particle { position: p, previous_position: p, inverse_mass },
    )
}

/// The words hashed for one particle: position, previous position, inverse mass.
pub open spec fn particle_words(p: Particle) -> Seq<u64> {
    vec3_words(p.position) + vec3_words(p.previous_position) + seq![p.inverse_mass]
}

/// The words hashed for a sequence of particles, in order.
pub open spec fn particle_seq_words(particles: Seq<Particle>) -> Seq<u64>
    decreases particles.len(),
{
    if particles.len() == 0 {
        Seq::empty()
    } else {
        particle_seq_words(particles.drop_last()) + particle_words(particles.last())
    }
}

/// Deterministic fingerprint of a triangle-mesh cloth state: marker word, triangle count,
/// triangle indices, then every particle's position, previous position, and inverse mass.
pub open spec fn mesh_state_fingerprint(particles: Seq<Particle>, triangles: Seq<[usize; 3]>) -> u64 {
    fnv_words(
        FNV_OFFSET_BASIS,
        seq![TRIANGLE_MESH_FINGERPRINT_MARKER, triangles.len() as u64] + triangle_seq_words(
            triangles,
        ) + particle_seq_words(particles),
    )
}

/// Hashes `words` one at a time.
fn hash_words(hash: &mut u64, words: &[u64])
    ensures
        *final(hash) == fnv_words(*old(hash), words@),
{
    let ghost start = *hash;
    let mut i: usize = 0;
    assert(words@.take(0) =~= Seq::<u64>::empty());
    while i < words.len()
        invariant
            i <= words@.len(),
            *hash == fnv_words(start, words@.take(i as int)),
        decreases words.len() - i,
    {
        hash_u64(hash, words[i]);
        proof {
            let next = words@.take(i + 1);
            assert(next.drop_last() =~= words@.take(i as int));
        }
        i = i + 1;
    }
    assert(words@.take(words@.len() as int) =~= words@);
}

/// A cloth simulated over an arbitrary indexed triangle surface.
///
/// Structural stretch constraints come only from real mesh edges, one per distinct undirected
/// edge, in increasing `(min, max)` order. A plain mesh has no shear directions.
#[derive(Debug)]
pub struct TriangleMeshCloth {
    particles: Vec<Particle>,
    triangles: Vec<[usize; 3]>,
    stretch_constraints: Vec<DistanceConstraint>,
}

impl TriangleMeshCloth {
    #[verifier::type_invariant]
    spec fn well_formed(self) -> bool {
        &&& self.particles@.len() > 0
        &&& forall|t: int|
            0 <= t < self.triangles@.len() ==> triangle_is_valid(
                #[trigger] self.triangles@[t],
                self.particles@.len() as int,
            )
    }

    /// The particles.
    pub closed spec fn spec_particles(&self) -> Seq<Particle> {
        self.particles@
    }

    /// The triangle surface.
    pub closed spec fn spec_triangles(&self) -> Seq<[usize; 3]> {
        self.triangles@
    }

    /// The structural stretch constraints.
    pub closed spec fn spec_stretch_constraints(&self) -> Seq<DistanceConstraint> {
        self.stretch_constraints@
    }

    /// The distinct undirected edges of `triangles`, as `(min, max)` pairs in increasing order.
    pub fn structural_edges(triangles: &[[usize; 3]]) -> (edges: Vec<(usize, usize)>)
        ensures
            edges@.to_set() == edge_set(triangles@),
            edges@.no_duplicates(),
            edges@.len() == edge_set(triangles@).len(),
            strictly_increasing(edges@),
    {
        let set = mesh_edges(triangles);
        let edges = sorted_edges(&set);
        proof {
            edges@.unique_seq_to_set();
        }
        edges
    }

    /// Validates the mesh and configuration (first failing check wins).
    fn validate(
        positions: &[Vec3],
        triangles: &[[usize; 3]],
        config: TriangleMeshClothConfig,
        flat: &[bool],
    ) -> (result: Result<(), TriangleMeshClothError>)
        requires
            flat@.len() == triangles@.len(),
        ensures
            result == mesh_validation(positions@, triangles@, config, flat@),
    {
        if positions.len() == 0 || triangles.len() == 0 {
            return Err(TriangleMeshClothError::EmptyMesh);
        }
        if !(finite_bits(config.particle_mass) && positive_bits(config.particle_mass)) {
            return Err(TriangleMeshClothError::InvalidParticleMass);
        }
        if !(finite_bits(config.stretch_compliance) && !negative_bits(config.stretch_compliance))
            || !(finite_bits(config.bending_compliance) && !negative_bits(
            config.bending_compliance,
        )) {
            return Err(TriangleMeshClothError::InvalidCompliance);
        }
        let mut i: usize = 0;
        while i < positions.len()
            invariant
                positions@.len() > 0,
                triangles@.len() > 0,
                is_finite_bits(config.particle_mass) && is_positive_bits(config.particle_mass),
                compliance_is_valid(config.stretch_compliance),
                compliance_is_valid(config.bending_compliance),
                i <= positions@.len(),
                forall|j: int| 0 <= j < i ==> (#[trigger] positions@[j]).spec_is_finite(),
            decreases positions.len() - i,
        {
            if !positions[i].is_finite() {
                assert(!positions@[i as int].spec_is_finite());
                return Err(TriangleMeshClothError::InvalidParticlePosition);
            }
            i = i + 1;
        }
        let vertex_count = positions.len();
        let mut uses: BTreeMap<(usize, usize), EdgeUse> = BTreeMap::new();
        let mut t: usize = 0;
        assert(triangles@.take(0) =~= Seq::<[usize; 3]>::empty());
        while t < triangles.len()
            invariant
                positions@.len() > 0,
                triangles@.len() > 0,
                is_finite_bits(config.particle_mass) && is_positive_bits(config.particle_mass),
                compliance_is_valid(config.stretch_compliance),
                compliance_is_valid(config.bending_compliance),
                forall|j: int| 0 <= j < positions@.len() ==> (#[trigger] positions@[j]).spec_is_finite(),
                t <= triangles@.len(),
                flat@.len() == triangles@.len(),
                vertex_count == positions@.len(),
                scan_triangles(vertex_count as int, flat@, triangles@.take(t as int)) == Ok::<
                    Map<(usize, usize), EdgeUse>,
                    TriangleMeshClothError,
                >(uses@),
            decreases triangles.len() - t,
        {
            let triangle = triangles[t];
            let ghost before = uses@;
            proof {
                let next = triangles@.take(t + 1);
                assert(next.drop_last() =~= triangles@.take(t as int));
                assert(next.last() == triangle);
            }
            let checked = Self::check_triangle_exec(vertex_count, flat[t], &mut uses, triangle);
            if let Err(e) = checked {
                proof {
                    let next = triangles@.take(t + 1);
                    assert(scan_triangles(vertex_count as int, flat@, next) == check_triangle(
                        vertex_count as int,
                        flat@[t as int],
                        before,
                        triangle,
                    ));
                    lemma_scan_error_persists(vertex_count as int, flat@, triangles@, t + 1);
                }
                return Err(e);
            }
            t = t + 1;
        }
        assert(triangles@.take(t as int) =~= triangles@);
        Ok(())
    }

    fn record_edge_exec(
        uses: &mut BTreeMap<(usize, usize), EdgeUse>,
        start: usize,
        end: usize,
    ) -> (result: Result<(), TriangleMeshClothError>)
        ensures
            result matches Ok(_) ==> record_edge(old(uses)@, start, end) == Ok::<
                Map<(usize, usize), EdgeUse>,
                TriangleMeshClothError,
            >(final(uses)@),
            result matches Err(e) ==> record_edge(old(uses)@, start, end) == Err::<
                Map<(usize, usize), EdgeUse>,
                TriangleMeshClothError,
            >(e),
    {
        let key = ordered_pair(start, end);
        let existing = match uses.get(&key) {
            None => None,
            Some(edge_use) => Some(*edge_use),
        };
        match existing {
            None => {
                uses.insert(key, EdgeUse { start, end, count: 1 });
                Ok(())
            },
            Some(edge_use) => {
                if edge_use.count >= 2 {
                    return Err(TriangleMeshClothError::NonManifoldTopology);
                }
                if edge_use.start == start && edge_use.end == end {
                    return Err(TriangleMeshClothError::InconsistentTriangleWinding);
                }
                uses.insert(
                    key,
                    EdgeUse { start: edge_use.start, end: edge_use.end, count: edge_use.count + 1 },
                );
                Ok(())
            },
        }
    }

    fn check_triangle_exec(
        vertex_count: usize,
        flat: bool,
        uses: &mut BTreeMap<(usize, usize), EdgeUse>,
        t: [usize; 3],
    ) -> (result: Result<(), TriangleMeshClothError>)
        ensures
            result matches Ok(_) ==> check_triangle(vertex_count as int, flat, old(uses)@, t)
                == Ok::<Map<(usize, usize), EdgeUse>, TriangleMeshClothError>(final(uses)@),
            result matches Err(e) ==> check_triangle(vertex_count as int, flat, old(uses)@, t)
                == Err::<Map<(usize, usize), EdgeUse>, TriangleMeshClothError>(e),
    {
        if t[0] >= vertex_count || t[1] >= vertex_count || t[2] >= vertex_count {
            return Err(TriangleMeshClothError::InvalidTriangleIndex);
        }
        if t[0] == t[1] || t[1] == t[2] || t[0] == t[2] || flat {
            return Err(TriangleMeshClothError::DegenerateTriangle);
        }
        Self::record_edge_exec(uses, t[0], t[1])?;
        Self::record_edge_exec(uses, t[1], t[2])?;
        Self::record_edge_exec(uses, t[2], t[0])
    }

    /// Builds a cloth over an indexed triangle surface.
    ///
    /// Fails, with the first failing check, when the mesh is empty, the particle mass is not
    /// finite and positive, a compliance is not finite and non-negative, a position is not finite,
    /// a triangle index is out of range, a triangle repeats a corner or is flat, an edge is shared
    /// by more than two triangles, or two triangles traverse a shared edge in the same direction.
    pub fn new(
        positions: &[Vec3],
        triangles: &[[usize; 3]],
        config: TriangleMeshClothConfig,
        measures: &TriangleMeshMeasures,
    ) -> (cloth: Result<Self, TriangleMeshClothError>)
        requires
            measures.flat_triangles@.len() == triangles@.len(),
            measures.rest_lengths@.len() == edge_set(triangles@).len(),
        ensures
            cloth is Ok <==> mesh_validation(
                positions@,
                triangles@,
                config,
                measures.flat_triangles@,
            ) is Ok,
            cloth matches Err(e) ==> mesh_validation(
                positions@,
                triangles@,
                config,
                measures.flat_triangles@,
            ) == Err::<(), TriangleMeshClothError>(e),
            cloth matches Ok(c) ==> {
                &&& c.spec_particles() == rest_particles(positions@, measures.inverse_mass)
                &&& c.spec_triangles() == triangles@
                &&& c.spec_stretch_constraints().len() == edge_set(triangles@).len()
                &&& strictly_increasing(
                    c.spec_stretch_constraints().map_values(
                        |k: DistanceConstraint| (k.particle_a, k.particle_b),
                    ),
                )
                &&& c.spec_stretch_constraints().map_values(
                    |k: DistanceConstraint| (k.particle_a, k.particle_b),
                ).to_set() == edge_set(triangles@)
                &&& forall|k: int|
                    0 <= k < c.spec_stretch_constraints().len() ==> {
                        &&& (#[trigger] c.spec_stretch_constraints()[k]).rest_length
                            == measures.rest_lengths@[k]
                        &&& c.spec_stretch_constraints()[k].compliance == config.stretch_compliance
                        &&& c.spec_stretch_constraints()[k].lambda == 0
                    }
            },
    {
        Self::validate(positions, triangles, config, measures.flat_triangles.as_slice())?;
        proof {
            lemma_scan_ok_valid(positions@.len() as int, measures.flat_triangles@, triangles@);
        }
        let mut particles: Vec<Particle> = Vec::new();
        let mut i: usize = 0;
        while i < positions.len()
            invariant
                i <= positions@.len(),
                particles@ == rest_particles(positions@.take(i as int), measures.inverse_mass),
            decreases positions.len() - i,
        {
            let position = positions[i];
            particles.push(
                Particle {
                    position,
                    previous_position: position,
                    inverse_mass: measures.inverse_mass,
                },
            );
            assert(particles@ =~= rest_particles(positions@.take(i + 1), measures.inverse_mass));
            i = i + 1;
        }
        assert(positions@.take(i as int) =~= positions@);
        let edges = Self::structural_edges(triangles);
        proof {
            edges@.unique_seq_to_set();
        }
        let mut stretch_constraints: Vec<DistanceConstraint> = Vec::new();
        let mut k: usize = 0;
        while k < edges.len()
            invariant
                k <= edges@.len(),
                edges@.len() == measures.rest_lengths@.len(),
                stretch_constraints@.len() == k,
                forall|q: int|
                    0 <= q < k ==> {
                        &&& (#[trigger] stretch_constraints@[q]).particle_a == edges@[q].0
                        &&& stretch_constraints@[q].particle_b == edges@[q].1
                        &&& stretch_constraints@[q].rest_length == measures.rest_lengths@[q]
                        &&& stretch_constraints@[q].compliance == config.stretch_compliance
                        &&& stretch_constraints@[q].lambda == 0
                    },
            decreases edges@.len() - k,
        {
            let (particle_a, particle_b) = edges[k];
            stretch_constraints.push(
                DistanceConstraint {
                    particle_a,
                    particle_b,
                    rest_length: measures.rest_lengths[k],
                    compliance: config.stretch_compliance,
                    lambda: 0,
                },
            );
            k = k + 1;
        }
        let mut triangles_vec: Vec<[usize; 3]> = Vec::new();
        let mut t: usize = 0;
        while t < triangles.len()
            invariant
                t <= triangles@.len(),
                triangles_vec@ == triangles@.take(t as int),
            decreases triangles.len() - t,
        {
            triangles_vec.push(triangles[t]);
            assert(triangles_vec@ =~= triangles@.take(t + 1));
            t = t + 1;
        }
        assert(triangles_vec@ =~= triangles@);
        assert(particles@.len() == positions@.len());
        assert(positions@.len() > 0);
        let cloth = TriangleMeshCloth {
            particles,
            triangles: triangles_vec,
            stretch_constraints,
        };
        proof {
            let endpoints = cloth.stretch_constraints@.map_values(
                |c: DistanceConstraint| (c.particle_a, c.particle_b),
            );
            assert(endpoints =~= edges@);
        }
        Ok(cloth)
    }

    /// The particles.
    pub fn particles(&self) -> (particles: &[Particle])
        ensures
            particles@ == self.spec_particles(),
    {
        self.particles.as_slice()
    }

    /// The triangle surface.
    pub fn triangles(&self) -> (triangles: &[[usize; 3]])
        ensures
            triangles@ == self.spec_triangles(),
            forall|t: int|
                0 <= t < triangles@.len() ==> triangle_is_valid(
                    #[trigger] triangles@[t],
                    self.spec_particles().len() as int,
                ),
    {
        proof {
            use_type_invariant(self);
        }
        self.triangles.as_slice()
    }

    /// The structural stretch constraints.
    pub fn stretch_constraints(&self) -> (constraints: &[DistanceConstraint])
        ensures
            constraints@ == self.spec_stretch_constraints(),
    {
        self.stretch_constraints.as_slice()
    }

    /// A plain triangle mesh has no shear constraints.
    pub fn shear_constraints(&self) -> (constraints: &[DistanceConstraint])
        ensures
            constraints@.len() == 0,
    {
        &[]
    }

    /// Pins a particle: zero inverse mass, and its previous position reset to its position.
    pub fn pin(&mut self, particle_index: usize) -> (result: Result<(), ClothError>)
        ensures
            result is Err <==> particle_index >= old(self).spec_particles().len(),
            result matches Err(e) ==> e == ClothError::InvalidParticleIndex,
            result is Err ==> *final(self) == *old(self),
            result is Ok ==> final(self).spec_particles() == old(self).spec_particles().update(
                particle_index as int,
                Particle {
                    position: old(self).spec_particles()[particle_index as int].position,
                    previous_position: old(self).spec_particles()[particle_index as int].position,
                    inverse_mass: 0,
                },
            ),
            final(self).spec_triangles() == old(self).spec_triangles(),
            final(self).spec_stretch_constraints() == old(self).spec_stretch_constraints(),
    {
        proof {
            use_type_invariant(&*self);
        }
        if particle_index >= self.particles.len() {
            return Err(ClothError::InvalidParticleIndex);
        }
        let position = self.particles[particle_index].position;
        self.replace_particle(
            particle_index,
            Particle { position, previous_position: position, inverse_mass: 0 },
        );
        Ok(())
    }

    /// Replaces one particle, leaving everything else unchanged.
    pub(crate) fn replace_particle(&mut self, index: usize, particle: Particle)
        requires
            index < old(self).spec_particles().len(),
        ensures
            final(self).spec_particles() == old(self).spec_particles().update(index as int, particle),
            final(self).spec_triangles() == old(self).spec_triangles(),
            final(self).spec_stretch_constraints() == old(self).spec_stretch_constraints(),
    {
        proof {
            use_type_invariant(&*self);
        }
        let placeholder = Particle {
            position: Vec3 { x: 0, y: 0, z: 0 },
            previous_position: Vec3 { x: 0, y: 0, z: 0 },
            inverse_mass: 0,
        };
        let mut current = TriangleMeshCloth {
            particles: vec![placeholder],
            triangles: Vec::new(),
            stretch_constraints: Vec::new(),
        };
        std::mem::swap(&mut current, self);
        let TriangleMeshCloth { mut particles, triangles, stretch_constraints } = current;
        particles.set(index, particle);
        *self = TriangleMeshCloth { particles, triangles, stretch_constraints };
    }

    /// Deterministic fingerprint of the simulation state.
    pub fn state_fingerprint(&self) -> (hash: u64)
        ensures
            hash == mesh_state_fingerprint(self.spec_particles(), self.spec_triangles()),
    {
        let mut hash = FNV_OFFSET_BASIS;
        hash_u64(&mut hash, TRIANGLE_MESH_FINGERPRINT_MARKER);
        hash_u64(&mut hash, self.triangles.len() as u64);
        hash_triangles(&mut hash, self.triangles.as_slice());
        let ghost after_triangles = hash;
        let mut i: usize = 0;
        assert(self.particles@.take(0) =~= Seq::<Particle>::empty());
        while i < self.particles.len()
            invariant
                i <= self.particles@.len(),
                hash == fnv_words(after_triangles, particle_seq_words(self.particles@.take(i as int))),
            decreases self.particles.len() - i,
        {
            let particle = self.particles[i];
            let words = [
                particle.position.x,
                particle.position.y,
                particle.position.z,
                particle.previous_position.x,
                particle.previous_position.y,
                particle.previous_position.z,
                particle.inverse_mass,
            ];
            let ghost before = particle_seq_words(self.particles@.take(i as int));
            hash_words(&mut hash, &words);
            proof {
                let next = self.particles@.take(i + 1);
                assert(next.drop_last() =~= self.particles@.take(i as int));
                assert(words@ =~= particle_words(particle));
                lemma_fnv_words_append(after_triangles, before, particle_words(particle));
            }
            i = i + 1;
        }
        proof {
            assert(self.particles@.take(i as int) =~= self.particles@);
            let head = seq![TRIANGLE_MESH_FINGERPRINT_MARKER, self.triangles@.len() as u64];
            let tw = triangle_seq_words(self.triangles@);
            let pw = particle_seq_words(self.particles@);
            assert(fnv_words(FNV_OFFSET_BASIS, head) == fnv_word(
                fnv_word(FNV_OFFSET_BASIS, TRIANGLE_MESH_FINGERPRINT_MARKER),
                self.triangles@.len() as u64,
            )) by {
                lemma_fnv_words_append(
                    FNV_OFFSET_BASIS,
                    seq![TRIANGLE_MESH_FINGERPRINT_MARKER],
                    seq![self.triangles@.len() as u64],
                );
                assert(seq![TRIANGLE_MESH_FINGERPRINT_MARKER] + seq![self.triangles@.len() as u64]
                    =~= head);
                lemma_fnv_words_single(FNV_OFFSET_BASIS, TRIANGLE_MESH_FINGERPRINT_MARKER);
                lemma_fnv_words_single(
                    fnv_word(FNV_OFFSET_BASIS, TRIANGLE_MESH_FINGERPRINT_MARKER),
                    self.triangles@.len() as u64,
                );
            }
            lemma_fnv_words_append(FNV_OFFSET_BASIS, head, tw);
            lemma_fnv_words_append(FNV_OFFSET_BASIS, head + tw, pw);
        }
        hash
    }
}

fn same_particles(first: &[Particle], second: &[Particle]) -> (same: bool)
    ensures
        same == (first@ == second@),
{
    if first.len() != second.len() {
        return false;
    }
    let mut i: usize = 0;
    while i < first.len()
        invariant
            i <= first@.len(),
            first@.len() == second@.len(),
            forall|k: int| 0 <= k < i ==> first@[k] == second@[k],
        decreases first.len() - i,
    {
        if first[i] != second[i] {
            return false;
        }
        i = i + 1;
    }
    assert(first@ =~= second@);
    true
}

fn same_constraints(first: &[DistanceConstraint], second: &[DistanceConstraint]) -> (same: bool)
    ensures
        same == (first@ == second@),
{
    if first.len() != second.len() {
        return false;
    }
    let mut i: usize = 0;
    while i < first.len()
        invariant
            i <= first@.len(),
            first@.len() == second@.len(),
            forall|k: int| 0 <= k < i ==> first@[k] == second@[k],
        decreases first.len() - i,
    {
        if first[i] != second[i] {
            return false;
        }
        i = i + 1;
    }
    assert(first@ =~= second@);
    true
}

impl Clone for TriangleMeshCloth {
    /// A copy with the same particles, triangles, and stretch constraints.
    fn clone(&self) -> (copy: Self)
        ensures
            copy.spec_particles() == self.spec_particles(),
            copy.spec_triangles() == self.spec_triangles(),
            copy.spec_stretch_constraints() == self.spec_stretch_constraints(),
    {
        proof {
            use_type_invariant(self);
        }
        TriangleMeshCloth {
            particles: copy_items(self.particles.as_slice()),
            triangles: copy_items(self.triangles.as_slice()),
            stretch_constraints: copy_items(self.stretch_constraints.as_slice()),
        }
    }
}

impl PartialEq for TriangleMeshCloth {
    fn eq(&self, other: &Self) -> (equal: bool) {
        same_particles(self.particles.as_slice(), other.particles.as_slice()) && same_triangles(
            self.triangles.as_slice(),
            other.triangles.as_slice(),
        ) && same_constraints(
            self.stretch_constraints.as_slice(),
            other.stretch_constraints.as_slice(),
        )
    }
}

impl vstd::std_specs::cmp::PartialEqSpecImpl for TriangleMeshCloth {
    open spec fn obeys_eq_spec() -> bool {
        true
    }

    open spec fn eq_spec(&self, other: &Self) -> bool {
        &&& self.spec_particles() == other.spec_particles()
        &&& self.spec_triangles() == other.spec_triangles()
        &&& self.spec_stretch_constraints() == other.spec_stretch_constraints()
    }
}

} // verus!
