use std::collections::BTreeSet;

use vstd::prelude::*;

use crate::math::{finite_bits, is_finite_bits, is_negative_bits, is_positive_bits, negative_bits,
    positive_bits, Vec3};
use crate::topology::{edge_key, edge_set, mesh_edges, ordered_pair};

verus! {

broadcast use {vstd::laws_cmp::group_laws_cmp, vstd::std_specs::btree::group_btree_axioms};

/// Self-collision parameters: the cloth thickness (binary64 bit pattern).
#[derive(Clone, Copy, Debug, PartialEq, Eq, Structural)]
pub struct SelfCollisionConfig {
    pub thickness: u64,
}

#[derive(Clone, Copy, Debug, PartialEq, Eq, Structural)]
pub enum SelfCollisionError {
    InvalidThickness,
    InvalidParticlePosition,
    InvalidInverseMass,
    InvalidTriangleIndex,
    DuplicateTriangleVertex,
    TopologyTooLarge,
    BroadPhaseRangeExceeded,
}

impl SelfCollisionConfig {
    /// The thickness is finite and strictly positive.
    pub open spec fn spec_is_valid(self) -> bool {
        is_finite_bits(self.thickness) && is_positive_bits(self.thickness)
    }

    /// Rejects a thickness that is not finite and strictly positive.
    pub fn validate(self) -> (result: Result<(), SelfCollisionError>)
        ensures
            result is Ok <==> self.spec_is_valid(),
            result matches Err(e) ==> e == SelfCollisionError::InvalidThickness,
    {
        if !finite_bits(self.thickness) || !positive_bits(self.thickness) {
            return Err(SelfCollisionError::InvalidThickness);
        }
        Ok(())
    }
}

/// A free particle taking part in self-collision (binary64 bit patterns).
#[derive(Clone, Copy, Debug, PartialEq, Eq, Structural)]
pub struct SelfCollisionParticle {
    pub position: Vec3,
    pub inverse_mass: u64,
}

/// Counters of one self-collision pass.
#[derive(Clone, Copy, Debug, Default, PartialEq, Eq, Structural)]
pub struct SelfCollisionReport {
    pub broad_phase_pairs: usize,
    pub vertex_triangle_candidates: usize,
    pub adjacency_exclusions: usize,
    pub narrow_phase_tests: usize,
    pub projections: usize,
}

/// Componentwise sum of two reports.
pub open spec fn report_sum(a: SelfCollisionReport, b: SelfCollisionReport) -> SelfCollisionReport {
    SelfCollisionReport {
        broad_phase_pairs: (a.broad_phase_pairs + b.broad_phase_pairs) as usize,
        vertex_triangle_candidates: (a.vertex_triangle_candidates + b.vertex_triangle_candidates) as usize,
        adjacency_exclusions: (a.adjacency_exclusions + b.adjacency_exclusions) as usize,
        narrow_phase_tests: (a.narrow_phase_tests + b.narrow_phase_tests) as usize,
        projections: (a.projections + b.projections) as usize,
    }
}

/// Every counter of the sum of two reports fits in `usize`.
pub open spec fn report_sum_fits(a: SelfCollisionReport, b: SelfCollisionReport) -> bool {
    &&& a.broad_phase_pairs + b.broad_phase_pairs <= usize::MAX
    &&& a.vertex_triangle_candidates + b.vertex_triangle_candidates <= usize::MAX
    &&& a.adjacency_exclusions + b.adjacency_exclusions <= usize::MAX
    &&& a.narrow_phase_tests + b.narrow_phase_tests <= usize::MAX
    &&& a.projections + b.projections <= usize::MAX
}

impl SelfCollisionReport {
    /// Adds another pass's counters to these.
    pub fn accumulate(&mut self, other: Self)
        requires
            report_sum_fits(*old(self), other),
        ensures
            *final(self) == report_sum(*old(self), other),
    {
        self.broad_phase_pairs = self.broad_phase_pairs + other.broad_phase_pairs;
        self.vertex_triangle_candidates = self.vertex_triangle_candidates
            + other.vertex_triangle_candidates;
        self.adjacency_exclusions = self.adjacency_exclusions + other.adjacency_exclusions;
        self.narrow_phase_tests = self.narrow_phase_tests + other.narrow_phase_tests;
        self.projections = self.projections + other.projections;
    }
}

/// Accumulating reports does not depend on the order in which passes are added.
pub proof fn lemma_report_sum_commutes(a: SelfCollisionReport, b: SelfCollisionReport)
    ensures
        report_sum(a, b) == report_sum(b, a),
{
}

/// Accumulating reports does not depend on how passes are grouped.
pub proof fn lemma_report_sum_associates(
    a: SelfCollisionReport,
    b: SelfCollisionReport,
    c: SelfCollisionReport,
)
    requires
        report_sum_fits(a, b),
        report_sum_fits(b, c),
        report_sum_fits(report_sum(a, b), c),
    ensures
        report_sum(report_sum(a, b), c) == report_sum(a, report_sum(b, c)),
{
}

/// Broad-phase body IDs: particle `i` is body `i`; triangle `t` is body `particle_count + t`.
/// A pair names a vertex/triangle candidate when exactly one side is a particle and the other is
/// an existing triangle; the result is `(particle, triangle)` whichever order the pair has.
pub open spec fn vertex_triangle_pair(
    first: int,
    second: int,
    particle_count: int,
    triangle_count: int,
) -> Option<(int, int)> {
    let triangle_end = particle_count + triangle_count;
    if first < particle_count && !(second < particle_count) && second < triangle_end {
        Some((first, second - particle_count))
    } else if !(first < particle_count) && second < particle_count && first < triangle_end {
        Some((second, first - particle_count))
    } else {
        None
    }
}

/// Decodes a broad-phase pair into `(particle, triangle)`, if it is a vertex/triangle pair.
pub fn decode_vertex_triangle_pair(
    first: usize,
    second: usize,
    particle_count: usize,
    triangle_count: usize,
) -> (pair: Option<(usize, usize)>)
    requires
        particle_count + triangle_count <= usize::MAX,
    ensures
        pair is Some <==> vertex_triangle_pair(
            first as int,
            second as int,
            particle_count as int,
            triangle_count as int,
        ) is Some,
        pair matches Some((p, t)) ==> vertex_triangle_pair(
            first as int,
            second as int,
            particle_count as int,
            triangle_count as int,
        ) == Some((p as int, t as int)),
{
    let triangle_end = particle_count + triangle_count;
    if first < particle_count && !(second < particle_count) && second < triangle_end {
        Some((first, second - particle_count))
    } else if !(first < particle_count) && second < particle_count && first < triangle_end {
        Some((second, first - particle_count))
    } else {
        None
    }
}

/// Decoding inverts the body numbering: the pair of particle `p` and triangle `t` decodes to
/// `(p, t)` in either order, and a pair decodes to `(p, t)` only if its bodies are particle `p`
/// and triangle body `particle_count + t` of an existing triangle. Two particles, two triangles,
/// or an id past the last triangle decode to nothing.
pub proof fn lemma_vertex_triangle_pair_inverts_numbering(
    first: int,
    second: int,
    particle_count: int,
    triangle_count: int,
)
    requires
        0 <= first,
        0 <= second,
        0 <= particle_count,
        0 <= triangle_count,
    ensures
        forall|p: int, t: int|
            0 <= p < particle_count && 0 <= t < triangle_count ==> #[trigger] vertex_triangle_pair(
                p,
                particle_count + t,
                particle_count,
                triangle_count,
            ) == Some((p, t)) && vertex_triangle_pair(
                particle_count + t,
                p,
                particle_count,
                triangle_count,
            ) == Some((p, t)),
        vertex_triangle_pair(first, second, particle_count, triangle_count) matches Some((p, t))
            ==> {
            &&& 0 <= p < particle_count
            &&& 0 <= t < triangle_count
            &&& ((first == p && second == particle_count + t) || (second == p && first
                == particle_count + t))
        },
        (first < particle_count && second < particle_count) ==> vertex_triangle_pair(
            first,
            second,
            particle_count,
            triangle_count,
        ) is None,
        (first >= particle_count + triangle_count || second >= particle_count + triangle_count)
            ==> vertex_triangle_pair(first, second, particle_count, triangle_count) is None,
{
}

/// A pair decodes the same whichever body comes first.
pub proof fn lemma_vertex_triangle_pair_symmetric(
    first: int,
    second: int,
    particle_count: int,
    triangle_count: int,
)
    ensures
        vertex_triangle_pair(first, second, particle_count, triangle_count)
            == vertex_triangle_pair(second, first, particle_count, triangle_count),
{
}

/// A particle is adjacent to a triangle when it is one of the corners, or when it shares a mesh
/// edge with one of the corners.
pub open spec fn is_adjacent(particle: usize, triangle: [usize; 3], edges: Set<(usize, usize)>) -> bool {
    ||| particle == triangle[0]
    ||| particle == triangle[1]
    ||| particle == triangle[2]
    ||| edges.contains(edge_key(particle, triangle[0]))
    ||| edges.contains(edge_key(particle, triangle[1]))
    ||| edges.contains(edge_key(particle, triangle[2]))
}

/// A particle is excluded from a triangle exactly when, for some corner, it is that corner or a
/// mesh edge joins it to that corner; no corner is treated differently from another, so listing
/// the corners in another order (rotated or swapped) excludes the same particles.
pub proof fn lemma_adjacency_is_per_corner(
    particle: usize,
    triangle: [usize; 3],
    edges: Set<(usize, usize)>,
)
    ensures
        forall|i: int|
            0 <= i < 3 ==> (particle == triangle[i] || edges.contains(
                edge_key(particle, #[trigger] triangle[i]),
            )) ==> is_adjacent(particle, triangle, edges),
        is_adjacent(particle, triangle, edges) ==> exists|i: int|
            0 <= i < 3 && (particle == triangle[i] || edges.contains(
                edge_key(particle, #[trigger] triangle[i]),
            )),
        is_adjacent(particle, triangle, edges) == is_adjacent(
            particle,
            [triangle[1], triangle[2], triangle[0]],
            edges,
        ),
        is_adjacent(particle, triangle, edges) == is_adjacent(
            particle,
            [triangle[1], triangle[0], triangle[2]],
            edges,
        ),
{
    if is_adjacent(particle, triangle, edges) {
        let w: int = if particle == triangle[0] || edges.contains(edge_key(particle, triangle[0])) {
            0
        } else if particle == triangle[1] || edges.contains(edge_key(particle, triangle[1])) {
            1
        } else {
            2
        };
        assert(0 <= w < 3 && (particle == triangle[w] || edges.contains(
            edge_key(particle, triangle[w]),
        )));
    }
}

/// Static exclusion topology for self-collision: the mesh edges of the cloth surface.
#[derive(Clone, Debug)]
pub struct SelfCollisionTopology {
    mesh_edges: BTreeSet<(usize, usize)>,
}

impl SelfCollisionTopology {
    /// The mesh edges this topology excludes around.
    pub closed spec fn spec_edges(&self) -> Set<(usize, usize)> {
        self.mesh_edges@
    }

    /// Collects the mesh edges of `triangles`.
    pub fn new(triangles: &[[usize; 3]]) -> (topology: Self)
        ensures
            topology.spec_edges() == edge_set(triangles@),
    {
        SelfCollisionTopology { mesh_edges: mesh_edges(triangles) }
    }

    /// Whether `particle` is a corner of `triangle` or shares a mesh edge with one of its corners.
    pub fn is_adjacent_feature(&self, particle: usize, triangle: [usize; 3]) -> (adjacent: bool)
        ensures
            adjacent == is_adjacent(particle, triangle, self.spec_edges()),
    {
        particle == triangle[0] || particle == triangle[1] || particle == triangle[2]
            || self.mesh_edges.contains(&ordered_pair(particle, triangle[0]))
            || self.mesh_edges.contains(&ordered_pair(particle, triangle[1]))
            || self.mesh_edges.contains(&ordered_pair(particle, triangle[2]))
    }
}

/// The candidate pass over broad-phase pairs: decoded vertex/triangle candidates, the ones
/// excluded as adjacent features, and the ones left for the narrow phase, in pair order.
pub open spec fn classify_pairs(
    pairs: Seq<(u32, u32)>,
    particle_count: int,
    triangles: Seq<[usize; 3]>,
    edges: Set<(usize, usize)>,
) -> (nat, nat, Seq<(usize, usize)>)
    decreases pairs.len(),
{
    if pairs.len() == 0 {
        (0, 0, Seq::empty())
    } else {
        let (candidates, exclusions, tests) = classify_pairs(
            pairs.drop_last(),
            particle_count,
            triangles,
            edges,
        );
        let pair = pairs.last();
        match vertex_triangle_pair(pair.0 as int, pair.1 as int, particle_count, triangles.len() as int) {
            None => (candidates, exclusions, tests),
            Some((p, t)) => {
                if is_adjacent(p as usize, triangles[t], edges) {
                    (candidates + 1, exclusions + 1, tests)
                } else {
                    (candidates + 1, exclusions, tests.push((p as usize, t as usize)))
                }
            },
        }
    }
}

/// The candidate pass never hands a local feature to the narrow phase: every decoded candidate is
/// either excluded or tested, and every tested candidate names an existing particle and triangle,
/// the particle being neither a corner of the triangle nor joined to one by a mesh edge.
pub proof fn lemma_candidates_are_never_adjacent(
    pairs: Seq<(u32, u32)>,
    particle_count: int,
    triangles: Seq<[usize; 3]>,
    edges: Set<(usize, usize)>,
)
    requires
        0 <= particle_count,
        particle_count + triangles.len() <= usize::MAX,
    ensures
        ({
            let (candidates, exclusions, tests) = classify_pairs(
                pairs,
                particle_count,
                triangles,
                edges,
            );
            &&& candidates == exclusions + tests.len()
            &&& forall|k: int|
                0 <= k < tests.len() ==> {
                    &&& (#[trigger] tests[k]).0 < particle_count
                    &&& tests[k].1 < triangles.len()
                    &&& !is_adjacent(tests[k].0, triangles[tests[k].1 as int], edges)
                }
        }),
    decreases pairs.len(),
{
    if pairs.len() > 0 {
        lemma_candidates_are_never_adjacent(pairs.drop_last(), particle_count, triangles, edges);
    }
}

/// No candidate handed to the narrow phase is local to its triangle: its particle is none of the
/// triangle's three corners, and no mesh edge joins it to any of them, whichever corner it is.
pub proof fn lemma_tested_candidates_share_no_corner_edge(
    pairs: Seq<(u32, u32)>,
    particle_count: int,
    triangles: Seq<[usize; 3]>,
    edges: Set<(usize, usize)>,
)
    requires
        0 <= particle_count,
        particle_count + triangles.len() <= usize::MAX,
    ensures
        forall|k: int, i: int|
            0 <= k < classify_pairs(pairs, particle_count, triangles, edges).2.len() && 0 <= i < 3
                ==> classify_pairs(pairs, particle_count, triangles, edges).2[k].0
                != #[trigger] triangles[classify_pairs(
                pairs,
                particle_count,
                triangles,
                edges,
            ).2[k].1 as int][i] && !edges.contains(
                edge_key(
                    classify_pairs(pairs, particle_count, triangles, edges).2[k].0,
                    triangles[classify_pairs(pairs, particle_count, triangles, edges).2[k].1 as int][i],
                ),
            ),
{
    lemma_candidates_are_never_adjacent(pairs, particle_count, triangles, edges);
    let tests = classify_pairs(pairs, particle_count, triangles, edges).2;
    assert forall|k: int, i: int|
        0 <= k < tests.len() && 0 <= i < 3 implies tests[k].0
        != #[trigger] triangles[tests[k].1 as int][i] && !edges.contains(
        edge_key(tests[k].0, triangles[tests[k].1 as int][i]),
    ) by {
        lemma_adjacency_is_per_corner(tests[k].0, triangles[tests[k].1 as int], edges);
    }
}

impl SelfCollisionTopology {
    /// Runs the candidate pass of vertex/triangle self-collision over broad-phase `pairs` of the
    /// bodies of `particle_count` particles and `triangles`: every pair is decoded, adjacent
    /// features are excluded, and the remaining `(particle, triangle)` candidates are returned in
    /// pair order for the narrow phase. The report counts pairs, candidates, exclusions, and
    /// narrow-phase tests; its `projections` is zero, since projection happens in the narrow phase.
    pub fn narrow_phase_candidates(
        &self,
        pairs: &[(u32, u32)],
        particle_count: usize,
        triangles: &[[usize; 3]],
    ) -> (result: (SelfCollisionReport, Vec<(usize, usize)>))
        requires
            particle_count + triangles@.len() <= usize::MAX,
        ensures
            ({
                let (candidates, exclusions, tests) = classify_pairs(
                    pairs@,
                    particle_count as int,
                    triangles@,
                    self.spec_edges(),
                );
                &&& result.0.broad_phase_pairs == pairs@.len()
                &&& result.0.vertex_triangle_candidates == candidates
                &&& result.0.adjacency_exclusions == exclusions
                &&& result.0.narrow_phase_tests == tests.len()
                &&& result.0.projections == 0
                &&& result.1@ == tests
            }),
    {
        let mut report = SelfCollisionReport {
            broad_phase_pairs: pairs.len(),
            vertex_triangle_candidates: 0,
            adjacency_exclusions: 0,
            narrow_phase_tests: 0,
            projections: 0,
        };
        let mut tests: Vec<(usize, usize)> = Vec::new();
        let mut i: usize = 0;
        assert(pairs@.take(0) =~= Seq::<(u32, u32)>::empty());
        while i < pairs.len()
            invariant
                i <= pairs@.len(),
                particle_count + triangles@.len() <= usize::MAX,
                report.broad_phase_pairs == pairs@.len(),
                report.projections == 0,
                report.vertex_triangle_candidates <= i,
                report.adjacency_exclusions <= i,
                report.narrow_phase_tests == tests@.len(),
                ({
                    let (candidates, exclusions, found) = classify_pairs(
                        pairs@.take(i as int),
                        particle_count as int,
                        triangles@,
                        self.spec_edges(),
                    );
                    &&& report.vertex_triangle_candidates == candidates
                    &&& report.adjacency_exclusions == exclusions
                    &&& tests@ == found
                }),
                tests@.len() <= i,
            decreases pairs.len() - i,
        {
            let (first, second) = pairs[i];
            proof {
                let next = pairs@.take(i + 1);
                assert(next.drop_last() =~= pairs@.take(i as int));
                assert(next.last() == (first, second));
            }
            match decode_vertex_triangle_pair(
                first as usize,
                second as usize,
                particle_count,
                triangles.len(),
            ) {
                None => {},
                Some((particle, triangle_index)) => {
                    report.vertex_triangle_candidates = report.vertex_triangle_candidates + 1;
                    let triangle = triangles[triangle_index];
                    if self.is_adjacent_feature(particle, triangle) {
                        report.adjacency_exclusions = report.adjacency_exclusions + 1;
                    } else {
                        report.narrow_phase_tests = report.narrow_phase_tests + 1;
                        tests.push((particle, triangle_index));
                    }
                },
            }
            i = i + 1;
        }
        assert(pairs@.take(i as int) =~= pairs@);
        (report, tests)
    }
}

/// Validation of self-collision input, in the order the checks apply. `out_of_range[i]` tells
/// whether some coordinate of particle `i` has `|coordinate| + thickness` above `f32::MAX` (the
/// shared broad phase stores bounds as `f32`).
pub open spec fn self_collision_validation(
    particles: Seq<SelfCollisionParticle>,
    triangles: Seq<[usize; 3]>,
    config: SelfCollisionConfig,
    out_of_range: Seq<bool>,
) -> Result<(), SelfCollisionError> {
    if !config.spec_is_valid() {
        Err(SelfCollisionError::InvalidThickness)
    } else if particles.len() + triangles.len() > u32::MAX {
        Err(SelfCollisionError::TopologyTooLarge)
    } else {
        match first_particle_error(particles, out_of_range, particles.len() as int) {
            Some(e) => Err(e),
            None => match first_triangle_error(triangles, particles.len() as int, triangles.len() as int) {
                Some(e) => Err(e),
                None => Ok(()),
            },
        }
    }
}

/// The error of the first triangle among the first `n` whose corners are out of range or repeat.
pub open spec fn first_triangle_error(
    triangles: Seq<[usize; 3]>,
    particle_count: int,
    n: int,
) -> Option<SelfCollisionError>
    decreases n,
{
    if n <= 0 {
        None
    } else {
        match first_triangle_error(triangles, particle_count, n - 1) {
            Some(e) => Some(e),
            None => if triangle_indices_ok(triangles[n - 1], particle_count) {
                None
            } else {
                Some(triangle_error(triangles[n - 1], particle_count))
            },
        }
    }
}

/// The error of the first particle among the first `n` that fails its checks.
pub open spec fn first_particle_error(
    particles: Seq<SelfCollisionParticle>,
    out_of_range: Seq<bool>,
    n: int,
) -> Option<SelfCollisionError>
    decreases n,
{
    if n <= 0 {
        None
    } else {
        match first_particle_error(particles, out_of_range, n - 1) {
            Some(e) => Some(e),
            None => particle_error(particles[n - 1], out_of_range[n - 1]),
        }
    }
}

/// One particle's checks: finite position, finite non-negative inverse mass, broad-phase range.
pub open spec fn particle_error(p: SelfCollisionParticle, out_of_range: bool) -> Option<
    SelfCollisionError,
> {
    if !p.position.spec_is_finite() {
        Some(SelfCollisionError::InvalidParticlePosition)
    } else if !is_finite_bits(p.inverse_mass) || is_negative_bits(p.inverse_mass) {
        Some(SelfCollisionError::InvalidInverseMass)
    } else if out_of_range {
        Some(SelfCollisionError::BroadPhaseRangeExceeded)
    } else {
        None
    }
}

pub open spec fn triangle_indices_ok(t: [usize; 3], particle_count: int) -> bool {
    t[0] < particle_count && t[1] < particle_count && t[2] < particle_count && t[0] != t[1] && t[1]
        != t[2] && t[2] != t[0]
}

pub open spec fn triangle_error(t: [usize; 3], particle_count: int) -> SelfCollisionError {
    if t[0] >= particle_count || t[1] >= particle_count || t[2] >= particle_count {
        SelfCollisionError::InvalidTriangleIndex
    } else {
        SelfCollisionError::DuplicateTriangleVertex
    }
}

proof fn lemma_first_particle_error_stays(
    particles: Seq<SelfCollisionParticle>,
    out_of_range: Seq<bool>,
    k: int,
    m: int,
)
    requires
        0 <= k <= m,
        first_particle_error(particles, out_of_range, k) is Some,
    ensures
        first_particle_error(particles, out_of_range, m) == first_particle_error(
            particles,
            out_of_range,
            k,
        ),
    decreases m - k,
{
    if m > k {
        lemma_first_particle_error_stays(particles, out_of_range, k, m - 1);
    }
}

proof fn lemma_first_triangle_error_stays(
    triangles: Seq<[usize; 3]>,
    particle_count: int,
    k: int,
    m: int,
)
    requires
        0 <= k <= m,
        first_triangle_error(triangles, particle_count, k) is Some,
    ensures
        first_triangle_error(triangles, particle_count, m) == first_triangle_error(
            triangles,
            particle_count,
            k,
        ),
    decreases m - k,
{
    if m > k {
        lemma_first_triangle_error_stays(triangles, particle_count, k, m - 1);
    }
}

/// Validates self-collision input before any particle is moved.
pub fn validate_self_collision_inputs(
    particles: &[SelfCollisionParticle],
    triangles: &[[usize; 3]],
    config: SelfCollisionConfig,
    out_of_range: &[bool],
) -> (result: Result<(), SelfCollisionError>)
    requires
        out_of_range@.len() == particles@.len(),
    ensures
        result == self_collision_validation(particles@, triangles@, config, out_of_range@),
{
    config.validate()?;
    if particles.len() as u64 > 0xffff_ffff || triangles.len() as u64 > 0xffff_ffff - particles.len() as u64 {
        return Err(SelfCollisionError::TopologyTooLarge);
    }
    let mut i: usize = 0;
    while i < particles.len()
        invariant
            i <= particles@.len(),
            out_of_range@.len() == particles@.len(),
            config.spec_is_valid(),
            particles@.len() + triangles@.len() <= u32::MAX,
            first_particle_error(particles@, out_of_range@, i as int) is None,
        decreases particles.len() - i,
    {
        let particle = particles[i];
        proof {
            if particle_error(particle, out_of_range@[i as int]) is Some {
                lemma_first_particle_error_stays(
                    particles@,
                    out_of_range@,
                    i + 1,
                    particles@.len() as int,
                );
            }
        }
        if !particle.position.is_finite() {
            return Err(SelfCollisionError::InvalidParticlePosition);
        }
        if !finite_bits(particle.inverse_mass) || negative_bits(particle.inverse_mass) {
            return Err(SelfCollisionError::InvalidInverseMass);
        }
        if out_of_range[i] {
            return Err(SelfCollisionError::BroadPhaseRangeExceeded);
        }
        i = i + 1;
    }
    let count = particles.len();
    let mut t: usize = 0;
    while t < triangles.len()
        invariant
            t <= triangles@.len(),
            count == particles@.len(),
            config.spec_is_valid(),
            particles@.len() + triangles@.len() <= u32::MAX,
            first_particle_error(particles@, out_of_range@, count as int) is None,
            first_triangle_error(triangles@, count as int, t as int) is None,
        decreases triangles.len() - t,
    {
        let triangle = triangles[t];
        proof {
            if !triangle_indices_ok(triangle, count as int) {
                lemma_first_triangle_error_stays(
                    triangles@,
                    count as int,
                    t + 1,
                    triangles@.len() as int,
                );
            }
        }
        if triangle[0] >= count || triangle[1] >= count || triangle[2] >= count {
            return Err(SelfCollisionError::InvalidTriangleIndex);
        }
        if triangle[0] == triangle[1] || triangle[1] == triangle[2] || triangle[2] == triangle[0] {
            return Err(SelfCollisionError::DuplicateTriangleVertex);
        }
        t = t + 1;
    }
    Ok(())
}

} // verus!
