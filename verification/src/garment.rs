use vstd::prelude::*;

use crate::math::Vec3;

mod glb;
pub(crate) mod text;
mod obj;

pub use glb::{
    GlbAccessorLayout, GlbBufferSource, GlbDocument, GlbDocumentFacts, GlbGarmentImporter,
    GlbIndexRead, GlbMeshFacts, GlbNodeFacts, GlbPrimitiveFacts, GlbScenePlan, GlbSparseLayout,
    GlbStep, GlbStepGeometry, GlbViewLayout,
};
pub use obj::ObjGarmentImporter;

verus! {

/// Offset basis of the 64-bit FNV-1a hash used for deterministic fingerprints.
pub const FNV_OFFSET_BASIS: u64 = 0xcbf2_9ce4_8422_2325;

/// Prime of the 64-bit FNV-1a hash used for deterministic fingerprints.
pub const FNV_PRIME: u64 = 0x0000_0100_0000_01b3;

/// One FNV-1a round: mix one byte into the running hash.
pub open spec fn fnv_step(hash: u64, byte: u8) -> u64 {
    vstd::wrapping::u64_specs::wrapping_mul(hash ^ (byte as u64), FNV_PRIME)
}

/// Mixes the lowest `count` little-endian bytes of `value` into `hash`, lowest byte first.
pub open spec fn fnv_le_bytes(hash: u64, value: u64, count: nat) -> u64
    decreases count,
{
    if count == 0 {
        hash
    } else {
        fnv_le_bytes(fnv_step(hash, (value % 256) as u8), value / 256, (count - 1) as nat)
    }
}

/// Mixes the eight little-endian bytes of `value` into `hash`.
#[verifier::opaque]
pub open spec fn fnv_word(hash: u64, value: u64) -> u64 {
    fnv_le_bytes(hash, value, 8)
}

/// Mixes a sequence of 64-bit words into `hash`, first word first.
pub open spec fn fnv_words(hash: u64, words: Seq<u64>) -> u64
    decreases words.len(),
{
    if words.len() == 0 {
        hash
    } else {
        fnv_word(fnv_words(hash, words.drop_last()), words.last())
    }
}

/// Hashing a concatenation continues from the hash of the first part.
pub proof fn lemma_fnv_words_append(hash: u64, first: Seq<u64>, second: Seq<u64>)
    ensures
        fnv_words(hash, first + second) == fnv_words(fnv_words(hash, first), second),
    decreases second.len(),
{
    if second.len() == 0 {
        assert(first + second =~= first);
    } else {
        lemma_fnv_words_append(hash, first, second.drop_last());
        assert((first + second).drop_last() =~= first + second.drop_last());
    }
}

/// Hashing a single word is one word step.
pub proof fn lemma_fnv_words_single(hash: u64, word: u64)
    ensures
        fnv_words(hash, seq![word]) == fnv_word(hash, word),
{
    assert(seq![word].drop_last() =~= Seq::<u64>::empty());
    assert(fnv_words(hash, Seq::<u64>::empty()) == hash);
}

/// Mixes the little-endian bytes of `value` into `hash` (FNV-1a).
pub fn hash_u64(hash: &mut u64, value: u64)
    ensures
        *final(hash) == fnv_word(*old(hash), value),
{
    let ghost start = *hash;
    proof {
        reveal(fnv_word);
    }
    let mut remaining = value;
    let mut index: u32 = 0;
    while index < 8
        invariant
            index <= 8,
            fnv_word(start, value) == fnv_le_bytes(*hash, remaining, (8 - index) as nat),
        decreases 8 - index,
    {
        let byte = (remaining % 256) as u8;
        *hash = (*hash ^ (byte as u64)).wrapping_mul(FNV_PRIME);
        remaining = remaining / 256;
        index = index + 1;
    }
}

/// The words hashed for one position: its three coordinate patterns.
pub open spec fn vec3_words(position: Vec3) -> Seq<u64> {
    seq![position.x, position.y, position.z]
}

/// The words hashed for a sequence of positions, in order.
pub open spec fn position_words(positions: Seq<Vec3>) -> Seq<u64>
    decreases positions.len(),
{
    if positions.len() == 0 {
        Seq::empty()
    } else {
        position_words(positions.drop_last()) + vec3_words(positions.last())
    }
}

/// The words hashed for one triangle: its three vertex indices.
pub open spec fn triangle_words(triangle: [usize; 3]) -> Seq<u64> {
    seq![triangle[0] as u64, triangle[1] as u64, triangle[2] as u64]
}

/// The words hashed for a sequence of triangles, in order.
pub open spec fn triangle_seq_words(triangles: Seq<[usize; 3]>) -> Seq<u64>
    decreases triangles.len(),
{
    if triangles.len() == 0 {
        Seq::empty()
    } else {
        triangle_seq_words(triangles.drop_last()) + triangle_words(triangles.last())
    }
}

/// The word stream behind a simulation-geometry fingerprint: vertex count, coordinate patterns,
/// triangle count, triangle indices.
pub open spec fn geometry_words(positions: Seq<Vec3>, triangles: Seq<[usize; 3]>) -> Seq<u64> {
    seq![positions.len() as u64] + position_words(positions) + seq![triangles.len() as u64]
        + triangle_seq_words(triangles)
}

/// Deterministic fingerprint of normalized simulation geometry.
pub open spec fn geometry_fingerprint(positions: Seq<Vec3>, triangles: Seq<[usize; 3]>) -> u64 {
    fnv_words(FNV_OFFSET_BASIS, geometry_words(positions, triangles))
}

/// Hashes positions after `hash`, three coordinate words per position.
pub fn hash_positions(hash: &mut u64, positions: &[Vec3])
    ensures
        *final(hash) == fnv_words(*old(hash), position_words(positions@)),
{
    let ghost start = *hash;
    let mut index: usize = 0;
    assert(positions@.take(0) =~= Seq::<Vec3>::empty());
    while index < positions.len()
        invariant
            index <= positions@.len(),
            *hash == fnv_words(start, position_words(positions@.take(index as int))),
        decreases positions.len() - index,
    {
        let position = positions[index];
        let ghost before = position_words(positions@.take(index as int));
        hash_u64(hash, position.x);
        hash_u64(hash, position.y);
        hash_u64(hash, position.z);
        proof {
            let next = positions@.take(index + 1);
            assert(next.drop_last() =~= positions@.take(index as int));
            assert(position_words(next) == before + vec3_words(position));
            lemma_fnv_words_append(start, before, vec3_words(position));
            reveal_with_fuel(fnv_words, 4);
            assert(vec3_words(position).drop_last().drop_last().drop_last() =~= Seq::<u64>::empty());
            assert(vec3_words(position).drop_last().drop_last() =~= seq![position.x]);
            assert(vec3_words(position).drop_last() =~= seq![position.x, position.y]);
        }
        index = index + 1;
    }
    assert(positions@.take(positions@.len() as int) =~= positions@);
}

/// Hashes triangles after `hash`, three index words per triangle.
pub fn hash_triangles(hash: &mut u64, triangles: &[[usize; 3]])
    ensures
        *final(hash) == fnv_words(*old(hash), triangle_seq_words(triangles@)),
{
    let ghost start = *hash;
    let mut index: usize = 0;
    assert(triangles@.take(0) =~= Seq::<[usize; 3]>::empty());
    while index < triangles.len()
        invariant
            index <= triangles@.len(),
            *hash == fnv_words(start, triangle_seq_words(triangles@.take(index as int))),
        decreases triangles.len() - index,
    {
        let triangle = triangles[index];
        let ghost before = triangle_seq_words(triangles@.take(index as int));
        hash_u64(hash, triangle[0] as u64);
        hash_u64(hash, triangle[1] as u64);
        hash_u64(hash, triangle[2] as u64);
        proof {
            let words = triangle_words(triangle);
            let next = triangles@.take(index + 1);
            assert(next.drop_last() =~= triangles@.take(index as int));
            assert(triangle_seq_words(next) == before + words);
            lemma_fnv_words_append(start, before, words);
            reveal_with_fuel(fnv_words, 4);
            assert(words.drop_last().drop_last().drop_last() =~= Seq::<u64>::empty());
            assert(words.drop_last().drop_last() =~= seq![triangle[0] as u64]);
            assert(words.drop_last() =~= seq![triangle[0] as u64, triangle[1] as u64]);
        }
        index = index + 1;
    }
    assert(triangles@.take(triangles@.len() as int) =~= triangles@);
}

/// Fingerprint of a position/triangle surface, as used by normalized garment assets.
pub fn simulation_geometry_fingerprint(positions: &[Vec3], triangles: &[[usize; 3]]) -> (hash: u64)
    ensures
        hash == geometry_fingerprint(positions@, triangles@),
{
    let mut hash = FNV_OFFSET_BASIS;
    hash_u64(&mut hash, positions.len() as u64);
    hash_positions(&mut hash, positions);
    hash_u64(&mut hash, triangles.len() as u64);
    hash_triangles(&mut hash, triangles);
    proof {
        let a = seq![positions@.len() as u64];
        let b = position_words(positions@);
        let c = seq![triangles@.len() as u64];
        let d = triangle_seq_words(triangles@);
        lemma_fnv_words_single(FNV_OFFSET_BASIS, positions@.len() as u64);
        assert(fnv_words(FNV_OFFSET_BASIS, a + b) == fnv_words(fnv_words(FNV_OFFSET_BASIS, a), b)) by {
            lemma_fnv_words_append(FNV_OFFSET_BASIS, a, b);
        }
        let ab = fnv_words(FNV_OFFSET_BASIS, a + b);
        lemma_fnv_words_single(ab, triangles@.len() as u64);
        lemma_fnv_words_append(FNV_OFFSET_BASIS, a + b, c);
        lemma_fnv_words_append(FNV_OFFSET_BASIS, a + b + c, d);
    }
    hash
}

/// External source format used to create a normalized garment asset.
#[derive(Clone, Copy, Debug, PartialEq, Eq, Structural)]
pub enum GarmentSourceFormat {
    Obj,
    Glb,
}

/// Why a garment source was rejected. `line` values are one-based source line numbers.
#[derive(Clone, Copy, Debug, PartialEq, Eq, Structural)]
pub enum GarmentImportError {
    InvalidUtf8,
    MissingVertices,
    MissingTriangles,
    InvalidVertex { line: usize },
    NonFiniteVertex { line: usize },
    InvalidFace { line: usize },
    InvalidFaceIndex { line: usize },
    FaceIndexOutOfBounds { line: usize },
    DegenerateFace { line: usize },
    InvalidGlb,
    UnsupportedGlbAnimation,
    ExternalGlbBuffer,
    MissingGlbBinaryChunk,
    MissingGlbScene,
    AmbiguousGlbScene,
    GlbHierarchyTooDeep,
    UnsupportedGlbSkin,
    UnsupportedGlbMorphTargets,
    NonFiniteGlbGeometry,
    UnsupportedGlbPrimitiveMode,
    MissingGlbPositions,
    InvalidGlbIndices,
    DegenerateGlbTriangle,
}

/// A triangle whose three indices address `vertex_count` vertices and are pairwise distinct.
pub open spec fn triangle_is_valid(triangle: [usize; 3], vertex_count: int) -> bool {
    &&& triangle[0] < vertex_count
    &&& triangle[1] < vertex_count
    &&& triangle[2] < vertex_count
    &&& triangle[0] != triangle[1]
    &&& triangle[1] != triangle[2]
    &&& triangle[0] != triangle[2]
}

/// Normalized garment geometry: a non-empty finite vertex set and a non-empty indexed triangle
/// surface whose triangles address existing, pairwise distinct vertices.
pub open spec fn garment_geometry_is_well_formed(
    positions: Seq<Vec3>,
    triangles: Seq<[usize; 3]>,
) -> bool {
    &&& positions.len() > 0
    &&& triangles.len() > 0
    &&& forall|i: int| 0 <= i < positions.len() ==> (#[trigger] positions[i]).spec_is_finite()
    &&& forall|t: int|
        0 <= t < triangles.len() ==> triangle_is_valid(#[trigger] triangles[t], positions.len() as int)
}

/// Normalized geometry that can be validated independently of a UI or file parser.
///
/// This slice deliberately contains only simulation surface geometry. Pattern pieces, sewing
/// relationships, fabric metadata, and attachments can be added as explicit normalized data when
/// importers that actually provide those semantics are introduced.
#[derive(Debug)]
pub struct GarmentAsset {
    source_format: GarmentSourceFormat,
    positions: Vec<Vec3>,
    triangles: Vec<[usize; 3]>,
}

impl GarmentAsset {
    #[verifier::type_invariant]
    spec fn well_formed(self) -> bool {
        garment_geometry_is_well_formed(self.positions@, self.triangles@)
    }

    /// The format the asset was imported from.
    pub closed spec fn spec_source_format(&self) -> GarmentSourceFormat {
        self.source_format
    }

    /// The normalized vertex positions.
    pub closed spec fn spec_positions(&self) -> Seq<Vec3> {
        self.positions@
    }

    /// The normalized triangle surface.
    pub closed spec fn spec_triangles(&self) -> Seq<[usize; 3]> {
        self.triangles@
    }

    pub(crate) fn from_parts(
        source_format: GarmentSourceFormat,
        positions: Vec<Vec3>,
        triangles: Vec<[usize; 3]>,
    ) -> (asset: Self)
        requires
            garment_geometry_is_well_formed(positions@, triangles@),
        ensures
            asset.spec_source_format() == source_format,
            asset.spec_positions() == positions@,
            asset.spec_triangles() == triangles@,
    {
        GarmentAsset { source_format, positions, triangles }
    }

    /// The format the asset was imported from.
    pub fn source_format(&self) -> (format: GarmentSourceFormat)
        ensures
            format == self.spec_source_format(),
    {
        self.source_format
    }

    /// The normalized vertex positions.
    pub fn positions(&self) -> (positions: &[Vec3])
        ensures
            positions@ == self.spec_positions(),
            garment_geometry_is_well_formed(self.spec_positions(), self.spec_triangles()),
    {
        proof {
            use_type_invariant(self);
        }
        self.positions.as_slice()
    }

    /// The normalized triangle surface.
    pub fn triangles(&self) -> (triangles: &[[usize; 3]])
        ensures
            triangles@ == self.spec_triangles(),
            garment_geometry_is_well_formed(self.spec_positions(), self.spec_triangles()),
    {
        proof {
            use_type_invariant(self);
        }
        self.triangles.as_slice()
    }

    /// Deterministic fingerprint of normalized simulation geometry.
    ///
    /// Source provenance is intentionally excluded so equivalent normalized geometry imported
    /// through different adapters converges on the same simulation identity.
    pub fn simulation_fingerprint(&self) -> (hash: u64)
        ensures
            hash == geometry_fingerprint(self.spec_positions(), self.spec_triangles()),
    {
        simulation_geometry_fingerprint(self.positions.as_slice(), self.triangles.as_slice())
    }
}

/// A copy of a slice of `Copy` items, element for element.
pub(crate) fn copy_items<T: Copy>(items: &[T]) -> (copy: Vec<T>)
    ensures
        copy@ == items@,
{
    let mut copy: Vec<T> = Vec::new();
    let mut i: usize = 0;
    while i < items.len()
        invariant
            i <= items@.len(),
            copy@ == items@.take(i as int),
        decreases items.len() - i,
    {
        copy.push(items[i]);
        proof {
            assert(items@.take(i + 1) =~= items@.take(i as int).push(items@[i as int]));
        }
        i = i + 1;
    }
    assert(items@.take(items@.len() as int) =~= items@);
    copy
}

/// Whether two position lists hold the same patterns in the same order.
pub(crate) fn same_positions(first: &[Vec3], second: &[Vec3]) -> (same: bool)
    ensures
        same == (first@ == second@),
{
    if first.len() != second.len() {
        return false;
    }
    let mut i: usize = 0;
    while i < first.len()
        invariant
            i <= first@.len(),
            first@.len() == second@.len(),
            forall|k: int| 0 <= k < i ==> first@[k] == second@[k],
        decreases first.len() - i,
    {
        if first[i] != second[i] {
            return false;
        }
        i = i + 1;
    }
    assert(first@ =~= second@);
    true
}

/// Whether two triangle lists hold the same index triples in the same order.
pub(crate) fn same_triangles(first: &[[usize; 3]], second: &[[usize; 3]]) -> (same: bool)
    ensures
        same == (first@ == second@),
{
    if first.len() != second.len() {
        return false;
    }
    let mut i: usize = 0;
    while i < first.len()
        invariant
            i <= first@.len(),
            first@.len() == second@.len(),
            forall|k: int| 0 <= k < i ==> first@[k] == second@[k],
        decreases first.len() - i,
    {
        let (x, y) = (first[i], second[i]);
        if x[0] != y[0] || x[1] != y[1] || x[2] != y[2] {
            return false;
        }
        assert(x =~= y);
        i = i + 1;
    }
    assert(first@ =~= second@);
    true
}

impl Clone for GarmentAsset {
    /// A copy with the same provenance and geometry.
    fn clone(&self) -> (copy: Self)
        ensures
            copy.spec_source_format() == self.spec_source_format(),
            copy.spec_positions() == self.spec_positions(),
            copy.spec_triangles() == self.spec_triangles(),
    {
        proof {
            use_type_invariant(self);
        }
        GarmentAsset {
            source_format: self.source_format,
            positions: copy_items(self.positions.as_slice()),
            triangles: copy_items(self.triangles.as_slice()),
        }
    }
}

impl PartialEq for GarmentAsset {
    fn eq(&self, other: &Self) -> (equal: bool) {
        self.source_format == other.source_format && same_positions(
            self.positions.as_slice(),
            other.positions.as_slice(),
        ) && same_triangles(self.triangles.as_slice(), other.triangles.as_slice())
    }
}

impl vstd::std_specs::cmp::PartialEqSpecImpl for GarmentAsset {
    open spec fn obeys_eq_spec() -> bool {
        true
    }

    open spec fn eq_spec(&self, other: &Self) -> bool {
        &&& self.spec_source_format() == other.spec_source_format()
        &&& self.spec_positions() == other.spec_positions()
        &&& self.spec_triangles() == other.spec_triangles()
    }
}

/// The simulation fingerprint identifies normalized geometry, not provenance: two assets with the
/// same positions and triangles have the same fingerprint, whichever formats they came from.
pub proof fn lemma_fingerprint_ignores_provenance(first: GarmentAsset, second: GarmentAsset)
    requires
        first.spec_positions() == second.spec_positions(),
        first.spec_triangles() == second.spec_triangles(),
    ensures
        geometry_fingerprint(first.spec_positions(), first.spec_triangles()) == geometry_fingerprint(
            second.spec_positions(),
            second.spec_triangles(),
        ),
{
}

} // verus!
