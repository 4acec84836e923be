use vstd::prelude::*;

use crate::math::{finite_bits, is_finite_bits, Vec3};

use super::{GarmentAsset, GarmentImportError, GarmentSourceFormat, triangle_is_valid};

verus! {

/// Deepest node level of a scene hierarchy that is flattened; roots are level zero.
pub const MAX_NODE_DEPTH: usize = 256;

/// The glTF primitive topology code for independent triangles (`GL_TRIANGLES`).
pub const GL_TRIANGLES: u32 = 4;

/// Geometry-only importer for a self-contained binary glTF (`.glb`) garment.
///
/// Static triangle meshes from the selected scene are flattened into one normalized simulation
/// surface after applying node hierarchy transforms. Rendering-only attributes are ignored.
/// Animation, skins, morph targets, external geometry buffers, and non-triangle primitives are
/// rejected explicitly rather than being approximated or silently discarded.
#[derive(Clone, Copy, Debug, Default)]
pub struct GlbGarmentImporter;

/// What a scene node contributes to the walk: its children (node indices, in order), its skin and
/// morph-target weights if any, and the mesh it instantiates if any.
#[derive(Clone, Debug)]
pub struct GlbNodeFacts {
    pub children: Vec<usize>,
    pub skin: Option<usize>,
    pub weight_count: Option<usize>,
    pub mesh: Option<usize>,
}

/// One primitive of a mesh: its topology code, how many morph targets it has, and the accessor
/// holding its index list if it is indexed.
#[derive(Clone, Copy, Debug, PartialEq, Eq, Structural)]
pub struct GlbPrimitiveFacts {
    pub mode: u32,
    pub morph_target_count: usize,
    pub indices: Option<usize>,
}

/// One mesh: its default morph weights if any, and its primitives in order.
#[derive(Clone, Debug)]
pub struct GlbMeshFacts {
    pub weight_count: Option<usize>,
    pub primitives: Vec<GlbPrimitiveFacts>,
}

/// One step of the depth-first walk of the selected scene, in the order the importer meets it.
#[derive(Clone, Copy, Debug, PartialEq, Eq, Structural)]
pub enum GlbStep {
    /// A visit of `node` at hierarchy level `depth`; `parent` is the position, in the walk, of the
    /// visit of its parent (`None` for a scene root).
    Node { node: usize, parent: Option<usize>, depth: usize },
    /// Triangle primitive `primitive` of mesh `mesh`, instantiated by the visit at position `visit`.
    Primitive { visit: usize, mesh: usize, primitive: usize },
}

/// The walk of the selected scene: its steps, and the structural error it stopped at, if any.
#[derive(Clone, Debug)]
pub struct GlbScenePlan {
    pub steps: Vec<GlbStep>,
    pub failure: Option<GarmentImportError>,
}

/// Walks the primitives of mesh `mesh` from the `i`-th on, for the visit at position `visit`.
pub open spec fn walk_primitives(
    primitives: Seq<GlbPrimitiveFacts>,
    mesh: usize,
    visit: usize,
    i: int,
    steps: Seq<GlbStep>,
) -> (Seq<GlbStep>, Option<GarmentImportError>)
    decreases primitives.len() - i,
{
    if i < 0 || i >= primitives.len() {
        (steps, None)
    } else {
        let p = primitives[i];
        if p.mode != GL_TRIANGLES {
            (steps, Some(GarmentImportError::UnsupportedGlbPrimitiveMode))
        } else if p.morph_target_count > 0 {
            (steps, Some(GarmentImportError::UnsupportedGlbMorphTargets))
        } else {
            walk_primitives(
                primitives,
                mesh,
                visit,
                i + 1,
                steps.push(GlbStep::Primitive { visit, mesh, primitive: i as usize }),
            )
        }
    }
}

/// Walks the mesh a node instantiates, if any.
pub open spec fn walk_mesh(
    meshes: Seq<GlbMeshFacts>,
    mesh: Option<usize>,
    visit: usize,
    steps: Seq<GlbStep>,
) -> (Seq<GlbStep>, Option<GarmentImportError>) {
    match mesh {
        None => (steps, None),
        Some(m) => if m >= meshes.len() {
            (steps, Some(GarmentImportError::InvalidGlb))
        } else if meshes[m as int].weight_count is Some {
            (steps, Some(GarmentImportError::UnsupportedGlbMorphTargets))
        } else {
            walk_primitives(meshes[m as int].primitives@, m, visit, 0, steps)
        },
    }
}

/// Visits `node` at level `depth` below the visit at position `parent`, then its subtree.
pub open spec fn walk_node(
    nodes: Seq<GlbNodeFacts>,
    meshes: Seq<GlbMeshFacts>,
    node: usize,
    parent: Option<usize>,
    depth: int,
    steps: Seq<GlbStep>,
) -> (Seq<GlbStep>, Option<GarmentImportError>)
    decreases MAX_NODE_DEPTH + 2 - depth, 0int, 0int,
{
    if depth > MAX_NODE_DEPTH || depth < 0 {
        (steps, Some(GarmentImportError::GlbHierarchyTooDeep))
    } else if node >= nodes.len() {
        (steps, Some(GarmentImportError::InvalidGlb))
    } else if nodes[node as int].skin is Some {
        (steps, Some(GarmentImportError::UnsupportedGlbSkin))
    } else if nodes[node as int].weight_count is Some {
        (steps, Some(GarmentImportError::UnsupportedGlbMorphTargets))
    } else {
        let visit = steps.len() as usize;
        let visited = steps.push(GlbStep::Node { node, parent, depth: depth as usize });
        let (meshed, failure) = walk_mesh(meshes, nodes[node as int].mesh, visit, visited);
        if failure is Some {
            (meshed, failure)
        } else {
            walk_children(nodes, meshes, nodes[node as int].children@, 0, Some(visit), depth + 1, meshed)
        }
    }
}

/// Visits the nodes of `children` from the `i`-th on, each with its subtree, at level `depth`.
pub open spec fn walk_children(
    nodes: Seq<GlbNodeFacts>,
    meshes: Seq<GlbMeshFacts>,
    children: Seq<usize>,
    i: int,
    parent: Option<usize>,
    depth: int,
    steps: Seq<GlbStep>,
) -> (Seq<GlbStep>, Option<GarmentImportError>)
    decreases MAX_NODE_DEPTH + 2 - depth, 1int, children.len() - i,
{
    if i < 0 || i >= children.len() {
        (steps, None)
    } else {
        let (visited, failure) = walk_node(nodes, meshes, children[i], parent, depth, steps);
        if failure is Some {
            (visited, failure)
        } else {
            walk_children(nodes, meshes, children, i + 1, parent, depth, visited)
        }
    }
}

/// The walk of a scene whose root nodes are `roots`.
pub open spec fn walk_scene(
    nodes: Seq<GlbNodeFacts>,
    meshes: Seq<GlbMeshFacts>,
    roots: Seq<usize>,
) -> (Seq<GlbStep>, Option<GarmentImportError>) {
    walk_children(nodes, meshes, roots, 0, None, 0, Seq::empty())
}

/// The level of a node visit (`-1` for a primitive step).
pub open spec fn visit_depth(step: GlbStep) -> int {
    match step {
        GlbStep::Node { depth, .. } => depth as int,
        GlbStep::Primitive { .. } => -1,
    }
}

/// Step `i` of a walk refers only to earlier node visits: a root visit is at level zero, a child
/// visit comes after its parent's visit one level deeper, and a primitive comes after the visit
/// that instantiates it.
pub open spec fn step_is_ordered(steps: Seq<GlbStep>, i: int) -> bool {
    match steps[i] {
        GlbStep::Node { parent, depth, .. } => match parent {
            None => depth == 0,
            Some(p) => p < i && steps[p as int] is Node && visit_depth(steps[p as int]) + 1 == depth,
        },
        GlbStep::Primitive { visit, .. } => visit < i && steps[visit as int] is Node,
    }
}

/// Every step of a walk is ordered (see [`step_is_ordered`]), so transforms can be composed in
/// one pass, parents first.
pub open spec fn plan_is_ordered(steps: Seq<GlbStep>) -> bool {
    forall|i: int| 0 <= i < steps.len() ==> #[trigger] step_is_ordered(steps, i)
}

/// `longer` keeps every step of `shorter` at its position.
pub open spec fn extends(shorter: Seq<GlbStep>, longer: Seq<GlbStep>) -> bool {
    &&& shorter.len() <= longer.len()
    &&& forall|k: int| 0 <= k < shorter.len() ==> longer[k] == #[trigger] shorter[k]
}

/// A parent reference that a new visit at level `depth` may carry.
pub open spec fn parent_is_valid(steps: Seq<GlbStep>, parent: Option<usize>, depth: int) -> bool {
    match parent {
        None => depth == 0,
        Some(p) => p < steps.len() && steps[p as int] is Node && visit_depth(steps[p as int]) + 1
            == depth,
    }
}

proof fn lemma_push_ordered(steps: Seq<GlbStep>, step: GlbStep)
    requires
        plan_is_ordered(steps),
        step_is_ordered(steps.push(step), steps.len() as int),
    ensures
        plan_is_ordered(steps.push(step)),
        extends(steps, steps.push(step)),
{
    let longer = steps.push(step);
    assert forall|i: int| 0 <= i < longer.len() implies #[trigger] step_is_ordered(longer, i) by {
        if i < steps.len() {
            assert(step_is_ordered(steps, i));
            assert(longer[i] == steps[i]);
        }
    }
}

proof fn lemma_push_extends(steps: Seq<GlbStep>, step: GlbStep)
    ensures
        extends(steps, steps.push(step)),
{
}

proof fn lemma_extends_trans(a: Seq<GlbStep>, b: Seq<GlbStep>, c: Seq<GlbStep>)
    requires
        extends(a, b),
        extends(b, c),
    ensures
        extends(a, c),
{
    assert forall|k: int| 0 <= k < a.len() implies c[k] == #[trigger] a[k] by {
        assert(c[k] == b[k]);
    }
}

proof fn lemma_walk_primitives_extends(
    primitives: Seq<GlbPrimitiveFacts>,
    mesh: usize,
    visit: usize,
    i: int,
    steps: Seq<GlbStep>,
)
    ensures
        extends(steps, walk_primitives(primitives, mesh, visit, i, steps).0),
    decreases primitives.len() - i,
{
    if 0 <= i < primitives.len() {
        let p = primitives[i];
        if p.mode == GL_TRIANGLES && p.morph_target_count == 0 {
            let longer = steps.push(GlbStep::Primitive { visit, mesh, primitive: i as usize });
            lemma_push_extends(steps, GlbStep::Primitive { visit, mesh, primitive: i as usize });
            lemma_walk_primitives_extends(primitives, mesh, visit, i + 1, longer);
            lemma_extends_trans(
                steps,
                longer,
                walk_primitives(primitives, mesh, visit, i + 1, longer).0,
            );
        }
    }
}

proof fn lemma_walk_node_extends(
    nodes: Seq<GlbNodeFacts>,
    meshes: Seq<GlbMeshFacts>,
    node: usize,
    parent: Option<usize>,
    depth: int,
    steps: Seq<GlbStep>,
)
    ensures
        extends(steps, walk_node(nodes, meshes, node, parent, depth, steps).0),
    decreases MAX_NODE_DEPTH + 2 - depth, 0int, 0int,
{
    if 0 <= depth <= MAX_NODE_DEPTH && node < nodes.len() && nodes[node as int].skin is None
        && nodes[node as int].weight_count is None {
        let visit = steps.len() as usize;
        let step = GlbStep::Node { node, parent, depth: depth as usize };
        let visited = steps.push(step);
        lemma_push_extends(steps, step);
        let (meshed, failure) = walk_mesh(meshes, nodes[node as int].mesh, visit, visited);
        if let Some(m) = nodes[node as int].mesh {
            if m < meshes.len() && meshes[m as int].weight_count is None {
                lemma_walk_primitives_extends(meshes[m as int].primitives@, m, visit, 0, visited);
            }
        }
        lemma_extends_trans(steps, visited, meshed);
        if failure is None {
            let children = nodes[node as int].children@;
            lemma_walk_children_extends(nodes, meshes, children, 0, Some(visit), depth + 1, meshed);
            lemma_extends_trans(
                steps,
                meshed,
                walk_children(nodes, meshes, children, 0, Some(visit), depth + 1, meshed).0,
            );
        }
    }
}

proof fn lemma_walk_children_extends(
    nodes: Seq<GlbNodeFacts>,
    meshes: Seq<GlbMeshFacts>,
    children: Seq<usize>,
    i: int,
    parent: Option<usize>,
    depth: int,
    steps: Seq<GlbStep>,
)
    ensures
        extends(steps, walk_children(nodes, meshes, children, i, parent, depth, steps).0),
    decreases MAX_NODE_DEPTH + 2 - depth, 1int, children.len() - i,
{
    if 0 <= i < children.len() {
        lemma_walk_node_extends(nodes, meshes, children[i], parent, depth, steps);
        let (visited, failure) = walk_node(nodes, meshes, children[i], parent, depth, steps);
        if failure is None {
            lemma_walk_children_extends(nodes, meshes, children, i + 1, parent, depth, visited);
            lemma_extends_trans(
                steps,
                visited,
                walk_children(nodes, meshes, children, i + 1, parent, depth, visited).0,
            );
        }
    }
}

proof fn lemma_walk_primitives_ordered(
    primitives: Seq<GlbPrimitiveFacts>,
    mesh: usize,
    visit: usize,
    i: int,
    steps: Seq<GlbStep>,
)
    requires
        plan_is_ordered(steps),
        visit < steps.len(),
        steps[visit as int] is Node,
    ensures
        plan_is_ordered(walk_primitives(primitives, mesh, visit, i, steps).0),
    decreases primitives.len() - i,
{
    if 0 <= i < primitives.len() {
        let p = primitives[i];
        if p.mode == GL_TRIANGLES && p.morph_target_count == 0 {
            let step = GlbStep::Primitive { visit, mesh, primitive: i as usize };
            let longer = steps.push(step);
            assert(longer[visit as int] == steps[visit as int]);
            lemma_push_ordered(steps, step);
            lemma_walk_primitives_ordered(primitives, mesh, visit, i + 1, longer);
        }
    }
}

proof fn lemma_walk_node_ordered(
    nodes: Seq<GlbNodeFacts>,
    meshes: Seq<GlbMeshFacts>,
    node: usize,
    parent: Option<usize>,
    depth: int,
    steps: Seq<GlbStep>,
)
    requires
        plan_is_ordered(steps),
        parent_is_valid(steps, parent, depth),
        walk_node(nodes, meshes, node, parent, depth, steps).0.len() <= usize::MAX,
    ensures
        plan_is_ordered(walk_node(nodes, meshes, node, parent, depth, steps).0),
    decreases MAX_NODE_DEPTH + 2 - depth, 0int, 0int,
{
    if 0 <= depth <= MAX_NODE_DEPTH && node < nodes.len() && nodes[node as int].skin is None
        && nodes[node as int].weight_count is None {
        let visit = steps.len() as usize;
        let step = GlbStep::Node { node, parent, depth: depth as usize };
        let visited = steps.push(step);
        let (meshed, failure) = walk_mesh(meshes, nodes[node as int].mesh, visit, visited);
        lemma_walk_node_extends(nodes, meshes, node, parent, depth, steps);
        lemma_push_extends(steps, step);
        if let Some(m) = nodes[node as int].mesh {
            if m < meshes.len() && meshes[m as int].weight_count is None {
                lemma_walk_primitives_extends(meshes[m as int].primitives@, m, visit, 0, visited);
            }
        }
        let result = walk_node(nodes, meshes, node, parent, depth, steps).0;
        if failure is None {
            let children = nodes[node as int].children@;
            lemma_walk_children_extends(nodes, meshes, children, 0, Some(visit), depth + 1, meshed);
        }
        assert(meshed.len() <= result.len());
        assert(visit == steps.len());
        if let Some(p) = parent {
            assert(visited[p as int] == steps[p as int]);
        }
        lemma_push_ordered(steps, step);
        assert(visited[visit as int] == step);
        if let Some(m) = nodes[node as int].mesh {
            if m < meshes.len() && meshes[m as int].weight_count is None {
                lemma_walk_primitives_ordered(meshes[m as int].primitives@, m, visit, 0, visited);
            }
        }
        assert(meshed[visit as int] == visited[visit as int]);
        assert(visit_depth(meshed[visit as int]) == depth);
        if failure is None {
            lemma_walk_children_ordered(
                nodes,
                meshes,
                nodes[node as int].children@,
                0,
                Some(visit),
                depth + 1,
                meshed,
            );
        }
    }
}

proof fn lemma_walk_children_ordered(
    nodes: Seq<GlbNodeFacts>,
    meshes: Seq<GlbMeshFacts>,
    children: Seq<usize>,
    i: int,
    parent: Option<usize>,
    depth: int,
    steps: Seq<GlbStep>,
)
    requires
        plan_is_ordered(steps),
        parent_is_valid(steps, parent, depth),
        walk_children(nodes, meshes, children, i, parent, depth, steps).0.len() <= usize::MAX,
    ensures
        plan_is_ordered(walk_children(nodes, meshes, children, i, parent, depth, steps).0),
    decreases MAX_NODE_DEPTH + 2 - depth, 1int, children.len() - i,
{
    if 0 <= i < children.len() {
        let (visited, failure) = walk_node(nodes, meshes, children[i], parent, depth, steps);
        if failure is None {
            lemma_walk_children_extends(nodes, meshes, children, i + 1, parent, depth, visited);
        }
        lemma_walk_node_ordered(nodes, meshes, children[i], parent, depth, steps);
        lemma_walk_node_extends(nodes, meshes, children[i], parent, depth, steps);
        if failure is None {
            if let Some(p) = parent {
                assert(visited[p as int] == steps[p as int]);
            }
            lemma_walk_children_ordered(nodes, meshes, children, i + 1, parent, depth, visited);
        }
    }
}

/// A scene walk lists every node visit after its parent's visit, one level deeper, and every
/// primitive after the visit that instantiates it, so world transforms can be composed in a single
/// pass in walk order. (A walk is held in memory, so its length fits in `usize`.)
pub proof fn lemma_scene_walk_is_ordered(
    nodes: Seq<GlbNodeFacts>,
    meshes: Seq<GlbMeshFacts>,
    roots: Seq<usize>,
)
    requires
        walk_scene(nodes, meshes, roots).0.len() <= usize::MAX,
    ensures
        plan_is_ordered(walk_scene(nodes, meshes, roots).0),
{
    lemma_walk_children_ordered(nodes, meshes, roots, 0, None, 0, Seq::empty());
}

fn walk_primitives_exec(
    primitives: &Vec<GlbPrimitiveFacts>,
    mesh: usize,
    visit: usize,
    steps: &mut Vec<GlbStep>,
) -> (failure: Option<GarmentImportError>)
    ensures
        (final(steps)@, failure) == walk_primitives(primitives@, mesh, visit, 0, old(steps)@),
{
    let ghost target = walk_primitives(primitives@, mesh, visit, 0, steps@);
    let mut i: usize = 0;
    while i < primitives.len()
        invariant
            i <= primitives@.len(),
            walk_primitives(primitives@, mesh, visit, i as int, steps@) == target,
            target == walk_primitives(primitives@, mesh, visit, 0, old(steps)@),
        decreases primitives.len() - i,
    {
        let p = &primitives[i];
        assert(*p == primitives@[i as int]);
        if p.mode != GL_TRIANGLES {
            return Some(GarmentImportError::UnsupportedGlbPrimitiveMode);
        }
        if p.morph_target_count > 0 {
            return Some(GarmentImportError::UnsupportedGlbMorphTargets);
        }
        steps.push(GlbStep::Primitive { visit, mesh, primitive: i });
        i = i + 1;
    }
    None
}

fn walk_mesh_exec(
    meshes: &Vec<GlbMeshFacts>,
    mesh: Option<usize>,
    visit: usize,
    steps: &mut Vec<GlbStep>,
) -> (failure: Option<GarmentImportError>)
    ensures
        (final(steps)@, failure) == walk_mesh(meshes@, mesh, visit, old(steps)@),
{
    match mesh {
        None => None,
        Some(m) => {
            if m >= meshes.len() {
                return Some(GarmentImportError::InvalidGlb);
            }
            if meshes[m].weight_count.is_some() {
                return Some(GarmentImportError::UnsupportedGlbMorphTargets);
            }
            walk_primitives_exec(&meshes[m].primitives, m, visit, steps)
        },
    }
}

fn walk_node_exec(
    nodes: &Vec<GlbNodeFacts>,
    meshes: &Vec<GlbMeshFacts>,
    node: usize,
    parent: Option<usize>,
    depth: usize,
    steps: &mut Vec<GlbStep>,
) -> (failure: Option<GarmentImportError>)
    requires
        depth <= MAX_NODE_DEPTH + 1,
    ensures
        (final(steps)@, failure) == walk_node(nodes@, meshes@, node, parent, depth as int, old(steps)@),
    decreases MAX_NODE_DEPTH + 2 - depth,
{
    if depth > MAX_NODE_DEPTH {
        return Some(GarmentImportError::GlbHierarchyTooDeep);
    }
    if node >= nodes.len() {
        return Some(GarmentImportError::InvalidGlb);
    }
    let facts = &nodes[node];
    if facts.skin.is_some() {
        return Some(GarmentImportError::UnsupportedGlbSkin);
    }
    if facts.weight_count.is_some() {
        return Some(GarmentImportError::UnsupportedGlbMorphTargets);
    }
    let visit = steps.len();
    steps.push(GlbStep::Node { node, parent, depth });
    let meshed = walk_mesh_exec(meshes, facts.mesh, visit, steps);
    if meshed.is_some() {
        return meshed;
    }
    let ghost target = walk_children(
        nodes@,
        meshes@,
        facts.children@,
        0,
        Some(visit),
        depth + 1,
        steps@,
    );
    let children = &facts.children;
    let mut i: usize = 0;
    while i < children.len()
        invariant
            i <= children@.len(),
            depth <= MAX_NODE_DEPTH,
            node < nodes@.len(),
            *children == nodes@[node as int].children,
            walk_children(nodes@, meshes@, children@, i as int, Some(visit), depth + 1, steps@)
                == target,
            target == walk_node(nodes@, meshes@, node, parent, depth as int, old(steps)@),
        decreases children.len() - i,
    {
        let ghost before = steps@;
        let failure = walk_node_exec(nodes, meshes, children[i], Some(visit), depth + 1, steps);
        assert(walk_children(nodes@, meshes@, children@, i as int, Some(visit), depth + 1, before)
            == target);
        if failure.is_some() {
            return failure;
        }
        i = i + 1;
    }
    None
}


/// What the caller read and computed in floating point for one step of a plan. For a node visit:
/// its world transform (sixteen column-major binary64 patterns). For a primitive: its positions
/// in world space (`None` when the primitive has no readable position data), and for each of its
/// local triangles whether that triangle's squared area is within `f64::EPSILON` of zero (a
/// missing entry reads as "not flat").
#[derive(Clone, Debug)]
pub struct GlbStepGeometry {
    pub world_transform: [u64; 16],
    pub positions: Option<Vec<Vec3>>,
    pub flat_triangles: Vec<bool>,
}

/// What reading the index list of one step gave: nothing to read (a node visit, a primitive
/// without an index accessor, or one whose reader yields no list), the list, or an index accessor
/// whose layout the reader cannot read without panicking.
#[derive(Clone, Debug)]
pub enum GlbIndexRead {
    Unindexed,
    Listed(Vec<u32>),
    Unreadable,
}

/// The spec-level content of an index read.
pub ghost enum GlbIndexReadView {
    Unindexed,
    Listed(Seq<u32>),
    Unreadable,
}

impl View for GlbIndexRead {
    type V = GlbIndexReadView;

    open spec fn view(&self) -> GlbIndexReadView {
        match self {
            GlbIndexRead::Unindexed => GlbIndexReadView::Unindexed,
            GlbIndexRead::Listed(list) => GlbIndexReadView::Listed(list@),
            GlbIndexRead::Unreadable => GlbIndexReadView::Unreadable,
        }
    }
}

/// All sixteen entries of a transform are finite.
pub open spec fn transform_is_finite(matrix: [u64; 16]) -> bool {
    forall|k: int| 0 <= k < 16 ==> is_finite_bits(#[trigger] matrix[k])
}

/// Every position is finite.
pub open spec fn positions_are_finite(positions: Seq<Vec3>) -> bool {
    forall|i: int| 0 <= i < positions.len() ==> (#[trigger] positions[i]).spec_is_finite()
}

/// The local vertex list of a primitive: its index list, or every vertex in order when it has
/// none (an unreadable list has no local vertices).
pub open spec fn local_indices(read: GlbIndexReadView, count: int) -> Seq<int> {
    match read {
        GlbIndexReadView::Listed(list) => Seq::new(list.len(), |k: int| list[k] as int),
        GlbIndexReadView::Unindexed => Seq::new(count as nat, |k: int| k),
        GlbIndexReadView::Unreadable => Seq::empty(),
    }
}

/// Whether local triangle `j` was reported flat.
pub open spec fn flat_at(flat: Seq<bool>, j: int) -> bool {
    0 <= j < flat.len() && flat[j]
}

/// Turns the local triangles of a primitive, from the `j`-th on, into surface triangles whose
/// vertices follow the `base` vertices already collected.
pub open spec fn local_triangles(
    base: int,
    count: int,
    local: Seq<int>,
    flat: Seq<bool>,
    j: int,
    found: Seq<[usize; 3]>,
) -> Result<Seq<[usize; 3]>, GarmentImportError>
    decreases local.len() / 3 - j,
{
    if j < 0 || j >= local.len() / 3 {
        Ok(found)
    } else {
        let a = local[3 * j];
        let b = local[3 * j + 1];
        let c = local[3 * j + 2];
        if a >= count || b >= count || c >= count {
            Err(GarmentImportError::InvalidGlbIndices)
        } else if a == b || b == c || a == c || flat_at(flat, j) {
            Err(GarmentImportError::DegenerateGlbTriangle)
        } else if base + a > usize::MAX || base + b > usize::MAX || base + c > usize::MAX {
            Err(GarmentImportError::InvalidGlbIndices)
        } else {
            local_triangles(
                base,
                count,
                local,
                flat,
                j + 1,
                found.push([(base + a) as usize, (base + b) as usize, (base + c) as usize]),
            )
        }
    }
}

/// The surface triangles one primitive adds after `base` collected vertices, or why it is refused.
pub open spec fn primitive_triangles(
    base: int,
    positions: Seq<Vec3>,
    read: GlbIndexReadView,
    flat: Seq<bool>,
) -> Result<Seq<[usize; 3]>, GarmentImportError> {
    let local = local_indices(read, positions.len() as int);
    if !positions_are_finite(positions) {
        Err(GarmentImportError::NonFiniteGlbGeometry)
    } else if positions.len() == 0 {
        Err(GarmentImportError::MissingGlbPositions)
    } else if read is Unreadable || local.len() == 0 || local.len() % 3 != 0 {
        Err(GarmentImportError::InvalidGlbIndices)
    } else {
        local_triangles(base, positions.len() as int, local, flat, 0, Seq::empty())
    }
}

proof fn lemma_local_triangles_shape(
    base: int,
    count: int,
    local: Seq<int>,
    flat: Seq<bool>,
    j: int,
    found: Seq<[usize; 3]>,
)
    requires
        0 <= j <= local.len() / 3,
        0 <= base,
        forall|i: int| 0 <= i < local.len() ==> 0 <= #[trigger] local[i],
    ensures
        local_triangles(base, count, local, flat, j, found) matches Ok(result) ==> {
            &&& result.len() == found.len() + local.len() / 3 - j
            &&& result.take(found.len() as int) == found
            &&& forall|t: int, k: int|
                found.len() <= t < result.len() && 0 <= k < 3 ==> #[trigger] result[t][k] == base
                    + local[3 * (t - found.len() + j) + k]
        },
    decreases local.len() / 3 - j,
{
    if j < local.len() / 3 {
        assert(3 * j + 2 < local.len()) by (nonlinear_arith)
            requires
                j < local.len() / 3,
                0 <= j,
        ;
        let a = local[3 * j];
        let b = local[3 * j + 1];
        let c = local[3 * j + 2];
        let pushed = found.push([(base + a) as usize, (base + b) as usize, (base + c) as usize]);
        lemma_local_triangles_shape(base, count, local, flat, j + 1, pushed);
        if let Ok(result) = local_triangles(base, count, local, flat, j, found) {
            assert(!(a >= count || b >= count || c >= count));
            assert(!(base + a > usize::MAX || base + b > usize::MAX || base + c > usize::MAX));
            assert(local_triangles(base, count, local, flat, j + 1, pushed) == Ok::<
                Seq<[usize; 3]>,
                GarmentImportError,
            >(result));
            assert(result.take(found.len() as int) =~= found) by {
                assert forall|t: int| 0 <= t < found.len() implies result[t] == found[t] by {
                    assert(result.take(pushed.len() as int)[t] == pushed[t]);
                }
            }
            assert forall|t: int, k: int|
                found.len() <= t < result.len() && 0 <= k < 3 implies #[trigger] result[t][k]
                == base + local[3 * (t - found.len() + j) + k] by {
                if t == found.len() {
                    assert(result.take(pushed.len() as int)[t] == pushed[t]);
                    assert(base + a >= 0 && base + b >= 0 && base + c >= 0);
                } else {
                    assert(result[t][k] == base + local[3 * (t - pushed.len() + (j + 1)) + k]);
                }
            }
        }
    }
}

/// The triangles a primitive adds take its index list (or, unindexed, its vertices in order)
/// three entries at a time, in order: triangle `j` is made of entries `3j`, `3j + 1` and
/// `3j + 2`, each shifted past the `base` vertices collected before it, so every entry belongs to
/// exactly one triangle and none is skipped or repeated. An unreadable list adds nothing.
pub proof fn lemma_primitive_triangles_take_consecutive_triples(
    base: int,
    positions: Seq<Vec3>,
    read: GlbIndexReadView,
    flat: Seq<bool>,
)
    requires
        0 <= base,
    ensures
        primitive_triangles(base, positions, read, flat) matches Ok(added) ==> match read {
            GlbIndexReadView::Listed(list) => {
                &&& added.len() * 3 == list.len()
                &&& forall|j: int, k: int|
                    0 <= j < added.len() && 0 <= k < 3 ==> #[trigger] added[j][k] == base + list[3
                        * j + k]
            },
            GlbIndexReadView::Unindexed => {
                &&& added.len() * 3 == positions.len()
                &&& forall|j: int, k: int|
                    0 <= j < added.len() && 0 <= k < 3 ==> #[trigger] added[j][k] == base + 3 * j
                        + k
            },
            GlbIndexReadView::Unreadable => false,
        },
{
    let local = local_indices(read, positions.len() as int);
    if let Ok(added) = primitive_triangles(base, positions, read, flat) {
        assert forall|i: int| 0 <= i < local.len() implies 0 <= #[trigger] local[i] by {}
        lemma_local_triangles_shape(base, positions.len() as int, local, flat, 0, Seq::empty());
        assert(local.len() % 3 == 0);
        assert(added.len() * 3 == local.len());
        assert forall|j: int, k: int|
            0 <= j < added.len() && 0 <= k < 3 implies #[trigger] added[j][k] == base + local[3
            * j + k] && 0 <= 3 * j + k < local.len() by {
            assert(3 * j + k < 3 * added.len()) by (nonlinear_arith)
                requires
                    j < added.len(),
                    k < 3,
            ;
            assert(added[j][k] == base + local[3 * (j - 0 + 0) + k]);
        }
    }
}

/// What one step of a plan does to the surface collected so far.
pub open spec fn step_effect(
    step: GlbStep,
    read: GlbIndexReadView,
    geometry: GlbStepGeometry,
    positions: Seq<Vec3>,
    triangles: Seq<[usize; 3]>,
) -> Result<(Seq<Vec3>, Seq<[usize; 3]>), GarmentImportError> {
    match step {
        GlbStep::Node { .. } => if transform_is_finite(geometry.world_transform) {
            Ok((positions, triangles))
        } else {
            Err(GarmentImportError::NonFiniteGlbGeometry)
        },
        GlbStep::Primitive { .. } => match geometry.positions {
            None => Err(GarmentImportError::MissingGlbPositions),
            Some(added_positions) => match primitive_triangles(
                positions.len() as int,
                added_positions@,
                read,
                geometry.flat_triangles@,
            ) {
                Err(e) => Err(e),
                Ok(added) => Ok((positions + added_positions@, triangles + added)),
            },
        },
    }
}

/// Applies the steps of a plan from the `i`-th on.
pub open spec fn assemble_from(
    steps: Seq<GlbStep>,
    reads: Seq<GlbIndexReadView>,
    geometry: Seq<GlbStepGeometry>,
    i: int,
    positions: Seq<Vec3>,
    triangles: Seq<[usize; 3]>,
) -> Result<(Seq<Vec3>, Seq<[usize; 3]>), GarmentImportError>
    decreases steps.len() - i,
{
    if i < 0 || i >= steps.len() {
        Ok((positions, triangles))
    } else {
        match step_effect(steps[i], reads[i], geometry[i], positions, triangles) {
            Err(e) => Err(e),
            Ok((more_positions, more_triangles)) => assemble_from(
                steps,
                reads,
                geometry,
                i + 1,
                more_positions,
                more_triangles,
            ),
        }
    }
}

/// The garment surface of a scene: the steps' index reads and geometry in walk order, the walk's
/// own structural error after them, and at least one vertex and one triangle.
pub open spec fn glb_surface(
    steps: Seq<GlbStep>,
    failure: Option<GarmentImportError>,
    reads: Seq<GlbIndexReadView>,
    geometry: Seq<GlbStepGeometry>,
) -> Result<(Seq<Vec3>, Seq<[usize; 3]>), GarmentImportError> {
    match assemble_from(steps, reads, geometry, 0, Seq::empty(), Seq::empty()) {
        Err(e) => Err(e),
        Ok((positions, triangles)) => match failure {
            Some(e) => Err(e),
            None => if positions.len() == 0 {
                Err(GarmentImportError::MissingVertices)
            } else if triangles.len() == 0 {
                Err(GarmentImportError::MissingTriangles)
            } else {
                Ok((positions, triangles))
            },
        },
    }
}

fn transform_finite(matrix: &[u64; 16]) -> (finite: bool)
    ensures
        finite == transform_is_finite(*matrix),
{
    let mut k: usize = 0;
    while k < 16
        invariant
            k <= 16,
            forall|m: int| 0 <= m < k ==> is_finite_bits(#[trigger] matrix[m]),
        decreases 16 - k,
    {
        if !finite_bits(matrix[k]) {
            return false;
        }
        k = k + 1;
    }
    true
}

fn positions_finite(positions: &Vec<Vec3>) -> (finite: bool)
    ensures
        finite == positions_are_finite(positions@),
{
    let mut i: usize = 0;
    while i < positions.len()
        invariant
            i <= positions@.len(),
            forall|m: int| 0 <= m < i ==> (#[trigger] positions@[m]).spec_is_finite(),
        decreases positions.len() - i,
    {
        if !positions[i].is_finite() {
            return false;
        }
        i = i + 1;
    }
    true
}

fn local_index_list(read: &GlbIndexRead, count: usize) -> (local: Vec<usize>)
    ensures
        local@.len() == local_indices(read@, count as int).len(),
        forall|k: int|
            0 <= k < local@.len() ==> local@[k] as int == #[trigger] local_indices(
                read@,
                count as int,
            )[k],
{
    let mut local: Vec<usize> = Vec::new();
    match read {
        GlbIndexRead::Listed(list) => {
            let mut k: usize = 0;
            while k < list.len()
                invariant
                    k <= list@.len(),
                    read@ == GlbIndexReadView::Listed(list@),
                    local@.len() == k,
                    forall|m: int| 0 <= m < k ==> local@[m] as int == list@[m] as int,
                decreases list.len() - k,
            {
                local.push(list[k] as usize);
                k = k + 1;
            }
        },
        GlbIndexRead::Unindexed => {
            let mut k: usize = 0;
            while k < count
                invariant
                    k <= count,
                    read@ == GlbIndexReadView::Unindexed,
                    local@.len() == k,
                    forall|m: int| 0 <= m < k ==> local@[m] as int == m,
                decreases count - k,
            {
                local.push(k);
                k = k + 1;
            }
        },
        GlbIndexRead::Unreadable => {},
    }
    local
}

fn append_primitive(
    positions: &mut Vec<Vec3>,
    triangles: &mut Vec<[usize; 3]>,
    added_positions: &Vec<Vec3>,
    read: &GlbIndexRead,
    flat: &Vec<bool>,
) -> (failure: Option<GarmentImportError>)
    requires
        positions_are_finite(old(positions)@),
        forall|t: int|
            0 <= t < old(triangles)@.len() ==> triangle_is_valid(
                #[trigger] old(triangles)@[t],
                old(positions)@.len() as int,
            ),
    ensures
        match primitive_triangles(
            old(positions)@.len() as int,
            added_positions@,
            read@,
            flat@,
        ) {
            Err(e) => failure == Some(e),
            Ok(added) => {
                &&& failure is None
                &&& final(positions)@ == old(positions)@ + added_positions@
                &&& final(triangles)@ == old(triangles)@ + added
            },
        },
        positions_are_finite(final(positions)@),
        forall|t: int|
            0 <= t < final(triangles)@.len() ==> triangle_is_valid(
                #[trigger] final(triangles)@[t],
                final(positions)@.len() as int,
            ),
{
    let ghost target = primitive_triangles(
        positions@.len() as int,
        added_positions@,
        read@,
        flat@,
    );
    if !positions_finite(added_positions) {
        return Some(GarmentImportError::NonFiniteGlbGeometry);
    }
    let count = added_positions.len();
    if count == 0 {
        return Some(GarmentImportError::MissingGlbPositions);
    }
    let unreadable = match read {
        GlbIndexRead::Unreadable => true,
        _ => false,
    };
    let local = local_index_list(read, count);
    proof {
        assert(local@.map_values(|v: usize| v as int) =~= local_indices(read@, count as int));
    }
    if unreadable || local.len() == 0 || local.len() % 3 != 0 {
        return Some(GarmentImportError::InvalidGlbIndices);
    }
    let base = positions.len();
    let ghost spec_local = local_indices(read@, count as int);
    let triangle_count = local.len() / 3;
    let mut added: Vec<[usize; 3]> = Vec::new();
    let mut j: usize = 0;
    while j < triangle_count
        invariant
            triangle_count == local@.len() / 3,
            local@.len() == spec_local.len(),
            forall|k: int| 0 <= k < local@.len() ==> local@[k] as int == #[trigger] spec_local[k],
            j <= triangle_count,
            base == old(positions)@.len(),
            positions@ == old(positions)@,
            triangles@ == old(triangles)@,
            positions_are_finite(old(positions)@),
            forall|t: int|
                0 <= t < old(triangles)@.len() ==> triangle_is_valid(
                    #[trigger] old(triangles)@[t],
                    old(positions)@.len() as int,
                ),
            count == added_positions@.len(),
            count > 0,
            positions_are_finite(added_positions@),
            spec_local == local_indices(read@, count as int),
            !(read@ is Unreadable),
            spec_local.len() > 0,
            spec_local.len() % 3 == 0,
            target == primitive_triangles(
                old(positions)@.len() as int,
                added_positions@,
                read@,
                flat@,
            ),
            target == local_triangles(
                base as int,
                count as int,
                spec_local,
                flat@,
                0,
                Seq::empty(),
            ),
            local_triangles(
                base as int,
                count as int,
                spec_local,
                flat@,
                j as int,
                added@,
            ) == target,
            forall|t: int|
                0 <= t < added@.len() ==> triangle_is_valid(
                    #[trigger] added@[t],
                    base + count,
                ),
        decreases triangle_count - j,
    {
        assert(3 * j + 2 < local.len()) by (nonlinear_arith)
            requires
                j < triangle_count,
                triangle_count == local.len() / 3,
        ;
        let a = local[3 * j];
        let b = local[3 * j + 1];
        let c = local[3 * j + 2];
        if a >= count || b >= count || c >= count {
            return Some(GarmentImportError::InvalidGlbIndices);
        }
        if a == b || b == c || a == c || (j < flat.len() && flat[j]) {
            return Some(GarmentImportError::DegenerateGlbTriangle);
        }
        let shifted_a = base.checked_add(a);
        let shifted_b = base.checked_add(b);
        let shifted_c = base.checked_add(c);
        match (shifted_a, shifted_b, shifted_c) {
            (Some(x), Some(y), Some(z)) => {
                added.push([x, y, z]);
            },
            _ => {
                return Some(GarmentImportError::InvalidGlbIndices);
            },
        }
        j = j + 1;
    }
    let ghost before_triangles = triangles@;
    let ghost before_positions = positions@;
    let mut k: usize = 0;
    while k < added.len()
        invariant
            k <= added@.len(),
            triangles@ == before_triangles + added@.take(k as int),
        decreases added.len() - k,
    {
        triangles.push(added[k]);
        proof {
            assert(added@.take(k + 1) =~= added@.take(k as int).push(added@[k as int]));
        }
        k = k + 1;
    }
    let mut m: usize = 0;
    while m < count
        invariant
            m <= count,
            count == added_positions@.len(),
            positions@ == before_positions + added_positions@.take(m as int),
        decreases count - m,
    {
        positions.push(added_positions[m]);
        proof {
            assert(added_positions@.take(m + 1) =~= added_positions@.take(m as int).push(
                added_positions@[m as int],
            ));
        }
        m = m + 1;
    }
    proof {
        assert(added@.take(added@.len() as int) =~= added@);
        assert(added_positions@.take(count as int) =~= added_positions@);
        assert forall|t: int| 0 <= t < triangles@.len() implies triangle_is_valid(
            #[trigger] triangles@[t],
            positions@.len() as int,
        ) by {
            if t >= before_triangles.len() {
                assert(triangles@[t] == added@[t - before_triangles.len()]);
            }
        }
        assert forall|i: int| 0 <= i < positions@.len() implies (
        #[trigger] positions@[i]).spec_is_finite() by {
            if i >= before_positions.len() {
                assert(positions@[i] == added_positions@[i - before_positions.len()]);
            }
        }
    }
    None
}


/// Lets `gltf::Gltf`, the parsed document of the `gltf` crate, stand in signatures and fields.
#[verifier::external_type_specification]
#[verifier::external_body]
pub struct ExGltf(gltf::Gltf);

/// Where a glTF buffer keeps its bytes: in the binary chunk of the `.glb`, or behind a URI.
#[derive(Clone, Copy, Debug, PartialEq, Eq, Structural)]
pub enum GlbBufferSource {
    Embedded,
    External,
}

/// Document-level facts of a parsed glTF: how many animations it has, where each buffer lives,
/// the length of its binary chunk if it has one, its default scene if it names one, and the root
/// nodes of each scene in order.
#[derive(Clone, Debug)]
pub struct GlbDocumentFacts {
    pub animation_count: usize,
    pub buffer_sources: Vec<GlbBufferSource>,
    pub binary_chunk_length: Option<usize>,
    pub default_scene: Option<usize>,
    pub scene_roots: Vec<Vec<usize>>,
}

/// The bytes begin with the binary glTF magic `glTF`.
pub open spec fn glb_magic(bytes: Seq<u8>) -> bool {
    &&& bytes.len() >= 4
    &&& bytes[0] == 0x67u8
    &&& bytes[1] == 0x6cu8
    &&& bytes[2] == 0x54u8
    &&& bytes[3] == 0x46u8
}

/// The document-level checks of a parsed `.glb`, in order, and the scene they select: no
/// animation, no external buffer, a binary chunk, then the default scene, or else the only one.
pub open spec fn glb_document_check(
    animation_count: usize,
    buffer_sources: Seq<GlbBufferSource>,
    binary_chunk_length: Option<usize>,
    default_scene: Option<usize>,
    scene_count: int,
) -> Result<usize, GarmentImportError> {
    if animation_count > 0 {
        Err(GarmentImportError::UnsupportedGlbAnimation)
    } else if exists|i: int|
        0 <= i < buffer_sources.len() && #[trigger] buffer_sources[i] == GlbBufferSource::External {
        Err(GarmentImportError::ExternalGlbBuffer)
    } else if binary_chunk_length is None {
        Err(GarmentImportError::MissingGlbBinaryChunk)
    } else {
        match default_scene {
            Some(scene) => Ok(scene),
            None => if scene_count == 0 {
                Err(GarmentImportError::MissingGlbScene)
            } else if scene_count > 1 {
                Err(GarmentImportError::AmbiguousGlbScene)
            } else {
                Ok(0)
            },
        }
    }
}

/// The spec-level content of a node's facts.
pub ghost struct GlbNodeView {
    pub children: Seq<usize>,
    pub skin: Option<usize>,
    pub weight_count: Option<usize>,
    pub mesh: Option<usize>,
}

impl View for GlbNodeFacts {
    type V = GlbNodeView;

    open spec fn view(&self) -> GlbNodeView {
        GlbNodeView {
            children: self.children@,
            skin: self.skin,
            weight_count: self.weight_count,
            mesh: self.mesh,
        }
    }
}

/// The spec-level content of a mesh's facts.
pub ghost struct GlbMeshView {
    pub weight_count: Option<usize>,
    pub primitives: Seq<GlbPrimitiveFacts>,
}

impl View for GlbMeshFacts {
    type V = GlbMeshView;

    open spec fn view(&self) -> GlbMeshView {
        GlbMeshView { weight_count: self.weight_count, primitives: self.primitives@ }
    }
}

/// The spec-level content of the document-level facts.
pub ghost struct GlbDocumentView {
    pub animation_count: usize,
    pub buffer_sources: Seq<GlbBufferSource>,
    pub binary_chunk_length: Option<usize>,
    pub default_scene: Option<usize>,
    pub scene_roots: Seq<Seq<usize>>,
}

impl View for GlbDocumentFacts {
    type V = GlbDocumentView;

    open spec fn view(&self) -> GlbDocumentView {
        GlbDocumentView {
            animation_count: self.animation_count,
            buffer_sources: self.buffer_sources@,
            binary_chunk_length: self.binary_chunk_length,
            default_scene: self.default_scene,
            scene_roots: self.scene_roots@.map_values(|roots: Vec<usize>| roots@),
        }
    }
}

/// Whether `gltf::Gltf::from_slice` accepts `bytes`: they read as glTF and the document validates.
pub uninterp spec fn glb_parses(bytes: Seq<u8>) -> bool;

/// What `gltf::Gltf::from_slice_without_validation` reads from `bytes`, if it reads them: the
/// number of accessors, and the `POSITION` accessor index of every primitive of every mesh, in
/// document order (`None` for a primitive without one).
pub uninterp spec fn glb_position_references(bytes: Seq<u8>) -> Option<(usize, Seq<Option<usize>>)>;

/// The document-level facts of the document that `gltf::Gltf::from_slice` parses from `bytes`.
pub uninterp spec fn glb_document_facts(bytes: Seq<u8>) -> GlbDocumentView;

/// The nodes, in document order, of the document that `gltf::Gltf::from_slice` parses from `bytes`.
pub uninterp spec fn glb_node_facts(bytes: Seq<u8>) -> Seq<GlbNodeView>;

/// The meshes, in document order, of the document that `gltf::Gltf::from_slice` parses from
/// `bytes`.
pub uninterp spec fn glb_mesh_facts(bytes: Seq<u8>) -> Seq<GlbMeshView>;

/// How an accessor lays out its elements: the GL code of its component type, the number of
/// components per element (1 for a scalar), its element count, its byte offset into its buffer
/// view, and that view if it names one.
#[derive(Clone, Copy, Debug, PartialEq, Eq, Structural)]
pub struct GlbAccessorLayout {
    pub component_type: u32,
    pub multiplicity: usize,
    pub count: usize,
    pub offset: usize,
    pub view: Option<usize>,
}

/// The sparse part of an accessor: how many elements it replaces, the byte size of each of its
/// indices, and the offset into, and the buffer view of, its index list and its value list.
#[derive(Clone, Copy, Debug, PartialEq, Eq, Structural)]
pub struct GlbSparseLayout {
    pub count: usize,
    pub index_size: usize,
    pub indices_offset: usize,
    pub indices_view: usize,
    pub values_offset: usize,
    pub values_view: usize,
}

/// A buffer view: its byte offset into its buffer, its byte length, and its stride if it gives a
/// non-zero one.
#[derive(Clone, Copy, Debug, PartialEq, Eq, Structural)]
pub struct GlbViewLayout {
    pub offset: usize,
    pub length: usize,
    pub stride: Option<usize>,
}

/// The accessors, in document order, of the document that `gltf::Gltf::from_slice` parses from
/// `bytes`.
pub uninterp spec fn glb_accessor_layouts(bytes: Seq<u8>) -> Seq<GlbAccessorLayout>;

/// For each accessor, in document order, of the document that `gltf::Gltf::from_slice` parses
/// from `bytes`, its sparse part if it has one.
pub uninterp spec fn glb_sparse_layouts(bytes: Seq<u8>) -> Seq<Option<GlbSparseLayout>>;

/// The buffer views, in document order, of the document that `gltf::Gltf::from_slice` parses
/// from `bytes`.
pub uninterp spec fn glb_view_layouts(bytes: Seq<u8>) -> Seq<GlbViewLayout>;

/// What the `gltf` crate's primitive reader yields, through `read_indices` and `into_u32`, for
/// primitive `primitive` of mesh `mesh` of the document that `gltf::Gltf::from_slice` parses from
/// `bytes`, with the binary chunk as the data of the embedded buffer; `None` when it yields no
/// index list.
pub uninterp spec fn glb_primitive_indices(bytes: Seq<u8>, mesh: usize, primitive: usize) -> Option<Seq<u32>>;

/// The byte size of an index of GL component type `component_type`: 1, 2 or 4 for the unsigned
/// byte, short and int codes, 0 for any other type (which cannot index).
pub open spec fn index_component_size(component_type: u32) -> int {
    if component_type == 5121 {
        1
    } else if component_type == 5123 {
        2
    } else if component_type == 5125 {
        4
    } else {
        0
    }
}

/// Reading `count` elements of `size` bytes from byte `offset` of buffer view `view` stays within
/// what the `gltf` crate's accessor iterator can compute: the view exists, there is at least one
/// element, its stride (the element size when it gives none) covers an element, and neither the
/// end of the read nor the end of the view overflows `usize`.
pub open spec fn view_read_is_safe(
    views: Seq<GlbViewLayout>,
    view: usize,
    offset: usize,
    count: usize,
    size: int,
) -> bool {
    &&& view < views.len()
    &&& count >= 1
    &&& {
        let layout = views[view as int];
        let stride = match layout.stride {
            Some(s) => s as int,
            None => size,
        };
        &&& stride >= size
        &&& offset + stride * (count - 1) + size <= usize::MAX
        &&& layout.offset + layout.length <= usize::MAX
    }
}

/// Reading accessor `accessor` as an index list does not make the `gltf` crate panic: it has an
/// unsigned integer component type, and either it is dense, scalar and its view (if any) reads
/// safely, or it is sparse with at most `u32::MAX` elements and its base view (if any), its
/// sparse indices and its sparse values read safely.
pub open spec fn index_read_is_safe(
    accessors: Seq<GlbAccessorLayout>,
    sparse: Seq<Option<GlbSparseLayout>>,
    views: Seq<GlbViewLayout>,
    accessor: usize,
) -> bool {
    &&& accessor < accessors.len()
    &&& accessor < sparse.len()
    &&& {
        let layout = accessors[accessor as int];
        let size = index_component_size(layout.component_type);
        &&& size > 0
        &&& (layout.view matches Some(view) ==> view_read_is_safe(
            views,
            view,
            layout.offset,
            layout.count,
            size,
        ))
        &&& match sparse[accessor as int] {
            None => layout.multiplicity == 1,
            Some(part) => {
                &&& layout.count <= u32::MAX
                &&& view_read_is_safe(
                    views,
                    part.indices_view,
                    part.indices_offset,
                    part.count,
                    part.index_size as int,
                )
                &&& view_read_is_safe(views, part.values_view, part.values_offset, part.count, size)
            },
        }
    }
}

/// What reading the index list of `step` gives for the document parsed from `bytes`: nothing for
/// a node visit, a primitive without an index accessor, or one whose reader yields no list; the
/// list the reader yields; or unreadable, for a primitive the document does not have or an index
/// accessor that does not read safely.
pub open spec fn expected_index_read(bytes: Seq<u8>, step: GlbStep) -> GlbIndexReadView {
    match step {
        GlbStep::Node { .. } => GlbIndexReadView::Unindexed,
        GlbStep::Primitive { mesh, primitive, .. } => {
            let meshes = glb_mesh_facts(bytes);
            if mesh >= meshes.len() || primitive >= meshes[mesh as int].primitives.len() {
                GlbIndexReadView::Unreadable
            } else {
                match meshes[mesh as int].primitives[primitive as int].indices {
                    None => GlbIndexReadView::Unindexed,
                    Some(accessor) => if !index_read_is_safe(
                        glb_accessor_layouts(bytes),
                        glb_sparse_layouts(bytes),
                        glb_view_layouts(bytes),
                        accessor,
                    ) {
                        GlbIndexReadView::Unreadable
                    } else {
                        match glb_primitive_indices(bytes, mesh, primitive) {
                            None => GlbIndexReadView::Unindexed,
                            Some(list) => GlbIndexReadView::Listed(list),
                        }
                    },
                }
            }
        },
    }
}

/// The index reads of every step of a plan, in order.
pub open spec fn expected_index_reads(bytes: Seq<u8>, steps: Seq<GlbStep>) -> Seq<GlbIndexReadView> {
    Seq::new(steps.len(), |i: int| expected_index_read(bytes, steps[i]))
}

/// The little-endian `u32` stored at byte `k`.
pub open spec fn le_u32_at(bytes: Seq<u8>, k: int) -> int {
    bytes[k] + 256 * bytes[k + 1] + 65536 * bytes[k + 2] + 16777216 * bytes[k + 3]
}

/// A binary glTF header whose total length is at least the header's own twelve bytes (a shorter
/// one would make the `gltf` crate subtract below zero).
pub open spec fn glb_header_is_sound(bytes: Seq<u8>) -> bool {
    bytes.len() < 12 || !glb_magic(bytes) || le_u32_at(bytes, 8) >= 12
}

/// Every `POSITION` reference names an existing accessor (the `gltf` crate's validation indexes
/// the accessor list with it).
pub open spec fn positions_resolve(references: Option<(usize, Seq<Option<usize>>)>) -> bool {
    match references {
        None => true,
        Some((count, list)) => forall|k: int|
            0 <= k < list.len() ==> (#[trigger] list[k] matches Some(index) ==> index < count),
    }
}

/// Opening a `.glb`: magic, a sound header, resolvable `POSITION` references, a document the
/// `gltf` crate accepts, then the document-level checks; on success, the document's facts, the
/// selected scene, its nodes and its meshes.
pub open spec fn glb_open_result(bytes: Seq<u8>) -> Result<
    (GlbDocumentView, usize, Seq<GlbNodeView>, Seq<GlbMeshView>),
    GarmentImportError,
> {
    if !glb_magic(bytes) || !glb_header_is_sound(bytes) || !positions_resolve(
        glb_position_references(bytes),
    ) || !glb_parses(bytes) {
        Err(GarmentImportError::InvalidGlb)
    } else {
        let facts = glb_document_facts(bytes);
        match glb_document_check(
            facts.animation_count,
            facts.buffer_sources,
            facts.binary_chunk_length,
            facts.default_scene,
            facts.scene_roots.len() as int,
        ) {
            Ok(scene) => Ok((facts, scene, glb_node_facts(bytes), glb_mesh_facts(bytes))),
            Err(e) => Err(e),
        }
    }
}

/// `gltf::Gltf::from_slice_without_validation`, then, from the JSON root it read, the number of
/// accessors and the `POSITION` accessor index of every primitive of every mesh. The result is
/// named as a function of the bytes; `None` when the bytes do not read as glTF.
#[verifier::external_body]
fn position_references(bytes: &[u8]) -> (references: Option<(usize, Vec<Option<usize>>)>)
    requires
        glb_header_is_sound(bytes@),
    ensures
        match references {
            None => glb_position_references(bytes@) is None,
            Some((count, list)) => glb_position_references(bytes@) == Some((count, list@)),
        },
{
    let unchecked = gltf::Gltf::from_slice_without_validation(bytes).ok()?;
    let root = unchecked.document.as_json();
    let positions = gltf::json::validation::Checked::Valid(gltf::json::mesh::Semantic::Positions);
    Some((root.accessors.len(), root.meshes.iter().flat_map(|mesh| mesh.primitives.iter().map(
        |primitive| primitive.attributes.get(&positions).map(|index| index.value()),
    )).collect()))
}

/// `gltf::Gltf::from_slice`: parses binary glTF (or glTF JSON) and validates the document; `None`
/// exactly when the crate rejects the bytes, which is named as a function of the bytes. The
/// `requires` keeps out the two inputs on which the crate panics.
#[verifier::external_body]
fn parse_gltf(bytes: &[u8]) -> (document: Option<gltf::Gltf>)
    requires
        glb_header_is_sound(bytes@),
        positions_resolve(glb_position_references(bytes@)),
    ensures
        document is Some <==> glb_parses(bytes@),
{
    gltf::Gltf::from_slice(bytes).ok()
}

/// `gltf::Gltf::from_slice`, then the document-level facts through `animations`, `buffers` and
/// `Buffer::source`, the `blob` field, `default_scene` and `scenes`/`Scene::nodes`. `None` exactly
/// when the crate rejects the bytes; the facts are named as a function of the bytes. The crate
/// resolves the default scene by position among the scenes (validation bounds its index), so a
/// default scene is one of the listed scenes.
#[verifier::external_body]
fn document_facts(bytes: &[u8]) -> (facts: Option<GlbDocumentFacts>)
    requires
        glb_header_is_sound(bytes@),
        positions_resolve(glb_position_references(bytes@)),
    ensures
        facts is Some <==> glb_parses(bytes@),
        facts matches Some(found) ==> found@ == glb_document_facts(bytes@),
        facts matches Some(found) ==> (found.default_scene matches Some(scene) ==> scene
            < found.scene_roots@.len()),
{
    let document = gltf::Gltf::from_slice(bytes).ok()?;
    Some(GlbDocumentFacts {
        animation_count: document.animations().len(),
        buffer_sources: document.buffers().map(|buffer| match buffer.source() {
            gltf::buffer::Source::Bin => GlbBufferSource::Embedded,
            gltf::buffer::Source::Uri(_) => GlbBufferSource::External,
        }).collect(),
        binary_chunk_length: document.blob.as_ref().map(|blob| blob.len()),
        default_scene: document.default_scene().map(|scene| scene.index()),
        scene_roots: document.scenes().map(|scene| scene.nodes().map(|node| node.index()).collect()).collect(),
    })
}

/// `gltf::Gltf::from_slice`, then every node, in document order, through `nodes`,
/// `Node::children`, `Node::skin`, `Node::weights` and `Node::mesh`. `None` exactly when the crate
/// rejects the bytes; the nodes are named as a function of the bytes.
#[verifier::external_body]
fn node_facts(bytes: &[u8]) -> (nodes: Option<Vec<GlbNodeFacts>>)
    requires
        glb_header_is_sound(bytes@),
        positions_resolve(glb_position_references(bytes@)),
    ensures
        nodes is Some <==> glb_parses(bytes@),
        nodes matches Some(found) ==> found@.map_values(|node: GlbNodeFacts| node@)
            == glb_node_facts(bytes@),
{
    let document = gltf::Gltf::from_slice(bytes).ok()?;
    Some(document.nodes().map(|node| GlbNodeFacts {
        children: node.children().map(|child| child.index()).collect(),
        skin: node.skin().map(|skin| skin.index()),
        weight_count: node.weights().map(|weights| weights.len()),
        mesh: node.mesh().map(|mesh| mesh.index()),
    }).collect())
}

/// `gltf::Gltf::from_slice`, then every mesh, in document order, through `meshes`,
/// `Mesh::weights`, `Mesh::primitives`, `Primitive::mode`, `Primitive::morph_targets` and the
/// index of `Primitive::indices`. `None`
/// exactly when the crate rejects the bytes; the meshes are named as a function of the bytes.
#[verifier::external_body]
fn mesh_facts(bytes: &[u8]) -> (meshes: Option<Vec<GlbMeshFacts>>)
    requires
        glb_header_is_sound(bytes@),
        positions_resolve(glb_position_references(bytes@)),
    ensures
        meshes is Some <==> glb_parses(bytes@),
        meshes matches Some(found) ==> found@.map_values(|mesh: GlbMeshFacts| mesh@)
            == glb_mesh_facts(bytes@),
{
    let document = gltf::Gltf::from_slice(bytes).ok()?;
    Some(document.meshes().map(|mesh| GlbMeshFacts {
        weight_count: mesh.weights().map(|weights| weights.len()),
        primitives: mesh.primitives().map(|primitive| GlbPrimitiveFacts {
            mode: primitive.mode().as_gl_enum(),
            morph_target_count: primitive.morph_targets().len(),
            indices: primitive.indices().map(|accessor| accessor.index()),
        }).collect(),
    }).collect())
}

/// `gltf::Gltf::from_slice`, then every accessor, in document order, through `accessors`,
/// `Accessor::data_type` (as its GL code), `Accessor::dimensions` (its multiplicity),
/// `Accessor::count`, `Accessor::offset` and `Accessor::view`. `None` exactly when the crate
/// rejects the bytes; the layouts are named as a function of the bytes.
#[verifier::external_body]
fn accessor_layouts(bytes: &[u8]) -> (layouts: Option<Vec<GlbAccessorLayout>>)
    requires
        glb_header_is_sound(bytes@),
        positions_resolve(glb_position_references(bytes@)),
    ensures
        layouts is Some <==> glb_parses(bytes@),
        layouts matches Some(found) ==> found@ == glb_accessor_layouts(bytes@),
{
    let document = gltf::Gltf::from_slice(bytes).ok()?;
    Some(document.accessors().map(|accessor| GlbAccessorLayout {
        component_type: accessor.data_type().as_gl_enum(),
        multiplicity: accessor.dimensions().multiplicity(),
        count: accessor.count(),
        offset: accessor.offset(),
        view: accessor.view().map(|view| view.index()),
    }).collect())
}

/// `gltf::Gltf::from_slice`, then, for every accessor in document order, `Accessor::sparse` and,
/// where it is present, `Sparse::count`, the size of `Indices::index_type`, and the offset and
/// view index of its `indices` and its `values`. `None` exactly when the crate rejects the bytes;
/// the layouts are named as a function of the bytes.
#[verifier::external_body]
fn sparse_layouts(bytes: &[u8]) -> (layouts: Option<Vec<Option<GlbSparseLayout>>>)
    requires
        glb_header_is_sound(bytes@),
        positions_resolve(glb_position_references(bytes@)),
    ensures
        layouts is Some <==> glb_parses(bytes@),
        layouts matches Some(found) ==> found@ == glb_sparse_layouts(bytes@),
{
    let document = gltf::Gltf::from_slice(bytes).ok()?;
    Some(document.accessors().map(|accessor| accessor.sparse().map(|sparse| GlbSparseLayout {
        count: sparse.count(),
        index_size: sparse.indices().index_type().size(),
        indices_offset: sparse.indices().offset(),
        indices_view: sparse.indices().view().index(),
        values_offset: sparse.values().offset(),
        values_view: sparse.values().view().index(),
    })).collect())
}

/// `gltf::Gltf::from_slice`, then every buffer view, in document order, through `views`,
/// `View::offset`, `View::length` and `View::stride`. `None` exactly when the crate rejects the
/// bytes; the layouts are named as a function of the bytes.
#[verifier::external_body]
fn view_layouts(bytes: &[u8]) -> (layouts: Option<Vec<GlbViewLayout>>)
    requires
        glb_header_is_sound(bytes@),
        positions_resolve(glb_position_references(bytes@)),
    ensures
        layouts is Some <==> glb_parses(bytes@),
        layouts matches Some(found) ==> found@ == glb_view_layouts(bytes@),
{
    let document = gltf::Gltf::from_slice(bytes).ok()?;
    Some(document.views().map(|view| GlbViewLayout {
        offset: view.offset(),
        length: view.length(),
        stride: view.stride(),
    }).collect())
}

/// `gltf::Gltf::from_slice`, then primitive `primitive` of mesh `mesh` through `meshes` and
/// `Mesh::primitives`, its `reader` over the binary chunk (for the embedded buffer; no data for a
/// buffer behind a URI), `Reader::read_indices` and `ReadIndices::into_u32`, collected. The list
/// is named as a function of the bytes and the two positions. The `requires` keeps out the inputs
/// on which the crate panics: bytes it would panic on or reject, a mesh or primitive that does
/// not exist, and an index accessor that does not read safely (`index_read_is_safe`).
#[verifier::external_body]
fn read_primitive_indices(bytes: &[u8], mesh: usize, primitive: usize) -> (indices: Option<Vec<u32>>)
    requires
        glb_header_is_sound(bytes@),
        positions_resolve(glb_position_references(bytes@)),
        glb_parses(bytes@),
        mesh < glb_mesh_facts(bytes@).len(),
        primitive < glb_mesh_facts(bytes@)[mesh as int].primitives.len(),
        glb_mesh_facts(bytes@)[mesh as int].primitives[primitive as int].indices matches Some(
            accessor,
        ) ==> index_read_is_safe(
            glb_accessor_layouts(bytes@),
            glb_sparse_layouts(bytes@),
            glb_view_layouts(bytes@),
            accessor,
        ),
    ensures
        match indices {
            None => glb_primitive_indices(bytes@, mesh, primitive) is None,
            Some(list) => glb_primitive_indices(bytes@, mesh, primitive) == Some(list@),
        },
{
    let document = gltf::Gltf::from_slice(bytes).ok()?;
    let blob = document.blob.as_deref();
    let primitive = document.meshes().nth(mesh)?.primitives().nth(primitive)?;
    let reader = primitive.reader(|buffer| match buffer.source() {
        gltf::buffer::Source::Bin => blob,
        gltf::buffer::Source::Uri(_) => None,
    });
    reader.read_indices().map(|indices| indices.into_u32().collect())
}

/// A parsed `.glb` garment whose document-level checks passed, with the scene to flatten.
pub struct GlbDocument {
    bytes: Vec<u8>,
    gltf: gltf::Gltf,
    facts: GlbDocumentFacts,
    scene: usize,
    nodes: Vec<GlbNodeFacts>,
    meshes: Vec<GlbMeshFacts>,
    accessors: Vec<GlbAccessorLayout>,
    sparse: Vec<Option<GlbSparseLayout>>,
    views: Vec<GlbViewLayout>,
}

impl GlbDocument {
    /// The selected scene exists, and the document's bytes are ones the `gltf` crate parses
    /// without panicking, whose meshes and accessor layouts are the ones held.
    #[verifier::type_invariant]
    spec fn well_formed(self) -> bool {
        &&& self.scene < self.facts.scene_roots@.len()
        &&& glb_header_is_sound(self.bytes@)
        &&& positions_resolve(glb_position_references(self.bytes@))
        &&& glb_parses(self.bytes@)
        &&& self.meshes@.map_values(|mesh: GlbMeshFacts| mesh@) == glb_mesh_facts(self.bytes@)
        &&& self.accessors@ == glb_accessor_layouts(self.bytes@)
        &&& self.sparse@ == glb_sparse_layouts(self.bytes@)
        &&& self.views@ == glb_view_layouts(self.bytes@)
    }

    /// The bytes the document was opened from.
    pub closed spec fn spec_bytes(&self) -> Seq<u8> {
        self.bytes@
    }

    /// The document-level facts the checks ran on.
    pub closed spec fn spec_facts(&self) -> GlbDocumentFacts {
        self.facts
    }

    /// The selected scene.
    pub closed spec fn spec_scene(&self) -> usize {
        self.scene
    }

    /// The document's nodes.
    pub closed spec fn spec_nodes(&self) -> Seq<GlbNodeFacts> {
        self.nodes@
    }

    /// The document's meshes.
    pub closed spec fn spec_meshes(&self) -> Seq<GlbMeshFacts> {
        self.meshes@
    }

    /// The root nodes of the selected scene.
    pub closed spec fn spec_roots(&self) -> Seq<usize> {
        self.facts.scene_roots@[self.scene as int]@
    }

    /// The parsed document whose facts the checks ran on.
    pub closed spec fn spec_gltf(&self) -> gltf::Gltf {
        self.gltf
    }

    /// The parsed document, for reading vertex data and node transforms.
    pub fn gltf(&self) -> (document: &gltf::Gltf)
        ensures
            *document == self.spec_gltf(),
    {
        &self.gltf
    }

    /// The document's meshes.
    pub fn meshes(&self) -> (meshes: &Vec<GlbMeshFacts>)
        ensures
            meshes@ == self.spec_meshes(),
    {
        &self.meshes
    }

    /// The selected scene.
    pub fn scene(&self) -> (scene: usize)
        ensures
            scene == self.spec_scene(),
    {
        self.scene
    }

    /// The walk of the selected scene (see [`GlbGarmentImporter::plan_scene`]).
    pub fn plan(&self) -> (plan: GlbScenePlan)
        ensures
            (plan.steps@, plan.failure) == walk_scene(
                self.spec_nodes(),
                self.spec_meshes(),
                self.spec_roots(),
            ),
            plan_is_ordered(plan.steps@),
    {
        proof {
            use_type_invariant(self);
        }
        GlbGarmentImporter::plan_scene(&self.nodes, &self.meshes, &self.facts.scene_roots[self.scene])
    }

    /// Reads the index list of every step of `plan`: a primitive's index accessor is read through
    /// the `gltf` crate's primitive reader when its layout reads safely, and is unreadable
    /// otherwise; a node visit, a primitive without an index accessor and one whose reader yields
    /// no list have nothing to read; a primitive the document does not have is unreadable.
    pub fn index_reads(&self, plan: &GlbScenePlan) -> (reads: Vec<GlbIndexRead>)
        ensures
            reads@.len() == plan.steps@.len(),
            forall|i: int|
                0 <= i < reads@.len() ==> (#[trigger] reads@[i])@ == expected_index_read(
                    self.spec_bytes(),
                    plan.steps@[i],
                ),
    {
        proof {
            use_type_invariant(self);
        }
        let mut reads: Vec<GlbIndexRead> = Vec::new();
        let mut i: usize = 0;
        while i < plan.steps.len()
            invariant
                i <= plan.steps@.len(),
                reads@.len() == i,
                forall|k: int|
                    0 <= k < i ==> (#[trigger] reads@[k])@ == expected_index_read(
                        self.bytes@,
                        plan.steps@[k],
                    ),
            decreases plan.steps.len() - i,
        {
            let read = self.index_read(plan.steps[i]);
            reads.push(read);
            i = i + 1;
        }
        reads
    }

    fn index_read(&self, step: GlbStep) -> (read: GlbIndexRead)
        ensures
            read@ == expected_index_read(self.bytes@, step),
    {
        proof {
            use_type_invariant(self);
        }
        match step {
            GlbStep::Node { .. } => GlbIndexRead::Unindexed,
            GlbStep::Primitive { mesh, primitive, .. } => {
                proof {
                    assert(self.meshes@.len() == glb_mesh_facts(self.bytes@).len());
                }
                if mesh >= self.meshes.len() || primitive >= self.meshes[mesh].primitives.len() {
                    return GlbIndexRead::Unreadable;
                }
                proof {
                    assert(self.meshes@[mesh as int]@ == glb_mesh_facts(self.bytes@)[mesh as int]);
                }
                match self.meshes[mesh].primitives[primitive].indices {
                    None => GlbIndexRead::Unindexed,
                    Some(accessor) => {
                        if !GlbGarmentImporter::index_read_safe(
                            &self.accessors,
                            &self.sparse,
                            &self.views,
                            accessor,
                        ) {
                            return GlbIndexRead::Unreadable;
                        }
                        match read_primitive_indices(&self.bytes, mesh, primitive) {
                            None => GlbIndexRead::Unindexed,
                            Some(list) => GlbIndexRead::Listed(list),
                        }
                    },
                }
            },
        }
    }

    /// The garment surface of the selected scene (see [`GlbGarmentImporter::assemble`]), with
    /// the index lists read by [`Self::index_reads`].
    pub fn assemble(&self, plan: &GlbScenePlan, geometry: &Vec<GlbStepGeometry>) -> (asset: Result<
        GarmentAsset,
        GarmentImportError,
    >)
        requires
            geometry@.len() == plan.steps@.len(),
        ensures
            match glb_surface(
                plan.steps@,
                plan.failure,
                expected_index_reads(self.spec_bytes(), plan.steps@),
                geometry@,
            ) {
                Ok((positions, triangles)) => {
                    &&& asset is Ok
                    &&& asset->Ok_0.spec_source_format() == GarmentSourceFormat::Glb
                    &&& asset->Ok_0.spec_positions() == positions
                    &&& asset->Ok_0.spec_triangles() == triangles
                },
                Err(e) => asset matches Err(found) && found == e,
            },
    {
        let reads = self.index_reads(plan);
        proof {
            assert(reads@.map_values(|read: GlbIndexRead| read@) =~= expected_index_reads(
                self.spec_bytes(),
                plan.steps@,
            ));
        }
        GlbGarmentImporter::assemble(plan, &reads, geometry)
    }
}

impl GlbGarmentImporter {
    /// The format this importer reads.
    pub fn source_format(&self) -> (format: GarmentSourceFormat)
        ensures
            format == GarmentSourceFormat::Glb,
    {
        GarmentSourceFormat::Glb
    }

    /// Walks the scene whose root nodes are `roots`, depth first and in document order: each node
    /// is checked (depth, skin, morph weights) and visited, then its mesh's primitives (triangle
    /// mode, no morph targets, positions present), then its children. The walk stops at the first
    /// structural error; the geometry of the steps before it is checked by [`Self::assemble`].
    pub fn plan_scene(
        nodes: &Vec<GlbNodeFacts>,
        meshes: &Vec<GlbMeshFacts>,
        roots: &Vec<usize>,
    ) -> (plan: GlbScenePlan)
        ensures
            (plan.steps@, plan.failure) == walk_scene(nodes@, meshes@, roots@),
            plan_is_ordered(plan.steps@),
    {
        let plan = Self::walk_roots(nodes, meshes, roots);
        let length = plan.steps.len();
        proof {
            assert(plan.steps@.len() == length);
            lemma_scene_walk_is_ordered(nodes@, meshes@, roots@);
        }
        plan
    }

    fn walk_roots(
        nodes: &Vec<GlbNodeFacts>,
        meshes: &Vec<GlbMeshFacts>,
        roots: &Vec<usize>,
    ) -> (plan: GlbScenePlan)
        ensures
            (plan.steps@, plan.failure) == walk_scene(nodes@, meshes@, roots@),
    {
        let mut steps: Vec<GlbStep> = Vec::new();
        let ghost target = walk_scene(nodes@, meshes@, roots@);
        let mut i: usize = 0;
        while i < roots.len()
            invariant
                i <= roots@.len(),
                walk_children(nodes@, meshes@, roots@, i as int, None, 0, steps@) == target,
                target == walk_scene(nodes@, meshes@, roots@),
            decreases roots.len() - i,
        {
            let ghost before = steps@;
            let failure = walk_node_exec(nodes, meshes, roots[i], None, 0, &mut steps);
            assert(walk_children(nodes@, meshes@, roots@, i as int, None, 0, before) == target);
            if failure.is_some() {
                return GlbScenePlan { steps, failure };
            }
            i = i + 1;
        }
        GlbScenePlan { steps, failure: None }
    }

    /// Whether reading `count` elements of `size` bytes from byte `offset` of buffer view `view`
    /// stays within what the `gltf` crate's accessor iterator can compute.
    pub fn view_read_safe(
        views: &Vec<GlbViewLayout>,
        view: usize,
        offset: usize,
        count: usize,
        size: usize,
    ) -> (safe: bool)
        ensures
            safe == view_read_is_safe(views@, view, offset, count, size as int),
    {
        if view >= views.len() || count == 0 {
            return false;
        }
        let layout = views[view];
        let stride = match layout.stride {
            Some(given) => given,
            None => size,
        };
        if stride < size || layout.offset.checked_add(layout.length).is_none() {
            return false;
        }
        match stride.checked_mul(count - 1) {
            None => {
                assert(stride * (count - 1) > usize::MAX);
                assert(offset + stride * (count - 1) + size > usize::MAX) by (nonlinear_arith)
                    requires
                        stride * (count - 1) > usize::MAX,
                        offset >= 0,
                        size >= 0,
                ;
                false
            },
            Some(span) => match offset.checked_add(span) {
                None => false,
                Some(end) => end.checked_add(size).is_some(),
            },
        }
    }

    /// Whether accessor `accessor` reads as an index list without making the `gltf` crate panic.
    pub fn index_read_safe(
        accessors: &Vec<GlbAccessorLayout>,
        sparse: &Vec<Option<GlbSparseLayout>>,
        views: &Vec<GlbViewLayout>,
        accessor: usize,
    ) -> (safe: bool)
        ensures
            safe == index_read_is_safe(accessors@, sparse@, views@, accessor),
    {
        if accessor >= accessors.len() || accessor >= sparse.len() {
            return false;
        }
        let layout = accessors[accessor];
        let size: usize = if layout.component_type == 5121 {
            1
        } else if layout.component_type == 5123 {
            2
        } else if layout.component_type == 5125 {
            4
        } else {
            return false;
        };
        if let Some(view) = layout.view {
            if !Self::view_read_safe(views, view, layout.offset, layout.count, size) {
                return false;
            }
        }
        match sparse[accessor] {
            None => layout.multiplicity == 1,
            Some(part) => {
                layout.count <= 4294967295 && Self::view_read_safe(
                    views,
                    part.indices_view,
                    part.indices_offset,
                    part.count,
                    part.index_size,
                ) && Self::view_read_safe(views, part.values_view, part.values_offset, part.count, size)
            },
        }
    }

    /// Whether `bytes` begin with the binary glTF magic.
    pub fn has_glb_magic(bytes: &[u8]) -> (magic: bool)
        ensures
            magic == glb_magic(bytes@),
    {
        bytes.len() >= 4 && bytes[0] == 0x67u8 && bytes[1] == 0x6cu8 && bytes[2] == 0x54u8
            && bytes[3] == 0x46u8
    }

    /// Runs the document-level checks on the facts of a parsed document and selects its scene.
    pub fn select_scene(facts: &GlbDocumentFacts) -> (scene: Result<usize, GarmentImportError>)
        ensures
            scene == glb_document_check(
                facts.animation_count,
                facts.buffer_sources@,
                facts.binary_chunk_length,
                facts.default_scene,
                facts.scene_roots@.len() as int,
            ),
    {
        if facts.animation_count > 0 {
            return Err(GarmentImportError::UnsupportedGlbAnimation);
        }
        let mut i: usize = 0;
        while i < facts.buffer_sources.len()
            invariant
                i <= facts.buffer_sources@.len(),
                facts.animation_count == 0,
                forall|k: int|
                    0 <= k < i ==> #[trigger] facts.buffer_sources@[k] != GlbBufferSource::External,
            decreases facts.buffer_sources.len() - i,
        {
            if facts.buffer_sources[i] == GlbBufferSource::External {
                assert(facts.buffer_sources@[i as int] == GlbBufferSource::External);
                return Err(GarmentImportError::ExternalGlbBuffer);
            }
            i = i + 1;
        }
        if facts.binary_chunk_length.is_none() {
            return Err(GarmentImportError::MissingGlbBinaryChunk);
        }
        match facts.default_scene {
            Some(scene) => Ok(scene),
            None => {
                if facts.scene_roots.len() == 0 {
                    Err(GarmentImportError::MissingGlbScene)
                } else if facts.scene_roots.len() > 1 {
                    Err(GarmentImportError::AmbiguousGlbScene)
                } else {
                    Ok(0)
                }
            },
        }
    }

    /// Whether the binary glTF header of `bytes`, if it has one, is at least twelve bytes long.
    pub fn header_is_sound(bytes: &[u8]) -> (sound: bool)
        ensures
            sound == glb_header_is_sound(bytes@),
    {
        if bytes.len() < 12 || !Self::has_glb_magic(bytes) {
            return true;
        }
        let length: u64 = bytes[8] as u64 + (bytes[9] as u64) * 256 + (bytes[10] as u64) * 65536
            + (bytes[11] as u64) * 16777216;
        length >= 12
    }

    /// Whether every listed `POSITION` reference is below `count`.
    fn references_resolve(count: usize, references: &Vec<Option<usize>>) -> (resolve: bool)
        ensures
            resolve == positions_resolve(Some((count, references@))),
    {
        let mut k: usize = 0;
        while k < references.len()
            invariant
                k <= references@.len(),
                forall|m: int|
                    0 <= m < k ==> (#[trigger] references@[m] matches Some(index) ==> index
                        < count),
            decreases references.len() - k,
        {
            if let Some(index) = references[k] {
                if index >= count {
                    assert(references@[k as int] matches Some(i) && i >= count);
                    return false;
                }
            }
            k = k + 1;
        }
        true
    }

    /// Opens a `.glb` garment: the bytes must carry the binary glTF magic, a header whose length
    /// covers the header itself, `POSITION` references that name existing accessors (the `gltf`
    /// crate would panic on either), and must parse and validate as a glTF document; then the
    /// document-level checks of [`Self::select_scene`] run on its facts, and the document is
    /// returned with the scene they select, its nodes and its meshes.
    pub fn open(&self, bytes: &[u8]) -> (document: Result<GlbDocument, GarmentImportError>)
        ensures
            match glb_open_result(bytes@) {
                Ok((facts, scene, nodes, meshes)) => {
                    &&& document is Ok
                    &&& document->Ok_0.spec_facts()@ == facts
                    &&& document->Ok_0.spec_scene() == scene
                    &&& document->Ok_0.spec_nodes().map_values(|node: GlbNodeFacts| node@)
                        == nodes
                    &&& document->Ok_0.spec_meshes().map_values(|mesh: GlbMeshFacts| mesh@)
                        == meshes
                    &&& document->Ok_0.spec_bytes() == bytes@
                },
                Err(e) => document matches Err(found) && found == e,
            },
    {
        if !Self::has_glb_magic(bytes) || !Self::header_is_sound(bytes) {
            return Err(GarmentImportError::InvalidGlb);
        }
        if let Some((count, references)) = position_references(bytes) {
            if !Self::references_resolve(count, &references) {
                return Err(GarmentImportError::InvalidGlb);
            }
        }
        let gltf = match parse_gltf(bytes) {
            Some(parsed) => parsed,
            None => {
                return Err(GarmentImportError::InvalidGlb);
            },
        };
        let (facts, nodes, meshes) = match (document_facts(bytes), node_facts(bytes), mesh_facts(
            bytes,
        )) {
            (Some(facts), Some(nodes), Some(meshes)) => (facts, nodes, meshes),
            _ => {
                return Err(GarmentImportError::InvalidGlb);
            },
        };
        proof {
            assert(facts@.scene_roots.len() == facts.scene_roots@.len());
        }
        let scene = match Self::select_scene(&facts) {
            Ok(selected) => selected,
            Err(e) => {
                return Err(e);
            },
        };
        let (accessors, sparse, views) = match (accessor_layouts(bytes), sparse_layouts(bytes), view_layouts(bytes)) {
            (Some(accessors), Some(sparse), Some(views)) => (accessors, sparse, views),
            _ => {
                return Err(GarmentImportError::InvalidGlb);
            },
        };
        let bytes = vstd::slice::slice_to_vec(bytes);
        Ok(GlbDocument { bytes, gltf, facts, scene, nodes, meshes, accessors, sparse, views })
    }

    /// Builds the garment surface of a planned scene from the index read of each step and the
    /// geometry the caller computed for it: node transforms must be finite; each primitive's world
    /// positions must be finite and present, its index list must be readable and (or, unindexed,
    /// its vertices in order) must form whole triangles of in-range, pairwise distinct, non-flat
    /// corners, which are renumbered after the vertices collected before it. The walk's own
    /// structural error comes after the geometry of its steps; an empty surface is refused.
    pub fn assemble(
        plan: &GlbScenePlan,
        reads: &Vec<GlbIndexRead>,
        geometry: &Vec<GlbStepGeometry>,
    ) -> (asset: Result<GarmentAsset, GarmentImportError>)
        requires
            reads@.len() == plan.steps@.len(),
            geometry@.len() == plan.steps@.len(),
        ensures
            match glb_surface(
                plan.steps@,
                plan.failure,
                reads@.map_values(|read: GlbIndexRead| read@),
                geometry@,
            ) {
                Ok((positions, triangles)) => {
                    &&& asset is Ok
                    &&& asset->Ok_0.spec_source_format() == GarmentSourceFormat::Glb
                    &&& asset->Ok_0.spec_positions() == positions
                    &&& asset->Ok_0.spec_triangles() == triangles
                },
                Err(e) => asset matches Err(found) && found == e,
            },
    {
        let mut positions: Vec<Vec3> = Vec::new();
        let mut triangles: Vec<[usize; 3]> = Vec::new();
        let ghost spec_reads = reads@.map_values(|read: GlbIndexRead| read@);
        let ghost target = assemble_from(
            plan.steps@,
            spec_reads,
            geometry@,
            0,
            Seq::empty(),
            Seq::empty(),
        );
        let mut i: usize = 0;
        while i < plan.steps.len()
            invariant
                i <= plan.steps@.len(),
                geometry@.len() == plan.steps@.len(),
                reads@.len() == plan.steps@.len(),
                spec_reads == reads@.map_values(|read: GlbIndexRead| read@),
                target == assemble_from(
                    plan.steps@,
                    spec_reads,
                    geometry@,
                    0,
                    Seq::empty(),
                    Seq::empty(),
                ),
                assemble_from(plan.steps@, spec_reads, geometry@, i as int, positions@, triangles@)
                    == target,
                positions_are_finite(positions@),
                forall|t: int|
                    0 <= t < triangles@.len() ==> triangle_is_valid(
                        #[trigger] triangles@[t],
                        positions@.len() as int,
                    ),
            decreases plan.steps.len() - i,
        {
            match plan.steps[i] {
                GlbStep::Node { .. } => {
                    if !transform_finite(&geometry[i].world_transform) {
                        return Err(GarmentImportError::NonFiniteGlbGeometry);
                    }
                },
                GlbStep::Primitive { .. } => {
                    let step_geometry = &geometry[i];
                    match &step_geometry.positions {
                        None => {
                            return Err(GarmentImportError::MissingGlbPositions);
                        },
                        Some(added_positions) => {
                            let failure = append_primitive(
                                &mut positions,
                                &mut triangles,
                                added_positions,
                                &reads[i],
                                &step_geometry.flat_triangles,
                            );
                            if let Some(e) = failure {
                                return Err(e);
                            }
                        },
                    }
                },
            }
            i = i + 1;
        }
        if let Some(e) = plan.failure {
            return Err(e);
        }
        if positions.len() == 0 {
            return Err(GarmentImportError::MissingVertices);
        }
        if triangles.len() == 0 {
            return Err(GarmentImportError::MissingTriangles);
        }
        Ok(GarmentAsset::from_parts(GarmentSourceFormat::Glb, positions, triangles))
    }
}

} // verus!
