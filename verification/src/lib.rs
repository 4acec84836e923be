//! Deterministic cloth and textile simulation: the verified topology, import, and bookkeeping core.
//!
//! Geometry is carried as IEEE-754 binary64 bit patterns (see [`Vec3`]), so every value that the
//! library reads, hashes, or validates is an exact integer and can be reasoned about precisely.
//! Floating-point arithmetic (parsing numbers, node transforms, areas and lengths) happens in the
//! caller, which hands the library its results as bit patterns or flags.

mod cloth;
mod garment;
mod mannequin;
mod material;
mod math;
mod obstacle;
mod self_collision;
mod template;
mod topology;

pub use cloth::{
    ClothError, ClothInteractionError, DistanceConstraint, Particle, ParticleDrag,
    TriangleMeshCloth, TriangleMeshClothConfig, TriangleMeshClothError, TriangleMeshMeasures,
};
pub use garment::{
    GarmentAsset, GarmentImportError, GarmentSourceFormat, GlbAccessorLayout, GlbBufferSource,
    GlbDocument, GlbDocumentFacts, GlbGarmentImporter, GlbIndexRead, GlbMeshFacts, GlbNodeFacts,
    GlbPrimitiveFacts, GlbScenePlan, GlbSparseLayout, GlbStep, GlbStepGeometry, GlbViewLayout,
    ObjGarmentImporter,
};
pub use mannequin::{
    validate_animation_speed, validate_animation_step, MannequinAnimation, MannequinAnimationError,
};
pub use material::TextilePreset;
pub use math::Vec3;
pub use obstacle::{ClothObstacleConfig, ClothObstacleError, ClothObstacleKind};
pub use self_collision::{
    decode_vertex_triangle_pair, validate_self_collision_inputs, SelfCollisionConfig,
    SelfCollisionError, SelfCollisionParticle, SelfCollisionReport, SelfCollisionTopology,
};
pub use template::{
    regular_grid_triangles, GarmentTemplate, GarmentTemplateError, MAX_TEMPLATE_RESOLUTION,
    MIN_TEMPLATE_RESOLUTION,
};
