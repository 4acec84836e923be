mod interaction;
mod particle;
mod triangle_mesh;

pub use interaction::{ClothInteractionError, ParticleDrag};
pub use particle::{ClothError, Particle};
pub use triangle_mesh::{
    DistanceConstraint, TriangleMeshCloth, TriangleMeshClothConfig, TriangleMeshClothError,
    TriangleMeshMeasures,
};
