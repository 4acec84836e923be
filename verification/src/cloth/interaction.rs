use vstd::prelude::*;

use super::particle::Particle;
use super::triangle_mesh::TriangleMeshCloth;
use crate::math::Vec3;

verus! {

/// An active drag of one particle: which particle, and the inverse mass to restore on release.
#[derive(Clone, Copy, Debug, PartialEq, Eq, Structural)]
pub struct ParticleDrag {
    particle_index: usize,
    restored_inverse_mass: u64,
}

impl ParticleDrag {
    /// The dragged particle.
    pub closed spec fn spec_particle_index(self) -> usize {
        self.particle_index
    }

    /// The inverse mass the particle gets back when the drag ends.
    pub closed spec fn spec_restored_inverse_mass(self) -> u64 {
        self.restored_inverse_mass
    }

    /// The dragged particle.
    pub fn particle_index(self) -> (index: usize)
        ensures
            index == self.spec_particle_index(),
    {
        self.particle_index
    }
}

#[derive(Clone, Copy, Debug, PartialEq, Eq, Structural)]
pub enum ClothInteractionError {
    InvalidParticleIndex,
    InvalidTarget,
    AlreadyKinematic,
    DragStateMismatch,
}

/// The particle after a drag starts: kinematic (zero inverse mass) and at rest.
pub open spec fn grabbed(p: Particle) -> Particle {
    Particle { position: p.position, previous_position: p.position, inverse_mass: 0 }
}

/// The particle after a drag moves it to `target`.
pub open spec fn moved_to(p: Particle, target: Vec3) -> Particle {
    Particle { position: target, previous_position: target, inverse_mass: p.inverse_mass }
}

/// The particle after a drag ends: its inverse mass restored, at rest where it was left.
pub open spec fn released(p: Particle, inverse_mass: u64) -> Particle {
    Particle { position: p.position, previous_position: p.position, inverse_mass }
}

/// Why a drag cannot start: the particle must exist and must not already be kinematic.
pub open spec fn begin_drag_error(particles: Seq<Particle>, index: usize) -> Option<
    ClothInteractionError,
> {
    if index >= particles.len() {
        Some(ClothInteractionError::InvalidParticleIndex)
    } else if particles[index as int].spec_is_pinned() {
        Some(ClothInteractionError::AlreadyKinematic)
    } else {
        None
    }
}

/// The drag that starts on particle `index` of `particles`: that particle, and its inverse mass.
pub open spec fn started_drag(drag: ParticleDrag, particles: Seq<Particle>, index: usize) -> bool {
    &&& drag.spec_particle_index() == index
    &&& drag.spec_restored_inverse_mass() == particles[index as int].inverse_mass
}

/// Moving or releasing a drag: the target (when moving) must be finite, and the particle must
/// exist and still be kinematic.
pub open spec fn drag_error(
    particles: Seq<Particle>,
    drag: ParticleDrag,
    target: Option<Vec3>,
) -> Option<ClothInteractionError> {
    if target matches Some(t) && !t.spec_is_finite() {
        Some(ClothInteractionError::InvalidTarget)
    } else if drag.spec_particle_index() >= particles.len() {
        Some(ClothInteractionError::InvalidParticleIndex)
    } else if !particles[drag.spec_particle_index() as int].spec_is_pinned() {
        Some(ClothInteractionError::DragStateMismatch)
    } else {
        None
    }
}

/// A drag is kinematic until release: starting a drag on a free particle, moving it to a finite
/// target, and ending the drag all succeed, the particle is pinned while held, and afterwards it
/// rests at the target with its original inverse mass, every other particle untouched.
pub proof fn lemma_drag_round_trip(
    particles: Seq<Particle>,
    index: usize,
    drag: ParticleDrag,
    target: Vec3,
)
    requires
        begin_drag_error(particles, index) is None,
        started_drag(drag, particles, index),
        target.spec_is_finite(),
    ensures
        ({
            let held = particles.update(index as int, grabbed(particles[index as int]));
            let moved = held.update(index as int, moved_to(held[index as int], target));
            let dropped = moved.update(
                index as int,
                released(moved[index as int], drag.spec_restored_inverse_mass()),
            );
            &&& held[index as int].spec_is_pinned()
            &&& drag_error(held, drag, Some(target)) is None
            &&& moved[index as int].spec_is_pinned()
            &&& drag_error(moved, drag, None) is None
            &&& dropped == particles.update(
                index as int,
                Particle {
                    position: target,
                    previous_position: target,
                    inverse_mass: particles[index as int].inverse_mass,
                },
            )
        }),
{
    let held = particles.update(index as int, grabbed(particles[index as int]));
    let moved = held.update(index as int, moved_to(held[index as int], target));
    let dropped = moved.update(
        index as int,
        released(moved[index as int], drag.spec_restored_inverse_mass()),
    );
    assert(dropped =~= particles.update(
        index as int,
        Particle {
            position: target,
            previous_position: target,
            inverse_mass: particles[index as int].inverse_mass,
        },
    ));
}

/// A particle that is already kinematic (pinned, or held by another drag) cannot start a drag.
pub proof fn lemma_pinned_particle_cannot_start_drag(particles: Seq<Particle>, index: usize)
    requires
        index < particles.len(),
        particles[index as int].spec_is_pinned(),
    ensures
        begin_drag_error(particles, index) == Some(ClothInteractionError::AlreadyKinematic),
{
}

/// Ending a drag that never moved leaves the particle where it was, at rest, with its original
/// inverse mass.
pub proof fn lemma_drag_without_motion_restores_particle(
    particles: Seq<Particle>,
    index: usize,
    drag: ParticleDrag,
)
    requires
        begin_drag_error(particles, index) is None,
        started_drag(drag, particles, index),
    ensures
        ({
            let held = particles.update(index as int, grabbed(particles[index as int]));
            let p = particles[index as int];
            &&& drag_error(held, drag, None) is None
            &&& held.update(
                index as int,
                released(held[index as int], drag.spec_restored_inverse_mass()),
            ) == particles.update(
                index as int,
                Particle { position: p.position, previous_position: p.position, inverse_mass: p.inverse_mass },
            )
        }),
{
    let held = particles.update(index as int, grabbed(particles[index as int]));
    let p = particles[index as int];
    assert(held.update(index as int, released(held[index as int], drag.spec_restored_inverse_mass()))
        =~= particles.update(
        index as int,
        Particle { position: p.position, previous_position: p.position, inverse_mass: p.inverse_mass },
    ));
}

impl TriangleMeshCloth {
    /// Starts dragging a particle: it becomes kinematic until the drag ends.
    pub fn begin_particle_drag(&mut self, particle_index: usize) -> (drag: Result<
        ParticleDrag,
        ClothInteractionError,
    >)
        ensures
            drag is Err <==> begin_drag_error(old(self).spec_particles(), particle_index) is Some,
            drag matches Err(e) ==> begin_drag_error(old(self).spec_particles(), particle_index)
                == Some(e),
            drag matches Ok(d) ==> started_drag(d, old(self).spec_particles(), particle_index),
            drag is Err ==> final(self).spec_particles() == old(self).spec_particles(),
            drag is Ok ==> final(self).spec_particles() == old(self).spec_particles().update(
                particle_index as int,
                grabbed(old(self).spec_particles()[particle_index as int]),
            ),
            final(self).spec_triangles() == old(self).spec_triangles(),
            final(self).spec_stretch_constraints() == old(self).spec_stretch_constraints(),
    {
        let particles = self.particles();
        if particle_index >= particles.len() {
            return Err(ClothInteractionError::InvalidParticleIndex);
        }
        let particle = particles[particle_index];
        if particle.is_pinned() {
            return Err(ClothInteractionError::AlreadyKinematic);
        }
        let drag = ParticleDrag { particle_index, restored_inverse_mass: particle.inverse_mass };
        self.replace_particle(
            particle_index,
            Particle {
                position: particle.position,
                previous_position: particle.position,
                inverse_mass: 0,
            },
        );
        Ok(drag)
    }

    /// Moves a dragged particle to `target` and holds it there at rest.
    pub fn update_particle_drag(&mut self, drag: ParticleDrag, target: Vec3) -> (result: Result<
        (),
        ClothInteractionError,
    >)
        ensures
            result matches Err(e) ==> drag_error(old(self).spec_particles(), drag, Some(target))
                == Some(e),
            result is Ok <==> drag_error(old(self).spec_particles(), drag, Some(target)) is None,
            result is Err ==> final(self).spec_particles() == old(self).spec_particles(),
            result is Ok ==> final(self).spec_particles() == old(self).spec_particles().update(
                drag.spec_particle_index() as int,
                moved_to(old(self).spec_particles()[drag.spec_particle_index() as int], target),
            ),
            final(self).spec_triangles() == old(self).spec_triangles(),
            final(self).spec_stretch_constraints() == old(self).spec_stretch_constraints(),
    {
        if !target.is_finite() {
            return Err(ClothInteractionError::InvalidTarget);
        }
        let particles = self.particles();
        if drag.particle_index >= particles.len() {
            return Err(ClothInteractionError::InvalidParticleIndex);
        }
        let particle = particles[drag.particle_index];
        if !particle.is_pinned() {
            return Err(ClothInteractionError::DragStateMismatch);
        }
        self.replace_particle(
            drag.particle_index,
            Particle {
                position: target,
                previous_position: target,
                inverse_mass: particle.inverse_mass,
            },
        );
        Ok(())
    }

    /// Ends a drag: the particle's inverse mass is restored and it rests where it was left.
    pub fn end_particle_drag(&mut self, drag: ParticleDrag) -> (result: Result<
        (),
        ClothInteractionError,
    >)
        ensures
            result matches Err(e) ==> drag_error(old(self).spec_particles(), drag, None) == Some(e),
            result is Ok <==> drag_error(old(self).spec_particles(), drag, None) is None,
            result is Err ==> final(self).spec_particles() == old(self).spec_particles(),
            result is Ok ==> final(self).spec_particles() == old(self).spec_particles().update(
                drag.spec_particle_index() as int,
                released(
                    old(self).spec_particles()[drag.spec_particle_index() as int],
                    drag.spec_restored_inverse_mass(),
                ),
            ),
            final(self).spec_triangles() == old(self).spec_triangles(),
            final(self).spec_stretch_constraints() == old(self).spec_stretch_constraints(),
    {
        let particles = self.particles();
        if drag.particle_index >= particles.len() {
            return Err(ClothInteractionError::InvalidParticleIndex);
        }
        let particle = particles[drag.particle_index];
        if !particle.is_pinned() {
            return Err(ClothInteractionError::DragStateMismatch);
        }
        self.replace_particle(
            drag.particle_index,
            Particle {
                position: particle.position,
                previous_position: particle.position,
                inverse_mass: drag.restored_inverse_mass,
            },
        );
        Ok(())
    }
}

} // verus!
