//! Groups of particles, each drawn in its own pass.
use vstd::prelude::*;

verus! {

/// Particle groups; `Count` is the number of groups.
#[derive(Copy, Clone, PartialEq, Eq, Structural)]
pub enum ParticleGroup {
    ProjectileTrail,
    Explosions,
    Extra,
    General,
    Count,
}

impl ParticleGroup {
    pub open spec fn group_index(self) -> usize {
        match self {
            ParticleGroup::ProjectileTrail => 0,
            ParticleGroup::Explosions => 1,
            ParticleGroup::Extra => 2,
            ParticleGroup::General => 3,
            ParticleGroup::Count => 4,
        }
    }

    /// The group's index among the groups; `Count` gives their number.
    pub fn index(&self) -> (r: usize)
        ensures
            r == self.group_index(),
    {
        match self {
            ParticleGroup::ProjectileTrail => 0,
            ParticleGroup::Explosions => 1,
            ParticleGroup::Extra => 2,
            ParticleGroup::General => 3,
            ParticleGroup::Count => 4,
        }
    }
}

} // verus!
