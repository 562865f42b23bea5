//! Creatures: surface-bound entities and their target-following motion.

use vstd::prelude::*;
use crate::fx::FX_HALF;
use crate::transform::{PlanetoidTransform, SphereCoords};

verus! {

/// The movement target shared by all creatures: set by a successful raycast,
/// empty at startup, and sticky — by policy it persists until superseded by
/// the next hit, and is never cleared by arrival.
#[derive(Clone, Copy, PartialEq, Eq, Structural, Debug)]
pub struct CreatureTarget {
    pub target: Option<SphereCoords>,
}

impl CreatureTarget {
    /// The startup state: no target.
    pub fn new() -> (r: CreatureTarget)
        ensures
            r.target is None,
    {
        CreatureTarget { target: None }
    }
}

/// The spawn placements of the four creatures: the quarter points of the
/// coordinate square, all without local spin.
pub open spec fn spec_setup_creature() -> Seq<PlanetoidTransform> {
    seq![
        PlanetoidTransform { sphere_coords: SphereCoords { u: 0, v: 0 }, rotation: 0 },
        PlanetoidTransform {
            sphere_coords: SphereCoords { u: FX_HALF as i64, v: 0 },
            rotation: 0,
        },
        PlanetoidTransform {
            sphere_coords: SphereCoords { u: 0, v: FX_HALF as i64 },
            rotation: 0,
        },
        PlanetoidTransform {
            sphere_coords: SphereCoords { u: FX_HALF as i64, v: FX_HALF as i64 },
            rotation: 0,
        },
    ]
}

/// Spawns the creatures at their fixed initial surface placements; the
/// models and materials they are drawn with are the renderer's business.
pub fn setup_creature() -> (r: Vec<PlanetoidTransform>)
    ensures
        r@ == spec_setup_creature(),
{
    let mut r: Vec<PlanetoidTransform> = Vec::new();
    r.push(PlanetoidTransform { sphere_coords: SphereCoords { u: 0, v: 0 }, rotation: 0 });
    r.push(PlanetoidTransform { sphere_coords: SphereCoords { u: FX_HALF, v: 0 }, rotation: 0 });
    r.push(PlanetoidTransform { sphere_coords: SphereCoords { u: 0, v: FX_HALF }, rotation: 0 });
    r.push(
        PlanetoidTransform { sphere_coords: SphereCoords { u: FX_HALF, v: FX_HALF }, rotation: 0 },
    );
    proof {
        assert(r@ =~= spec_setup_creature());
    }
    r
}

/// Motion: when a target is present, every creature snaps its surface
/// coordinates to it (its local spin is untouched); without a target nothing
/// moves.
pub open spec fn spec_creature_movement(
    target: Option<SphereCoords>,
    creatures: Seq<PlanetoidTransform>,
) -> Seq<PlanetoidTransform> {
    match target {
        Option::None => creatures,
        Option::Some(c) => creatures.map(
            |i: int, pt: PlanetoidTransform|
                PlanetoidTransform { sphere_coords: c, rotation: pt.rotation },
        ),
    }
}

/// Applies the published target to every creature; result pinned by
/// [`spec_creature_movement`].
pub fn creature_movement(target: &CreatureTarget, creatures: &mut Vec<PlanetoidTransform>)
    ensures
        final(creatures)@ == spec_creature_movement(target.target, old(creatures)@),
        final(creatures)@.len() == old(creatures)@.len(),
        target.target is None ==> final(creatures)@ == old(creatures)@,
{
    match target.target {
        Option::None => {},
        Option::Some(c) => {
            let mut updated: Vec<PlanetoidTransform> = Vec::new();
            let mut i: usize = 0;
            while i < creatures.len()
                invariant
                    i <= creatures.len(),
                    updated@.len() == i as int,
                    forall|j: int|
                        0 <= j < i as int ==> updated@[j] == (PlanetoidTransform {
                            sphere_coords: c,
                            rotation: creatures@[j].rotation,
                        }),
                decreases creatures.len() - i,
            {
                let pt: PlanetoidTransform = creatures[i];
                updated.push(PlanetoidTransform { sphere_coords: c, rotation: pt.rotation });
                i = i + 1;
            }
            proof {
                assert(updated@ =~= spec_creature_movement(target.target, creatures@));
            }
            *creatures = updated;
        },
    }
}

} // verus!
