//! The per-tick world context: every piece of shared mutable state, threaded
//! explicitly through one `tick` call per frame.
//!
//! Tick order (fixed, and the reason no locking is ever needed — each value
//! has one writer, and every reader runs after that writer):
//! input capture → global rotation advance → camera zoom → camera orbit →
//! camera publish → raycast/target resolution → creature motion.  Creatures
//! read the target published in the same tick.  World transforms for
//! rendering are derived on demand from the already-advanced state.

use vstd::prelude::*;
use crate::quat::QuatFx;
use crate::vec3::Vec3Fx;
use crate::transform::{
    PlanetoidTransform, SphereCoords, TransformFx, spec_match_planetoid_transforms,
    match_planetoid_transforms,
};
use crate::planetoid::{
    PlanetoidRotation, spec_planetoid_rotation, planetoid_rotation, spec_set_planetoid_rotation,
    set_planetoid_rotation,
};
use crate::camera::{
    MainCameraTransform, spec_scroll_events, scroll_events, spec_camera_pan, camera_pan,
    update_cam_transform,
};
use crate::creature::{CreatureTarget, spec_creature_movement, creature_movement, setup_creature,
    spec_setup_creature};
use crate::raycast::{spec_set_creature_target, set_creature_target};

verus! {

/// All input of one tick: the elapsed seconds (fixed point), wheel deltas,
/// pointer motion deltas, cursor positions, and the button states.
pub struct TickInput {
    pub dt: i64,
    pub wheel: Vec<i64>,
    pub motions: Vec<(i64, i64)>,
    pub cursor_moves: Vec<(i64, i64)>,
    pub secondary_held: bool,
    pub primary_held: bool,
}

/// The mathematical content of a tick's input.
pub ghost struct TickInputModel {
    pub dt: i64,
    pub wheel: Seq<i64>,
    pub motions: Seq<(i64, i64)>,
    pub cursor_moves: Seq<(i64, i64)>,
    pub secondary_held: bool,
    pub primary_held: bool,
}

impl TickInput {
    /// The input's mathematical content.
    pub open spec fn model(self) -> TickInputModel {
        TickInputModel {
            dt: self.dt,
            wheel: self.wheel@,
            motions: self.motions@,
            cursor_moves: self.cursor_moves@,
            secondary_held: self.secondary_held,
            primary_held: self.primary_held,
        }
    }
}

/// A configuration fault found at startup.
#[derive(Clone, Copy, PartialEq, Eq, Structural, Debug)]
pub enum SetupError {
    /// No primary raycastable surface was configured.
    NoRaycastSurface,
    /// More than one primary raycastable surface was configured.
    MultipleRaycastSurfaces,
}

/// The whole world state.
pub struct WorldState {
    /// The sphere's orientation; written once per tick by the rotation
    /// advance.
    pub rotation: PlanetoidRotation,
    /// The live camera transform; written by zoom and orbit.
    pub camera: TransformFx,
    /// The camera transform published after input handling, read by the
    /// raycaster and by rendering.
    pub cam_transform: MainCameraTransform,
    /// The creatures' shared movement target.
    pub creature_target: CreatureTarget,
    /// The creatures' surface placements.
    pub creatures: Vec<PlanetoidTransform>,
    /// The last reported cursor position: tracked as an alternative ray
    /// source for cursor-driven picking, recorded but not consumed by the
    /// fixed-forward picking path.
    pub cursor: Option<(i64, i64)>,
}

/// The mathematical content of the world state.
pub ghost struct WorldModel {
    pub rotation: QuatFx,
    pub camera: TransformFx,
    pub published: TransformFx,
    pub target: Option<SphereCoords>,
    pub creatures: Seq<PlanetoidTransform>,
    pub cursor: Option<(i64, i64)>,
}

/// One tick of the whole world as a function of its inputs: rotation
/// advance, camera zoom, camera orbit, publish, target resolution, creature
/// motion, cursor tracking — in that order.
#[verifier::opaque]
pub open spec fn spec_tick(m: WorldModel, inp: TickInputModel) -> WorldModel {
    let rotation = spec_planetoid_rotation(m.rotation, inp.dt as int);
    let zoomed = spec_scroll_events(m.camera, inp.wheel);
    let camera = spec_camera_pan(zoomed, inp.motions, inp.secondary_held);
    let published = camera;
    let target = spec_set_creature_target(inp.primary_held, rotation, m.target, published);
    let creatures = spec_creature_movement(target, m.creatures);
    let cursor = if inp.cursor_moves.len() > 0 {
        Some(inp.cursor_moves.last())
    } else {
        m.cursor
    };
    WorldModel { rotation, camera, published, target, creatures, cursor }
}

/// The world after a whole sequence of ticks.
pub open spec fn spec_run(m: WorldModel, inputs: Seq<TickInputModel>) -> WorldModel
    decreases inputs.len(),
{
    if inputs.len() == 0 {
        m
    } else {
        spec_run(spec_tick(m, inputs[0]), inputs.drop_first())
    }
}

/// Law (determinism): two runs from equal states over equal input sequences
/// end in equal states — every published camera transform and target is a
/// function of the inputs alone.
pub proof fn lemma_run_deterministic(
    m1: WorldModel,
    m2: WorldModel,
    inputs1: Seq<TickInputModel>,
    inputs2: Seq<TickInputModel>,
)
    requires
        m1 == m2,
        inputs1 == inputs2,
    ensures
        spec_run(m1, inputs1) == spec_run(m2, inputs2),
{
}

impl WorldState {
    /// The state's mathematical content.
    pub open spec fn model(self) -> WorldModel {
        WorldModel {
            rotation: self.rotation.0,
            camera: self.camera,
            published: self.cam_transform.value,
            target: self.creature_target.target,
            creatures: self.creatures@,
            cursor: self.cursor,
        }
    }

    /// The startup world model: identity rotation, the camera five units
    /// back on `-z` looking at the origin (a half turn about world-up), an
    /// identity published transform, no target, the four creatures at their
    /// spawn placements, no cursor yet.
    pub open spec fn spec_initial_model() -> WorldModel {
        WorldModel {
            rotation: QuatFx::spec_identity(),
            camera: TransformFx {
                rotation: QuatFx { x: 0, y: crate::fx::FX_ONE as i64, z: 0, w: 0 },
                translation: Vec3Fx { x: 0, y: 0, z: (-5 * crate::fx::FX_ONE as int) as i64 },
            },
            published: TransformFx::spec_identity(),
            target: Option::None,
            creatures: spec_setup_creature(),
            cursor: Option::None,
        }
    }

    /// Sets up the world.  Exactly one primary raycastable surface must be
    /// configured; zero or several is a startup configuration error, never a
    /// per-tick condition.  Succeeds if and only if `surface_count == 1`,
    /// and then returns exactly the initial model.
    pub fn new(surface_count: usize) -> (r: Result<WorldState, SetupError>)
        ensures
            surface_count == 1 <==> r.is_ok(),
            surface_count == 0 ==> r == Result::<WorldState, SetupError>::Err(
                SetupError::NoRaycastSurface,
            ),
            surface_count > 1 ==> r == Result::<WorldState, SetupError>::Err(
                SetupError::MultipleRaycastSurfaces,
            ),
            r.is_ok() ==> r.unwrap().model() == WorldState::spec_initial_model(),
    {
        if surface_count == 0 {
            return Err(SetupError::NoRaycastSurface);
        }
        if surface_count > 1 {
            return Err(SetupError::MultipleRaycastSurfaces);
        }
        Ok(
            WorldState {
                rotation: PlanetoidRotation::new(),
                camera: TransformFx {
                    rotation: QuatFx { x: 0, y: crate::fx::FX_ONE, z: 0, w: 0 },
                    translation: Vec3Fx { x: 0, y: 0, z: -5 * crate::fx::FX_ONE },
                },
                cam_transform: MainCameraTransform { value: TransformFx::identity() },
                creature_target: CreatureTarget::new(),
                creatures: setup_creature(),
                cursor: None,
            },
        )
    }

    /// Advances the world by one tick; the new state is pinned by
    /// [`spec_tick`] — it is a function of the old state and the input
    /// alone.
    pub fn tick(&mut self, input: &TickInput)
        ensures
            final(self).model() == spec_tick(old(self).model(), input.model()),
            final(self).cam_transform.value == final(self).camera,
            !input.primary_held ==> final(self).creature_target.target == old(
                self,
            ).creature_target.target,
    {
        proof {
            reveal(spec_tick);
        }
        planetoid_rotation(&mut self.rotation, input.dt);
        scroll_events(&mut self.camera, &input.wheel);
        camera_pan(&mut self.camera, input.secondary_held, &input.motions);
        update_cam_transform(&mut self.cam_transform, &self.camera);
        set_creature_target(
            input.primary_held,
            &self.rotation,
            &mut self.creature_target,
            &self.cam_transform,
        );
        creature_movement(&self.creature_target, &mut self.creatures);
        if input.cursor_moves.len() > 0 {
            self.cursor = Some(input.cursor_moves[input.cursor_moves.len() - 1]);
        }
    }

    /// Advances the world through a whole sequence of ticks, in order; the
    /// final state is pinned by [`spec_run`].  Together with
    /// [`lemma_run_deterministic`] this is the determinism guarantee on the
    /// executable itself: equal inputs give equal state sequences.
    pub fn run(&mut self, inputs: &Vec<TickInput>)
        ensures
            final(self).model() == spec_run(
                old(self).model(),
                inputs@.map(|i: int, t: TickInput| t.model()),
            ),
    {
        let ghost models = inputs@.map(|i: int, t: TickInput| t.model());
        let mut i: usize = 0;
        proof {
            assert(models.skip(0) =~= models);
        }
        while i < inputs.len()
            invariant
                i <= inputs.len(),
                models == inputs@.map(|i: int, t: TickInput| t.model()),
                spec_run(old(self).model(), models) == spec_run(
                    self.model(),
                    models.skip(i as int),
                ),
            decreases inputs.len() - i,
        {
            self.tick(&inputs[i]);
            proof {
                assert(models.skip(i as int).drop_first() =~= models.skip(i as int + 1));
                assert(models.skip(i as int)[0] == models[i as int]);
            }
            i = i + 1;
        }
        proof {
            assert(models.skip(inputs@.len() as int).len() == 0);
        }
    }

    /// The world transform the renderer applies to the planetoid mesh.
    pub fn planetoid_transform(&self) -> (r: TransformFx)
        ensures
            r == spec_set_planetoid_rotation(self.rotation.0),
    {
        set_planetoid_rotation(&self.rotation)
    }

    /// The world transforms of all creatures, in spawn order.
    pub fn creature_transforms(&self) -> (r: Vec<TransformFx>)
        ensures
            r@ == spec_match_planetoid_transforms(self.rotation.0, self.creatures@),
    {
        match_planetoid_transforms(self.rotation.0, &self.creatures)
    }
}

} // verus!
