//! Screen-to-surface raycasting and target assignment.
//!
//! While the primary button is held, a ray is cast from the published
//! camera position along the camera's forward direction.  This is the
//! fixed-forward picking variant, chosen deliberately and documented here:
//! the tracked cursor position is recorded in the world state as the ray
//! source a cursor-driven variant would read, but does not bend the ray;
//! the intersection itself accepts any ray.  The ray is
//! intersected with the unit sphere, with backface culling: a hit behind the
//! origin or on the far side seen from inside counts as a miss.  On a hit
//! the point is pulled back through the inverse global rotation and
//! converted into surface coordinates; on a miss nothing changes.

use vstd::prelude::*;
use crate::fx::{
    FX_ONE, spec_fx_mul, spec_fx_sub, spec_fx_div, spec_sqrt_fx, fx_mul, fx_sub, fx_div, sqrt_fx,
};
use crate::quat::QuatFx;
use crate::vec3::Vec3Fx;
use crate::transform::{
    SphereCoords, TransformFx, spec_cartesian_to_normalized_sphere, cartesian_to_normalized_sphere,
};
use crate::planetoid::PlanetoidRotation;
use crate::camera::MainCameraTransform;
use crate::creature::CreatureTarget;

verus! {

/// The camera looks along its local `-z` axis.
pub open spec fn spec_camera_forward(cam: TransformFx) -> Vec3Fx {
    cam.rotation.spec_rotate(Vec3Fx { x: 0, y: 0, z: -(FX_ONE as int) as i64 })
}

/// Nearest intersection of the ray `origin + t * dir` with the unit sphere,
/// backfaces culled.  `None` when the direction is degenerate, the
/// discriminant is negative (the line misses), or the near intersection lies
/// behind the origin (`t < 0`: the sphere is behind the camera, or the
/// origin is inside and only a backface remains).
pub open spec fn spec_ray_sphere_intersection(origin: Vec3Fx, dir: Vec3Fx) -> Option<Vec3Fx> {
    let a = dir.spec_dot(dir);
    if a < 1 {
        None
    } else {
        let b = origin.spec_dot(dir);
        let c = origin.spec_dot(origin);
        let disc = spec_fx_sub(
            spec_fx_mul(b, b),
            spec_fx_mul(a, spec_fx_sub(c, FX_ONE as int)),
        );
        if disc < 0 {
            None
        } else {
            let tnum = spec_fx_sub(spec_fx_sub(0, b), spec_sqrt_fx(disc));
            if tnum < 0 {
                None
            } else {
                let t = spec_fx_div(tnum, a);
                Some(origin.spec_plus(dir.spec_scaled(t)))
            }
        }
    }
}

/// Intersects a ray with the unit sphere; result pinned by
/// [`spec_ray_sphere_intersection`].
pub fn ray_sphere_intersection(origin: Vec3Fx, dir: Vec3Fx) -> (r: Option<Vec3Fx>)
    ensures
        r == spec_ray_sphere_intersection(origin, dir),
        r.is_some() ==> r.unwrap().wf(),
{
    let a: i64 = dir.dot(dir);
    if a < 1 {
        return None;
    }
    let b: i64 = origin.dot(origin);
    let ob: i64 = origin.dot(dir);
    let disc: i64 = fx_sub(fx_mul(ob, ob), fx_mul(a, fx_sub(b, FX_ONE)));
    if disc < 0 {
        return None;
    }
    let sq: i64 = sqrt_fx(disc);
    let tnum: i64 = fx_sub(fx_sub(0, ob), sq);
    if tnum < 0 {
        return None;
    }
    let t: i64 = fx_div(tnum, a);
    Some(origin.plus(dir.scaled(t)))
}

/// Target resolution for one tick: the published target after a primary
/// trigger, or the previous target unchanged.
pub open spec fn spec_set_creature_target(
    primary_held: bool,
    rotation: QuatFx,
    prev: Option<SphereCoords>,
    cam: TransformFx,
) -> Option<SphereCoords> {
    if !primary_held {
        prev
    } else {
        match spec_ray_sphere_intersection(cam.translation, spec_camera_forward(cam)) {
            Option::None => prev,
            Option::Some(pos) => {
                let local = rotation.spec_conjugate().spec_rotate(pos);
                match spec_cartesian_to_normalized_sphere(local) {
                    Option::None => prev,
                    Option::Some(coords) => Some(coords),
                }
            },
        }
    }
}

/// Resolves a primary trigger into a movement target: casts the camera
/// ray, culls backfaces, undoes the global rotation on the hit point and
/// publishes its surface coordinates.  A miss — and a tick without the
/// trigger — leaves the target exactly as it was.
pub fn set_creature_target(
    primary_held: bool,
    planetoid_rotation: &PlanetoidRotation,
    target: &mut CreatureTarget,
    camera: &MainCameraTransform,
)
    ensures
        final(target).target == spec_set_creature_target(
            primary_held,
            planetoid_rotation.0,
            old(target).target,
            camera.value,
        ),
        !primary_held ==> final(target).target == old(target).target,
        primary_held && spec_ray_sphere_intersection(
            camera.value.translation,
            spec_camera_forward(camera.value),
        ) is None ==> final(target).target == old(target).target,
{
    if !primary_held {
        return ;
    }
    let dir: Vec3Fx = camera.value.rotation.rotate(Vec3Fx { x: 0, y: 0, z: -FX_ONE });
    let hit: Option<Vec3Fx> = ray_sphere_intersection(camera.value.translation, dir);
    match hit {
        Option::None => {},
        Option::Some(pos) => {
            let local: Vec3Fx = planetoid_rotation.0.conjugate().rotate(pos);
            let coords: Option<SphereCoords> = cartesian_to_normalized_sphere(local);
            match coords {
                Option::None => {},
                Option::Some(c) => {
                    target.target = Some(c);
                },
            }
        },
    }
}

} // verus!
