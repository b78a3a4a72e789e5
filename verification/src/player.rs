//! An actor against the level: each step the pixel under the actor is looked
//! up, and the actor either moves on or is thrown back.

use vstd::prelude::*;
use crate::color::{is_solid, Rgba};
use crate::image_helper::{get_pixel_u8, pixel_or_transparent};
use crate::raster::Raster;
use crate::transform::{local_pixel, world_to_local_pixel, LevelTransform, TransformError, WorldVec};

verus! {

/// What the collision step keeps of an actor: where it is, how fast it
/// moves, and the last place at which it was found clear of terrain.
#[derive(Clone, Copy, Debug, PartialEq, Eq, Structural)]
pub struct Actor {
    pub position: WorldVec,
    pub velocity: WorldVec,
    pub safe_position: WorldVec,
}

impl Actor {
    /// Whether both components of the velocity can be turned round: the most
    /// negative `i32` has no positive counterpart.
    pub open spec fn can_bounce(self) -> bool {
        self.velocity.x > i32::MIN && self.velocity.y > i32::MIN
    }

    /// An actor at rest at `position`, which is also its last safe place.
    pub fn at(position: WorldVec) -> (actor: Actor)
        ensures
            actor.position == position,
            actor.velocity == (WorldVec { x: 0, y: 0 }),
            actor.safe_position == position,
            actor.can_bounce(),
    {
        Actor { position, velocity: WorldVec { x: 0, y: 0 }, safe_position: position }
    }
}

/// The actor after a step in which `pixel` was found under it. Clear of
/// terrain, its place becomes its last safe place. In terrain, both
/// components of its velocity turn round and it is put back to the x of its
/// last safe place; its y and its last safe place stay.
pub open spec fn resolved(actor: Actor, pixel: Rgba) -> Actor {
    if is_solid(pixel) {
        Actor {
            position: WorldVec { x: actor.safe_position.x, y: actor.position.y },
            velocity: WorldVec { x: (-actor.velocity.x) as i32, y: (-actor.velocity.y) as i32 },
            safe_position: actor.safe_position,
        }
    } else {
        Actor { position: actor.position, velocity: actor.velocity, safe_position: actor.position }
    }
}

/// The actor after a step in which `pixel` was found under it.
pub fn resolve(actor: &Actor, pixel: &Rgba) -> (next: Actor)
    requires
        actor.can_bounce(),
    ensures
        next == resolved(*actor, *pixel),
        next.can_bounce(),
{
    if pixel.is_solid() {
        Actor {
            position: WorldVec { x: actor.safe_position.x, y: actor.position.y },
            velocity: WorldVec { x: -actor.velocity.x, y: -actor.velocity.y },
            safe_position: actor.safe_position,
        }
    } else {
        Actor { position: actor.position, velocity: actor.velocity, safe_position: actor.position }
    }
}

/// One collision step of `actor` against the level whose raster is `image`,
/// placed in world space by `level`. The pixel under the actor is read;
/// outside the raster it reads as four zeros, which is terrain. Returns
/// whether the actor hit terrain. Against a level that covers no area the
/// actor is left as it is and the error is returned. The raster is only read.
pub fn player_level_collide(image: &Raster, level: &LevelTransform, actor: &mut Actor) -> (outcome:
    Result<bool, TransformError>)
    requires
        image.wf(),
        old(actor).can_bounce(),
    ensures
        final(actor).can_bounce(),
        outcome == collision(*old(actor), *image, *level),
        *final(actor) == after_collision(*old(actor), *image, *level),
{
    let found = world_to_local_pixel(&actor.position, level, image.width(), image.height());
    match found {
        Ok(pixel_pos) => {
            let pixel = Rgba::from_bytes(get_pixel_u8(&pixel_pos, image));
            let next = resolve(actor, &pixel);
            *actor = next;
            Ok(pixel.is_solid())
        },
        Err(error) => Err(error),
    }
}

/// The pixel that a collision step of `actor` reads, if the level can be
/// inverted.
pub open spec fn pixel_under(actor: Actor, image: Raster, level: LevelTransform) -> Result<
    Rgba,
    TransformError,
> {
    match local_pixel(actor.position, level, image.spec_width(), image.spec_height()) {
        Ok(pos) => Ok(pixel_or_transparent(image, pos.x as int, pos.y as int)),
        Err(error) => Err(error),
    }
}

/// Whether a collision step of `actor` hits terrain.
pub open spec fn collision(actor: Actor, image: Raster, level: LevelTransform) -> Result<
    bool,
    TransformError,
> {
    match pixel_under(actor, image, level) {
        Ok(pixel) => Ok(is_solid(pixel)),
        Err(error) => Err(error),
    }
}

/// The actor after a collision step.
pub open spec fn after_collision(actor: Actor, image: Raster, level: LevelTransform) -> Actor {
    match pixel_under(actor, image, level) {
        Ok(pixel) => resolved(actor, pixel),
        Err(_) => actor,
    }
}

/// A collision step of an actor that stands on a pure white pixel of the
/// level reports no hit, makes the actor's place its last safe place and
/// leaves its velocity.
pub proof fn lemma_step_over_white(actor: Actor, image: Raster, level: LevelTransform, pixel: Rgba)
    requires
        pixel_under(actor, image, level) == Ok::<Rgba, TransformError>(pixel),
        pixel.r == 255,
        pixel.g == 255,
        pixel.b == 255,
    ensures
        collision(actor, image, level) == Ok::<bool, TransformError>(false),
        after_collision(actor, image, level).safe_position == actor.position,
        after_collision(actor, image, level).position == actor.position,
        after_collision(actor, image, level).velocity == actor.velocity,
{
}

/// A collision step of an actor that stands on a pixel that is not pure
/// white, or outside the raster, reports a hit and throws the actor back.
pub proof fn lemma_step_into_terrain(actor: Actor, image: Raster, level: LevelTransform, pixel: Rgba)
    requires
        actor.can_bounce(),
        pixel_under(actor, image, level) == Ok::<Rgba, TransformError>(pixel),
        pixel.r != 255 || pixel.g != 255 || pixel.b != 255,
    ensures
        collision(actor, image, level) == Ok::<bool, TransformError>(true),
        after_collision(actor, image, level).velocity.x == -actor.velocity.x,
        after_collision(actor, image, level).velocity.y == -actor.velocity.y,
        after_collision(actor, image, level).position.x == actor.safe_position.x,
        after_collision(actor, image, level).position.y == actor.position.y,
        after_collision(actor, image, level).safe_position == actor.safe_position,
{
}

/// While the actor stays in terrain, step after step, its last safe place
/// never moves and its velocity is back where it was after two steps.
pub proof fn lemma_embedded_actor_bounces_in_place(actor: Actor, first: Rgba, second: Rgba)
    requires
        actor.can_bounce(),
        is_solid(first),
        is_solid(second),
    ensures
        resolved(resolved(actor, first), second).safe_position == actor.safe_position,
        resolved(resolved(actor, first), second).velocity == actor.velocity,
{
}

} // verus!
