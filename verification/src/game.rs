//! One tick of the game: what is drawn, and where the camera goes.

use vstd::prelude::*;

use crate::screen::{render_world, rendering, with_player, Screen};
use crate::vector::{representable, Vector2};
use crate::world::World;

verus! {

/// Where the camera stands after `ticks` ticks under one movement intent.
pub open spec fn camera_after(camera: Vector2, intent: Vector2, ticks: nat) -> Vector2
    decreases ticks,
{
    if ticks == 0 {
        camera
    } else {
        camera_after(camera, intent, (ticks - 1) as nat).plus(intent)
    }
}

/// The buffer and the camera after one tick. The screen is cleared, the
/// world is projected onto it as the camera stood before the tick, the camera
/// moves by the intent, and the player marker is laid over the cell named by
/// the camera's new position.
pub fn tick(screen: Screen, world: &World, camera: Vector2, intent: Vector2) -> (next: (
    Screen,
    Vector2,
))
    requires
        representable(camera.x + intent.x, camera.y + intent.y),
    ensures
        next.1.x == camera.x + intent.x,
        next.1.y == camera.y + intent.y,
        next.1 == camera_after(camera, intent, 1),
        next.0@ == with_player(
            rendering(world@, camera, screen@.size_x, screen@.size_y),
            next.1,
        ),
{
    let mut screen = screen;
    screen.init();
    let screen = render_world(screen, world, camera);
    let moved = camera.add(intent);
    let screen = screen.place_player(moved);
    proof {
        reveal_with_fuel(camera_after, 2);
    }
    (screen, moved)
}

/// A product of a count and a step lies between zero and the product with a
/// larger count.
proof fn lemma_partial_sum_between(step: int, fewer: int, more: int)
    requires
        0 <= fewer <= more,
    ensures
        step >= 0 ==> 0 <= fewer * step <= more * step,
        step <= 0 ==> more * step <= fewer * step <= 0,
{
    assert(step >= 0 ==> 0 <= fewer * step <= more * step) by (nonlinear_arith)
        requires
            0 <= fewer <= more,
    ;
    assert(step <= 0 ==> more * step <= fewer * step <= 0) by (nonlinear_arith)
        requires
            0 <= fewer <= more,
    ;
}

/// Movement accumulates. Under one movement intent the camera is, after
/// `ticks` ticks, `ticks` times the intent away from where it began, as long
/// as that place is representable.
pub proof fn lemma_movement_accumulates(camera: Vector2, intent: Vector2, ticks: nat)
    requires
        representable(camera.x + ticks * intent.x, camera.y + ticks * intent.y),
    ensures
        camera_after(camera, intent, ticks).x == camera.x + ticks * intent.x,
        camera_after(camera, intent, ticks).y == camera.y + ticks * intent.y,
    decreases ticks,
{
    if ticks > 0 {
        let before = (ticks - 1) as nat;
        let (dx, dy) = (intent.x as int, intent.y as int);
        let (t, b) = (ticks as int, before as int);
        // The place after one tick less lies between the first and the last.
        lemma_partial_sum_between(dx, b, t);
        lemma_partial_sum_between(dy, b, t);
        assert(t * dx == b * dx + dx && t * dy == b * dy + dy) by (nonlinear_arith)
            requires
                b == t - 1,
        ;
        lemma_movement_accumulates(camera, intent, before);
    } else {
        assert(ticks * intent.x == 0 && ticks * intent.y == 0) by (nonlinear_arith)
            requires
                ticks == 0,
        ;
    }
}

} // verus!
