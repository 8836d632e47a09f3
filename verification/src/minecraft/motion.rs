//! One tick of movement: what is decided around the arithmetic. The float layer
//! adds, multiplies and clips; this says when a jump starts, which friction
//! holds, and what a clipped move leaves behind.
use crate::float_bits::{
    differ, doubles_differ, floor_double, floor_of, is_negative_double, negative_double,
};
use crate::minecraft::geometry::Vec3;
use crate::minecraft::player::{LocalPlayer, PlayerPosition};
use crate::minecraft::shapes::{friction_of, BlockTables, DEFAULT_FRICTION};
use crate::minecraft::world::World;
use vstd::prelude::*;

verus! {

/// The upward velocity of a jump: forty-two hundredths, as double-precision
/// bits.
pub const JUMP_POWER: u64 = 0x3FDA_E147_AE14_7AE1;

/// Ticks between two jumps with the key held down.
pub const JUMP_DELAY_TICKS: u8 = 10;

/// A part of the velocity below this counts as none: three thousandths, as
/// double-precision bits.
pub const VELOCITY_EPSILON: u64 = 0x3F68_9374_BC6A_7EFA;

/// A part of a velocity, or nothing where it is too small to count.
pub open spec fn damped(component: u64) -> u64 {
    if component % 0x8000_0000_0000_0000 < VELOCITY_EPSILON {
        0
    } else {
        component
    }
}

/// A velocity without the parts that are too small to count.
pub open spec fn damped_velocity(v: Vec3) -> Vec3 {
    Vec3 { x: damped(v.x), y: damped(v.y), z: damped(v.z) }
}

/// Vanilla's per-axis clamp: any component below the epsilon is zeroed.
pub fn clamp_epsilon(component: &mut u64)
    ensures
        *final(component) == damped(*old(component)),
{
    if *component % 0x8000_0000_0000_0000 < VELOCITY_EPSILON {
        *component = 0;
    }
}

/// How a move ended.
#[derive(Debug, Clone, Copy, PartialEq)]
pub struct CollisionResult {
    pub movement: Vec3,
    pub horizontal_collision: bool,
    pub vertical_collision: bool,
    pub on_ground: bool,
}

/// How a move ended, given what was asked for: whatever was cut short hit
/// something, and what was cut short on its way down stands on the ground.
pub fn collision_result(movement: Vec3, requested: Vec3) -> (r: CollisionResult)
    ensures
        r.movement == movement,
        r.horizontal_collision == (doubles_differ(movement.x, requested.x) || doubles_differ(
            movement.z,
            requested.z,
        )),
        r.vertical_collision == doubles_differ(movement.y, requested.y),
        r.on_ground == (r.vertical_collision && is_negative_double(requested.y)),
{
    let vertical_collision = differ(movement.y, requested.y);
    CollisionResult {
        movement,
        horizontal_collision: differ(movement.x, requested.x) || differ(movement.z, requested.z),
        vertical_collision,
        on_ground: vertical_collision && negative_double(requested.y),
    }
}

/// One part of a velocity after a move: none is left where the move was cut
/// short.
pub open spec fn kept(velocity: u64, moved: u64) -> u64 {
    if doubles_differ(moved, velocity) {
        0
    } else {
        velocity
    }
}

impl LocalPlayer {
    /// Ticks left before a jump is allowed, this tick taken off.
    pub open spec fn delay_left(self) -> u8 {
        if self.jump_delay > 0 {
            (self.jump_delay - 1) as u8
        } else {
            0
        }
    }

    /// Whether a jump starts in this tick: the key is held, the player stands on
    /// the ground, and the last jump is long enough ago.
    pub open spec fn jumps(self) -> bool {
        self.input.jump && self.on_ground && self.delay_left() == 0
    }

    /// The player after the first part of a tick.
    pub open spec fn stepped(self) -> LocalPlayer {
        let velocity = damped_velocity(self.velocity);
        if self.jumps() {
            LocalPlayer {
                velocity: Vec3 { y: JUMP_POWER, ..velocity },
                jump_delay: JUMP_DELAY_TICKS,
                ..self
            }
        } else {
            LocalPlayer { velocity, jump_delay: self.delay_left(), ..self }
        }
    }

    /// Starts a tick: velocities too small to count are dropped, and a ground
    /// jump is applied, before friction and speed are looked up. True where a
    /// jump started.
    pub fn begin_step(&mut self) -> (jumped: bool)
        ensures
            jumped == old(self).jumps(),
            *final(self) == old(self).stepped(),
    {
        clamp_epsilon(&mut self.velocity.x);
        clamp_epsilon(&mut self.velocity.y);
        clamp_epsilon(&mut self.velocity.z);
        if self.jump_delay > 0 {
            self.jump_delay -= 1;
        }
        if self.input.jump && self.on_ground && self.jump_delay == 0 {
            self.velocity.y = JUMP_POWER;
            self.jump_delay = JUMP_DELAY_TICKS;
            true
        } else {
            false
        }
    }

    /// Ends a move at `to`: flags follow from the collision, and a velocity is
    /// dropped on every clipped axis.
    pub fn finish_move(&mut self, to: Vec3, result: CollisionResult)
        ensures
            *final(self) == (LocalPlayer {
                position: PlayerPosition { at: to, ..old(self).position },
                on_ground: result.on_ground,
                horizontal_collision: result.horizontal_collision,
                velocity: Vec3 {
                    x: kept(old(self).velocity.x, result.movement.x),
                    y: kept(old(self).velocity.y, result.movement.y),
                    z: kept(old(self).velocity.z, result.movement.z),
                },
                ..*old(self)
            }),
    {
        self.position.at = to;
        self.on_ground = result.on_ground;
        self.horizontal_collision = result.horizontal_collision;
        if differ(result.movement.x, self.velocity.x) {
            self.velocity.x = 0;
        }
        if differ(result.movement.y, self.velocity.y) {
            self.velocity.y = 0;
        }
        if differ(result.movement.z, self.velocity.z) {
            self.velocity.z = 0;
        }
    }
}

/// The friction of the block at a point, a little below the feet of the player;
/// an unloaded block falls back to the default friction.
pub fn friction_below(world: &World, tables: &BlockTables, at: Vec3) -> (bits: u64)
    requires
        world@.valid(),
    ensures
        bits == (match world@.block(
            floor_of(at.x) as int,
            floor_of(at.y) as int,
            floor_of(at.z) as int,
        ) {
            Some(state) => friction_of(tables.friction_overrides@, state),
            None => DEFAULT_FRICTION,
        }),
{
    match world.block_state(floor_double(at.x), floor_double(at.y), floor_double(at.z)) {
        Some(state) => tables.block_friction(state),
        None => DEFAULT_FRICTION,
    }
}

/// After a jump there is none in the next nine ticks, whatever the keys and the
/// ground do meanwhile.
pub proof fn law_jumps_are_spaced(ticks: Seq<LocalPlayer>, n: int)
    requires
        0 < n < ticks.len(),
        n < JUMP_DELAY_TICKS,
        ticks[0].jumps(),
        forall|i: int|
            0 <= i < ticks.len() - 1 ==> (#[trigger] ticks[i + 1]).jump_delay
                == ticks[i].stepped().jump_delay,
    ensures
        !ticks[n].jumps(),
        ticks[n].jump_delay == JUMP_DELAY_TICKS - (n - 1),
    decreases n,
{
    if n > 1 {
        law_jumps_are_spaced(ticks, n - 1);
    }
    assert(ticks[(n - 1) + 1].jump_delay == ticks[n - 1].stepped().jump_delay);
}

} // verus!
