//! How the player moves and what the packets about it set.
use crate::float_bits::{floor_of, is_double, rank_double};
use crate::minecraft::geometry::Vec3;
use crate::minecraft::hud::{PacketLogin, PacketUpdateHealth};
use crate::minecraft::motion::{clamp_epsilon, collision_result, friction_below, CollisionResult};
use crate::minecraft::player::{
    LocalPlayer, MovementPacket, PacketExperience, PacketPosition, PacketPositionLook, PositionSums,
};
use crate::minecraft::shapes::{friction_of, BlockTables, BoxRange, FrictionOverride};
use crate::minecraft::world::World;
use vstd::prelude::*;

verus! {

/// Whether two doubles compare as the same number.
pub open spec fn same_number(a: u64, b: u64) -> bool {
    is_double(a) && is_double(b) && rank_double(a) == rank_double(b)
}

/// A part of the velocity is kept or dropped: dropped where its size, whatever the
/// sign, is below three thousandths.
pub proof fn law_small_parts_are_dropped(component: &mut u64)
    requires
        call_ensures(clamp_epsilon, (component,), ()),
    ensures
        *final(component) == 0 || *final(component) == *old(component),
        *old(component) < 0x3F68_9374_BC6A_7EFA ==> *final(component) == 0,
        0x8000_0000_0000_0000 <= *old(component) < 0xBF68_9374_BC6A_7EFA ==> *final(component)
            == 0,
        0x3F68_9374_BC6A_7EFA <= *old(component) < 0x8000_0000_0000_0000 ==> *final(component)
            == *old(component),
        *old(component) >= 0xBF68_9374_BC6A_7EFA ==> *final(component) == *old(component),
{
}

/// A move that came out as asked for hit nothing. One cut short along x or z hit a
/// wall, one cut short along y the floor or the ceiling: the floor where it went
/// down, which is the only way to stand on the ground.
pub proof fn law_cut_moves_collide(movement: Vec3, requested: Vec3, r: CollisionResult)
    requires
        call_ensures(collision_result, (movement, requested), r),
    ensures
        r.movement == movement,
        r.horizontal_collision <==> !(same_number(movement.x, requested.x) && same_number(
            movement.z,
            requested.z,
        )),
        r.vertical_collision <==> !same_number(movement.y, requested.y),
        r.on_ground ==> r.vertical_collision,
        r.on_ground ==> rank_double(requested.y) < 0,
        r.vertical_collision && is_double(requested.y) && rank_double(requested.y) < 0
            ==> r.on_ground,
{
}

/// A tick that starts a jump sets the upward velocity and ten ticks of delay; it
/// needs the key, the ground and no delay. Any other tick counts the delay down.
/// The velocity along x and z is never raised, and nothing else changes.
pub proof fn law_jumps_start_from_the_ground(p: &mut LocalPlayer, jumped: bool)
    requires
        call_ensures(LocalPlayer::begin_step, (p,), jumped),
    ensures
        jumped <==> old(p).input.jump && old(p).on_ground && old(p).jump_delay <= 1,
        jumped ==> final(p).velocity.y == 0x3FDA_E147_AE14_7AE1 && final(p).jump_delay == 10,
        !jumped ==> final(p).velocity.y == 0 || final(p).velocity.y == old(p).velocity.y,
        !jumped && old(p).jump_delay == 0 ==> final(p).jump_delay == 0,
        !jumped && old(p).jump_delay > 0 ==> final(p).jump_delay == old(p).jump_delay - 1,
        final(p).velocity.x == 0 || final(p).velocity.x == old(p).velocity.x,
        final(p).velocity.z == 0 || final(p).velocity.z == old(p).velocity.z,
        *final(p) == (LocalPlayer {
            velocity: final(p).velocity,
            jump_delay: final(p).jump_delay,
            ..*old(p)
        }),
{
}

/// A move leaves the player where it ends, with the flags of its collision. The
/// velocity stays on the axes along which the move was as fast, and is gone on the
/// others.
pub proof fn law_moves_end_where_they_lead(
    p: &mut LocalPlayer,
    to: Vec3,
    result: CollisionResult,
)
    requires
        call_ensures(LocalPlayer::finish_move, (p, to, result), ()),
    ensures
        final(p).position.at == to,
        final(p).position.yaw == old(p).position.yaw,
        final(p).position.pitch == old(p).position.pitch,
        final(p).on_ground == result.on_ground,
        final(p).horizontal_collision == result.horizontal_collision,
        final(p).velocity.x == (if same_number(result.movement.x, old(p).velocity.x) {
            old(p).velocity.x
        } else {
            0
        }),
        final(p).velocity.y == (if same_number(result.movement.y, old(p).velocity.y) {
            old(p).velocity.y
        } else {
            0
        }),
        final(p).velocity.z == (if same_number(result.movement.z, old(p).velocity.z) {
            old(p).velocity.z
        } else {
            0
        }),
        *final(p) == (LocalPlayer {
            position: final(p).position,
            on_ground: final(p).on_ground,
            horizontal_collision: final(p).horizontal_collision,
            velocity: final(p).velocity,
            ..*old(p)
        }),
{
}

/// The first range that holds a state gives its friction; without one it is six
/// tenths.
pub proof fn law_the_first_range_gives_the_friction(
    overrides: Seq<FrictionOverride>,
    state_id: u32,
    k: int,
)
    ensures
        0 <= k < overrides.len() && overrides[k].first <= state_id <= overrides[k].last && (forall|
            j: int,
        |
            0 <= j < k ==> !((#[trigger] overrides[j]).first <= state_id <= overrides[j].last))
            ==> friction_of(overrides, state_id) == overrides[k].friction,
        (forall|j: int|
            0 <= j < overrides.len() ==> !((#[trigger] overrides[j]).first <= state_id
                <= overrides[j].last)) ==> friction_of(overrides, state_id)
            == 0x3FE3_3333_3333_3333,
    decreases overrides.len(),
{
    if overrides.len() > 0 {
        let rest = overrides.drop_first();
        law_the_first_range_gives_the_friction(rest, state_id, k - 1);
        assert(forall|j: int| 0 <= j < rest.len() ==> #[trigger] rest[j] == overrides[j + 1]);
    }
}

/// The friction below the player is that of the block at the floor of the point, x,
/// y and z in their places.
pub proof fn law_friction_comes_from_the_block_at_the_point(
    world: &World,
    tables: &BlockTables,
    at: Vec3,
    friction: u64,
    state: u32,
    own: u64,
)
    requires
        call_ensures(friction_below, (world, tables, at), friction),
        call_ensures(BlockTables::block_friction, (tables, state), own),
    ensures
        world@.block(
            floor_of(at.x) as int,
            floor_of(at.y) as int,
            floor_of(at.z) as int,
        ) is None ==> friction == 0x3FE3_3333_3333_3333,
        world@.block(
            floor_of(at.x) as int,
            floor_of(at.y) as int,
            floor_of(at.z) as int,
        ) == Some(state) ==> friction == own,
{
}

/// The boxes of a state are those of its shape, and no box is past the last.
pub proof fn law_boxes_come_from_the_shape_of_the_state(
    tables: &BlockTables,
    state_id: u32,
    range: Option<BoxRange>,
)
    requires
        call_ensures(BlockTables::collision_boxes, (tables, state_id), range),
    ensures
        range matches Some(r) ==> state_id < tables.state_shapes@.len()
            && tables.state_shapes@[state_id as int] < tables.shape_ranges@.len()
            && tables.shape_ranges@[tables.state_shapes@[state_id as int] as int] == r && r.start
            + r.count <= tables.box_count,
        range is None ==> state_id >= tables.state_shapes@.len()
            || tables.state_shapes@[state_id as int] >= tables.shape_ranges@.len()
            || tables.shape_ranges@[tables.state_shapes@[state_id as int] as int].start
            + tables.shape_ranges@[tables.state_shapes@[state_id as int] as int].count
            > tables.box_count,
{
}

/// A player that joins has full vitals, stands at the origin and is not loaded.
pub proof fn law_players_join_in_full_health(p: LocalPlayer)
    requires
        call_ensures(LocalPlayer::new, (), p),
    ensures
        p.entity_id is None,
        p.health == 0x41A0_0000 && p.food == 20 && p.saturation == 0x40A0_0000,
        p.xp_bar == 0 && p.xp_level == 0 && p.total_experience == 0,
        p.position.at.x == 0 && p.position.at.y == 0 && p.position.at.z == 0,
        p.position.yaw == 0 && p.position.pitch == 0,
        p.velocity.x == 0 && p.velocity.y == 0 && p.velocity.z == 0,
        !p.loaded && !p.on_ground && !p.horizontal_collision,
        p.input.forward == 0 && p.input.strafe == 0,
        !p.input.jump && !p.input.sprint && !p.input.sneak,
        p.jump_delay == 0 && p.position_reminder == 0,
        p.last_position == p.position,
{
}

/// Logging in takes the own entity id and asks for the world to be loaded anew.
pub proof fn law_logins_name_the_player(p: &mut LocalPlayer, packet: &PacketLogin)
    requires
        call_ensures(LocalPlayer::on_login, (p, packet), ()),
    ensures
        final(p).entity_id == Some(packet.entity_id),
        !final(p).loaded,
        *final(p) == (LocalPlayer { entity_id: final(p).entity_id, loaded: false, ..*old(p) }),
{
}

/// A new life starts at rest and off the ground, with the world to be loaded anew;
/// where the player is and looks stays.
pub proof fn law_new_lives_start_at_rest(p: &mut LocalPlayer)
    requires
        call_ensures(LocalPlayer::on_respawn, (p,), ()),
    ensures
        !final(p).loaded && !final(p).on_ground && !final(p).horizontal_collision,
        final(p).velocity.x == 0 && final(p).velocity.y == 0 && final(p).velocity.z == 0,
        final(p).position == old(p).position,
        final(p).entity_id == old(p).entity_id,
        *final(p) == (LocalPlayer {
            loaded: false,
            on_ground: false,
            horizontal_collision: false,
            velocity: final(p).velocity,
            ..*old(p)
        }),
{
}

/// Vitals, experience and velocity are those that the server says, each in its own
/// place, and nothing else changes.
pub proof fn law_vitals_are_what_the_server_says(
    p: &mut LocalPlayer,
    q: &mut LocalPlayer,
    v: &mut LocalPlayer,
    health: &PacketUpdateHealth,
    experience: &PacketExperience,
    velocity: Vec3,
)
    requires
        call_ensures(LocalPlayer::on_health, (p, health), ()),
        call_ensures(LocalPlayer::on_experience, (q, experience), ()),
        call_ensures(LocalPlayer::apply_velocity, (v, velocity), ()),
    ensures
        final(p).health == health.health,
        final(p).food == health.food,
        final(p).saturation == health.food_saturation,
        *final(p) == (LocalPlayer {
            health: final(p).health,
            food: final(p).food,
            saturation: final(p).saturation,
            ..*old(p)
        }),
        final(q).xp_bar == experience.experience_bar,
        final(q).xp_level == experience.level,
        final(q).total_experience == experience.total_experience,
        *final(q) == (LocalPlayer {
            xp_bar: final(q).xp_bar,
            xp_level: final(q).xp_level,
            total_experience: final(q).total_experience,
            ..*old(q)
        }),
        final(v).velocity == velocity,
        *final(v) == (LocalPlayer { velocity, ..*old(v) }),
{
}

/// Alive is whoever has health above zero.
pub proof fn law_the_living_have_health(p: &LocalPlayer, alive: bool)
    requires
        call_ensures(LocalPlayer::is_alive, (p,), alive),
    ensures
        p.health == 0 ==> !alive,
        p.health >= 0x8000_0000 ==> !alive,
        0 < p.health <= 0x7F80_0000 ==> alive,
        0x7F80_0000 < p.health ==> !alive,
{
}

/// The server puts the player where it says: a part whose bit is not set is the one
/// of the packet, one whose bit is set the sum.
pub proof fn law_teleports_move_the_player(
    p: &mut LocalPlayer,
    packet: &PacketPosition,
    sums: &PositionSums,
)
    requires
        call_ensures(LocalPlayer::on_position, (p, packet, sums), ()),
    ensures
        packet.flags == 0 ==> final(p).position.at == packet.at && final(p).position.yaw
            == packet.yaw && final(p).position.pitch == packet.pitch && final(p).velocity
            == packet.velocity,
        packet.flags == 0xFF ==> final(p).position.at == sums.at && final(p).position.yaw
            == sums.yaw && final(p).position.pitch == sums.pitch && final(p).velocity
            == sums.velocity,
        *final(p) == (LocalPlayer {
            position: final(p).position,
            velocity: final(p).velocity,
            ..*old(p)
        }),
{
    crate::laws::reports::law_teleports_take_parts_by_their_flags(*packet, *sums);
    assert(0u32 & 0x01 == 0 && 0u32 & 0x02 == 0 && 0u32 & 0x04 == 0 && 0u32 & 0x08 == 0 && 0u32
        & 0x10 == 0 && 0u32 & 0x20 == 0 && 0u32 & 0x40 == 0 && 0u32 & 0x80 == 0 && 0xFFu32 & 0x01
        != 0 && 0xFFu32 & 0x02 != 0 && 0xFFu32 & 0x04 != 0 && 0xFFu32 & 0x08 != 0 && 0xFFu32 & 0x10
        != 0 && 0xFFu32 & 0x20 != 0 && 0xFFu32 & 0x40 != 0 && 0xFFu32 & 0x80 != 0)
        by (bit_vector);
}

/// Marking the world as loaded takes the place of now as the last one reported.
pub proof fn law_loaded_players_start_from_their_place(p: &mut LocalPlayer)
    requires
        call_ensures(LocalPlayer::mark_loaded, (p,), ()),
    ensures
        final(p).loaded,
        final(p).last_position == old(p).position,
        final(p).last_on_ground == old(p).on_ground,
        final(p).last_horizontal_collision == old(p).horizontal_collision,
        final(p).position_reminder == 0,
        *final(p) == (LocalPlayer {
            loaded: true,
            last_position: final(p).last_position,
            last_on_ground: final(p).last_on_ground,
            last_horizontal_collision: final(p).last_horizontal_collision,
            position_reminder: 0,
            ..*old(p)
        }),
{
}

/// The answer to a teleport says where the player is and looks, with no flag set.
pub proof fn law_teleports_are_answered_with_the_place(
    p: &mut LocalPlayer,
    packet: PacketPositionLook,
)
    requires
        call_ensures(LocalPlayer::teleport_ack_movement, (p,), packet),
    ensures
        packet.at == old(p).position.at,
        packet.yaw == old(p).position.yaw,
        packet.pitch == old(p).position.pitch,
        packet.flags == 0,
        final(p).position == old(p).position,
        final(p).last_position == old(p).position,
        final(p).position_reminder == 0,
{
}

/// A tick of a loaded player that sends a position sends that of now, and what is
/// kept as last reported is what was sent. Before the world is loaded nothing is
/// sent and nothing changes.
pub proof fn law_ticks_report_the_place_of_now(
    p: &mut LocalPlayer,
    moved: bool,
    packet: Option<MovementPacket>,
)
    requires
        call_ensures(LocalPlayer::movement_packet, (p, moved), packet),
    ensures
        !old(p).loaded ==> packet is None && *final(p) == *old(p),
        packet matches Some(MovementPacket::PositionLook(q)) ==> q.at == old(p).position.at
            && q.yaw == old(p).position.yaw && q.pitch == old(p).position.pitch
            && final(p).last_position == old(p).position,
        packet matches Some(MovementPacket::Position(q)) ==> q.at == old(p).position.at
            && final(p).last_position.at == q.at && final(p).last_position.yaw
            == old(p).last_position.yaw && final(p).last_position.pitch
            == old(p).last_position.pitch,
        packet matches Some(MovementPacket::Look(q)) ==> q.yaw == old(p).position.yaw && q.pitch
            == old(p).position.pitch && final(p).last_position.at == old(p).last_position.at
            && final(p).last_position.yaw == q.yaw && final(p).last_position.pitch == q.pitch,
        packet matches Some(MovementPacket::StatusOnly(_)) ==> final(p).last_position
            == old(p).last_position,
        packet is None ==> final(p).last_position == old(p).last_position,
        old(p).loaded && moved ==> (packet matches Some(q) && (q is PositionLook || q is Position)),
        old(p).loaded && old(p).on_ground != old(p).last_on_ground ==> packet is Some,
        final(p).position == old(p).position,
        final(p).velocity == old(p).velocity,
{
}

} // verus!
