//! When values of the library are equal.
use crate::float_bits::{singles_equal, Double, Single};
use crate::laws::motion::same_number;
use crate::minecraft::control::{ActionValidationError, BlockPlacement, RandomLookConfig};
use crate::minecraft::geometry::Vec3;
use crate::minecraft::hud::{
    Abilities, Experience, SpawnPosition, Vitals, WeatherState, WorldBorderState,
};
use crate::minecraft::nbt::Nbt;
use crate::minecraft::play::PacketUseItem;
use crate::minecraft::player::{
    LocalPlayer, MovementInput, PacketLook, PacketPositionLook, PlayerPosition,
};
use vstd::prelude::*;
use vstd::std_specs::cmp::PartialEqSpec;

verus! {

/// Whether two singles compare as the same number.
pub open spec fn same_fraction(a: u32, b: u32) -> bool {
    &&& a % 0x8000_0000 <= 0x7F80_0000
    &&& b % 0x8000_0000 <= 0x7F80_0000
    &&& a == b || (a % 0x8000_0000 == 0 && b % 0x8000_0000 == 0)
}

/// Fractions are equal as numbers are: the two zeros are, and what is no number is not.
pub proof fn law_fractions_are_equal_as_numbers(a: Single, b: Single, x: Double, y: Double)
    ensures
        a.eq_spec(&b) <==> same_fraction(a.0, b.0),
        singles_equal(a.0, b.0) <==> same_fraction(a.0, b.0),
        x.eq_spec(&y) <==> same_number(x.0, y.0),
{
}

/// Points, places and inputs are equal where every part is.
pub proof fn law_places_are_equal_part_by_part(
    a: Vec3,
    b: Vec3,
    p: PlayerPosition,
    q: PlayerPosition,
    i: MovementInput,
    j: MovementInput,
)
    ensures
        a.eq_spec(&b) <==> same_number(a.x, b.x) && same_number(a.y, b.y) && same_number(a.z, b.z),
        p.eq_spec(&q) <==> p.at.eq_spec(&q.at) && same_fraction(p.yaw, q.yaw) && same_fraction(
            p.pitch,
            q.pitch,
        ),
        i.eq_spec(&j) <==> same_fraction(i.forward, j.forward) && same_fraction(i.strafe, j.strafe)
            && i.jump == j.jump && i.sprint == j.sprint && i.sneak == j.sneak,
{
}

/// Packets about the player are equal where every part is.
pub proof fn law_packets_are_equal_part_by_part(
    a: PacketPositionLook,
    b: PacketPositionLook,
    c: PacketLook,
    d: PacketLook,
    e: PacketUseItem,
    f: PacketUseItem,
)
    ensures
        a.eq_spec(&b) <==> a.at.eq_spec(&b.at) && same_fraction(a.yaw, b.yaw) && same_fraction(
            a.pitch,
            b.pitch,
        ) && a.flags == b.flags,
        c.eq_spec(&d) <==> same_fraction(c.yaw, d.yaw) && same_fraction(c.pitch, d.pitch) && c.flags
            == d.flags,
        e.eq_spec(&f) <==> e.hand == f.hand && e.sequence == f.sequence && same_fraction(
            e.yaw,
            f.yaw,
        ) && same_fraction(e.pitch, f.pitch),
{
}

/// Players are equal where everything of them is.
pub proof fn law_players_are_equal_part_by_part(a: LocalPlayer, b: LocalPlayer)
    ensures
        a.eq_spec(&b) <==> {
            &&& a.entity_id == b.entity_id
            &&& a.position.eq_spec(&b.position)
            &&& singles_equal(a.health, b.health)
            &&& a.food == b.food
            &&& singles_equal(a.saturation, b.saturation)
            &&& singles_equal(a.xp_bar, b.xp_bar)
            &&& a.xp_level == b.xp_level
            &&& a.total_experience == b.total_experience
            &&& a.loaded == b.loaded
            &&& a.on_ground == b.on_ground
            &&& a.horizontal_collision == b.horizontal_collision
            &&& a.velocity.eq_spec(&b.velocity)
            &&& a.input.eq_spec(&b.input)
            &&& a.jump_delay == b.jump_delay
            &&& a.last_position.eq_spec(&b.last_position)
            &&& a.last_on_ground == b.last_on_ground
            &&& a.last_horizontal_collision == b.last_horizontal_collision
            &&& a.position_reminder == b.position_reminder
        },
{
}

/// What the HUD shows is equal where every part is.
pub proof fn law_hud_parts_are_equal_part_by_part(
    v: (Vitals, Vitals),
    x: (Experience, Experience),
    a: (Abilities, Abilities),
    w: (WeatherState, WeatherState),
    p: (SpawnPosition, SpawnPosition),
    b: (WorldBorderState, WorldBorderState),
)
    ensures
        v.0.eq_spec(&v.1) <==> same_fraction(v.0.health, v.1.health) && v.0.food == v.1.food
            && same_fraction(v.0.saturation, v.1.saturation),
        x.0.eq_spec(&x.1) <==> same_fraction(x.0.bar, x.1.bar) && x.0.level == x.1.level
            && x.0.total == x.1.total,
        a.0.eq_spec(&a.1) <==> a.0.raw_flags == a.1.raw_flags && same_fraction(
            a.0.flying_speed,
            a.1.flying_speed,
        ) && same_fraction(a.0.walking_speed, a.1.walking_speed),
        w.0.eq_spec(&w.1) <==> w.0.raining == w.1.raining && same_fraction(
            w.0.rain_level,
            w.1.rain_level,
        ) && same_fraction(w.0.thunder_level, w.1.thunder_level),
        p.0.eq_spec(&p.1) <==> p.0.position.x == p.1.position.x && p.0.position.y
            == p.1.position.y && p.0.position.z == p.1.position.z && same_fraction(
            p.0.angle,
            p.1.angle,
        ),
        b.0.eq_spec(&b.1) <==> same_number(b.0.center_x, b.1.center_x) && same_number(
            b.0.center_z,
            b.1.center_z,
        ) && same_number(b.0.old_diameter, b.1.old_diameter) && same_number(
            b.0.new_diameter,
            b.1.new_diameter,
        ) && b.0.lerp_millis == b.1.lerp_millis && b.0.portal_teleport_boundary
            == b.1.portal_teleport_boundary && b.0.warning_blocks == b.1.warning_blocks
            && b.0.warning_time == b.1.warning_time,
{
}

/// Requests are equal where every part is, and refusals where they say the same.
pub proof fn law_requests_are_equal_part_by_part(
    p: BlockPlacement,
    q: BlockPlacement,
    c: RandomLookConfig,
    d: RandomLookConfig,
    e: ActionValidationError,
    f: ActionValidationError,
)
    ensures
        p.eq_spec(&q) <==> p.x == q.x && p.y == q.y && p.z == q.z && p.face == q.face && p.hand
            == q.hand && same_fraction(p.cursor_x, q.cursor_x) && same_fraction(
            p.cursor_y,
            q.cursor_y,
        ) && same_fraction(p.cursor_z, q.cursor_z) && p.inside_block == q.inside_block,
        c.eq_spec(&d) <==> c.min_interval_nanos == d.min_interval_nanos && c.max_interval_nanos
            == d.max_interval_nanos && same_fraction(c.max_yaw_delta, d.max_yaw_delta)
            && same_fraction(c.min_pitch, d.min_pitch) && same_fraction(c.max_pitch, d.max_pitch)
            && c.seed == d.seed,
        !(e is BlockCursorOutOfRange) ==> (e.eq_spec(&f) <==> e == f),
        e is BlockCursorOutOfRange && f is BlockCursorOutOfRange ==> (e.eq_spec(&f)
            <==> same_fraction(e->value, f->value)),
{
}

/// Tags are equal where they are alike.
pub proof fn law_tags_are_equal_where_alike(a: Nbt, b: Nbt, r: bool)
    requires
        call_ensures(crate::minecraft::nbt_wire::same_tag, (&a, &b), r),
    ensures
        a.eq_spec(&b) <==> r,
        a is Int && b is Int ==> (r <==> a == b),
{
}

} // verus!
