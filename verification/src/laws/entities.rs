//! What the packets about other entities do to the table of them.
use crate::minecraft::entity::{
    Entity, EntityStore, PacketEntityHeadRotation, PacketEntityLook, PacketEntityMoveLook,
    PacketEntityTeleport, PacketEntityVelocity, PacketRelEntityMove, PacketSpawnEntity,
    PacketSyncEntityPosition,
};
use crate::minecraft::geometry::{angle_to_degrees, degrees, lemma_top_bit};
use crate::minecraft::palette::bit_length;
use vstd::arithmetic::power2::{
    lemma2_to64, lemma_pow2_adds, lemma_pow2_pos, lemma_pow2_strictly_increases, lemma_pow2_unfold,
    pow2,
};
use vstd::prelude::*;

verus! {

/// Degrees are forty-five thirty-seconds of the angle's steps, exactly: the sign bit
/// is that of the angle, and the significand times its power of two is the product.
pub proof fn law_angles_are_exact_degrees(angle: i8, bits: u32)
    requires
        call_ensures(angle_to_degrees, (angle,), bits),
    ensures
        angle == 0 <==> bits == 0,
        angle < 0 <==> bits >= 0x8000_0000,
        angle != 0 ==> ({
            let exponent = bits as int % 0x8000_0000 / 0x80_0000;
            let significand = 0x80_0000 + bits as int % 0x80_0000;
            let size = if angle < 0 {
                -angle
            } else {
                angle as int
            };
            122 <= exponent <= 145 && significand == 45 * size * pow2((145 - exponent) as nat)
        }),
{
    if angle != 0 {
        let m = if angle < 0 {
            (-angle * 45) as nat
        } else {
            (angle * 45) as nat
        };
        lemma_top_bit(m);
        lemma2_to64();
        let length = bit_length(m);
        if length > 13 {
            if length > 14 {
                lemma_pow2_strictly_increases(13, (length - 1) as nat);
            }
            assert(pow2(13) <= m);
        }
        let top = (length - 1) as nat;
        let a = pow2(top) as int;
        let b = pow2((23 - top) as nat) as int;
        lemma_pow2_adds(top, (23 - top) as nat);
        lemma_pow2_unfold(length);
        lemma_pow2_pos((23 - top) as nat);
        let v = m as int;
        assert(a * b <= v * b < 2 * (a * b)) by (nonlinear_arith)
            requires
                a <= v < 2 * a,
                b > 0,
        ;
        let fraction = v * b - 0x80_0000;
        assert(0 <= fraction < 0x80_0000);
        let raw = (122 + top) * 0x80_0000 + fraction;
        assert(raw / 0x80_0000 == 122 + top && raw % 0x80_0000 == fraction);
        assert(bits as int % 0x8000_0000 == raw);
        assert(bits as int % 0x80_0000 == fraction);
        assert(145 - (122 + top) == 23 - top);
    }
}

/// An entity appears as its packet describes it, each number in its place, off the
/// ground; it replaces whatever had its id, and no other entity changes.
pub proof fn law_entities_appear_as_described(
    store: &mut EntityStore,
    p: &PacketSpawnEntity,
    yaw: u32,
    pitch: u32,
    head: u32,
    other: int,
)
    requires
        call_ensures(EntityStore::spawn, (store, p), ()),
        call_ensures(angle_to_degrees, (p.yaw,), yaw),
        call_ensures(angle_to_degrees, (p.pitch,), pitch),
        call_ensures(angle_to_degrees, (p.head_pitch,), head),
    ensures
        final(store)@.contains_key(p.entity_id as int),
        final(store)@[p.entity_id as int] == (Entity {
            id: p.entity_id,
            uuid: p.object_uuid,
            kind: p.kind,
            position: p.position,
            yaw,
            pitch,
            head_yaw: head,
            velocity: p.velocity,
            on_ground: false,
        }),
        other != p.entity_id ==> final(store)@.contains_key(other) == old(store)@.contains_key(
            other,
        ),
        other != p.entity_id && old(store)@.contains_key(other) ==> final(store)@[other] == old(
            store,
        )@[other],
{
}

/// Entities that were destroyed are gone, and the others are as they were.
pub proof fn law_destroyed_entities_are_gone(store: &mut EntityStore, ids: &Vec<i32>, id: i32)
    requires
        call_ensures(EntityStore::destroy, (store, ids), ()),
    ensures
        ids@.contains(id) ==> !final(store)@.contains_key(id as int),
        !ids@.contains(id) ==> final(store)@.contains_key(id as int) == old(store)@.contains_key(
            id as int,
        ),
        !ids@.contains(id) && old(store)@.contains_key(id as int) ==> final(store)@[id as int]
            == old(store)@[id as int],
{
    crate::minecraft::entity::law_destroy_removes_exactly_the_named(old(store)@, ids@, id);
}

/// The table after a change to one entity: it takes the change where it is tracked,
/// and is not added where it is not. No other entity changes.
pub open spec fn only_changed(
    before: Map<int, Entity>,
    after: Map<int, Entity>,
    id: i32,
    to: Entity,
) -> bool {
    &&& after.dom() =~= before.dom()
    &&& before.contains_key(id as int) ==> after[id as int] == to
    &&& forall|other: int|
        other != id && #[trigger] before.contains_key(other) ==> after[other] == before[other]
}

/// A step moves the entity and sets its ground flag. With a turn it sets the yaw and
/// the pitch too; a turn alone leaves the place.
pub proof fn law_steps_and_turns_change_their_parts(
    a: &mut EntityStore,
    b: &mut EntityStore,
    c: &mut EntityStore,
    step: &PacketRelEntityMove,
    both: &PacketEntityMoveLook,
    turn: &PacketEntityLook,
)
    requires
        call_ensures(EntityStore::rel_move, (a, step), ()),
        call_ensures(EntityStore::move_look, (b, both), ()),
        call_ensures(EntityStore::look, (c, turn), ()),
    ensures
        only_changed(
            old(a)@,
            final(a)@,
            step.entity_id,
            (Entity {
                position: step.to,
                on_ground: step.on_ground,
                ..old(a)@[step.entity_id as int]
            }),
        ),
        only_changed(
            old(b)@,
            final(b)@,
            both.entity_id,
            (Entity {
                position: both.to,
                yaw: degrees(both.yaw) as u32,
                pitch: degrees(both.pitch) as u32,
                on_ground: both.on_ground,
                ..old(b)@[both.entity_id as int]
            }),
        ),
        only_changed(
            old(c)@,
            final(c)@,
            turn.entity_id,
            (Entity {
                yaw: degrees(turn.yaw) as u32,
                pitch: degrees(turn.pitch) as u32,
                on_ground: turn.on_ground,
                ..old(c)@[turn.entity_id as int]
            }),
        ),
{
}

/// Absolute packets set what they name and leave the rest: a teleport the place and
/// the rotation, a sync the velocity too, and the two small ones the velocity or the
/// head alone.
pub proof fn law_absolute_packets_set_what_they_name(
    a: &mut EntityStore,
    b: &mut EntityStore,
    c: &mut EntityStore,
    d: &mut EntityStore,
    teleport: &PacketEntityTeleport,
    sync: &PacketSyncEntityPosition,
    velocity: &PacketEntityVelocity,
    head: &PacketEntityHeadRotation,
)
    requires
        call_ensures(EntityStore::teleport, (a, teleport), ()),
        call_ensures(EntityStore::sync_position, (b, sync), ()),
        call_ensures(EntityStore::velocity, (c, velocity), ()),
        call_ensures(EntityStore::head_rotation, (d, head), ()),
    ensures
        only_changed(
            old(a)@,
            final(a)@,
            teleport.entity_id,
            (Entity {
                position: teleport.position,
                yaw: degrees(teleport.yaw) as u32,
                pitch: degrees(teleport.pitch) as u32,
                on_ground: teleport.on_ground,
                ..old(a)@[teleport.entity_id as int]
            }),
        ),
        only_changed(
            old(b)@,
            final(b)@,
            sync.entity_id,
            (Entity {
                position: sync.position,
                velocity: sync.velocity,
                yaw: sync.yaw,
                pitch: sync.pitch,
                on_ground: sync.on_ground,
                ..old(b)@[sync.entity_id as int]
            }),
        ),
        only_changed(
            old(c)@,
            final(c)@,
            velocity.entity_id,
            (Entity { velocity: velocity.velocity, ..old(c)@[velocity.entity_id as int] }),
        ),
        only_changed(
            old(d)@,
            final(d)@,
            head.entity_id,
            (Entity {
                head_yaw: degrees(head.head_yaw) as u32,
                ..old(d)@[head.entity_id as int]
            }),
        ),
{
}

} // verus!
