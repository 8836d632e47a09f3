//! What the client does about packets, commands and ticks.
use crate::error::MineRiderError;
use crate::float_bits::floor_of;
use crate::minecraft::configuration::ConfigurationData;
use crate::minecraft::control::{utf16_units, BotCommand, Hand};
use crate::minecraft::coverage::{play_entry, PlayPacket};
use crate::minecraft::entity::{PacketEntityDestroy, PacketEntityVelocity, PacketSpawnEntity};
use crate::minecraft::event::BotEvent;
use crate::minecraft::hud::{
    GameMode, PacketGameStateChange, PacketLogin, PacketRespawn, PacketUpdateHealth,
    PacketUpdateTime,
};
use crate::minecraft::inventory::{InventoryClickRequest, PacketWindowClick};
use crate::minecraft::play::{
    encode_outbound_chat_action, log_unhandled, player_input_flags, swing, Notice, OutboundChat,
    OutboundFault, PacketArmAnimation, PacketUseItem, PlayClientbound, PlayReply, PlayState,
    StatePacket, TickSend, TickStart,
};
use crate::minecraft::player::{
    LocalPlayer, MovementInput, MovementPacket, PacketExperience, PacketPosition, PositionSums,
};
use crate::minecraft::resource_pack::PacketCommonAddResourcePack;
use crate::minecraft::world::{
    law_set_block_leaves_the_rest, law_set_block_reads_back, PacketBlockChange, PacketUnloadChunk,
};
use crate::sorted_map::SortedMap;
use vstd::prelude::*;

verus! {

/// What was added to the events that wait.
pub open spec fn news(before: PlayState, after: PlayState) -> Seq<BotEvent> {
    after.outbox@.skip(before.outbox@.len() as int)
}

/// Events are added at the end and none is lost.
pub open spec fn only_added(before: PlayState, after: PlayState) -> bool {
    after.outbox@ == before.outbox@ + news(before, after)
}

proof fn lemma_news(before: PlayState, after: PlayState, events: Seq<BotEvent>)
    requires
        after.outbox@ == before.outbox@ + events,
    ensures
        news(before, after) == events,
        only_added(before, after),
{
    assert(news(before, after) =~= events);
}

/// Pings and keep-alives are answered with their own number, a batch's end with its
/// size, and a resource pack with a refusal that names it. None of them changes the
/// state.
pub proof fn law_questions_are_answered_in_kind(
    s: &mut PlayState,
    configuration: &ConfigurationData,
    packet: PlayClientbound,
    warned: &mut SortedMap<i32, ()>,
    res: Result<Vec<PlayReply>, MineRiderError>,
    pack: PacketCommonAddResourcePack,
)
    requires
        call_ensures(PlayState::handle_clientbound, (s, configuration, packet, warned), res),
    ensures
        packet matches PlayClientbound::KeepAlive { id } ==> (res matches Ok(r) && r@ == seq![
            PlayReply::KeepAlive { id: packet->KeepAlive_id },
        ]) && *final(s) == *old(s),
        packet matches PlayClientbound::Ping { id } ==> (res matches Ok(r) && r@ == seq![
            PlayReply::Pong { id: packet->Ping_id },
        ]) && *final(s) == *old(s),
        packet is ChunkBatchStart ==> (res matches Ok(r) && r@ == seq![PlayReply::StartBatch])
            && *final(s) == *old(s),
        packet is ChunkBatchFinished && packet->batch_size >= 0 ==> (res matches Ok(r) && r@
            == seq![PlayReply::FinishBatch { batch_size: packet->batch_size as u32 }])
            && *final(s) == *old(s),
        packet is ChunkBatchFinished && packet->batch_size < 0 ==> (res matches Ok(r) && r@
            == seq![PlayReply::FinishBatch { batch_size: 0 }]) && *final(s) == *old(s),
        packet == PlayClientbound::AddResourcePack(pack) ==> (res matches Ok(r) && r@.len() == 1
            && (r@[0] matches PlayReply::ResourcePack(a) && a.uuid == pack.uuid && a.result == 1))
            && *final(s) == *old(s),
        packet is RemoveResourcePack ==> (res matches Ok(r) && r@.len() == 0) && *final(s) == *old(
            s,
        ),
        packet is KickDisconnect ==> res matches Err(MineRiderError::Disconnected(_)),
{
}

/// A packet that puts the player somewhere is confirmed by its number first, and then
/// by where the player is after it. That place counts as reported.
pub proof fn law_teleports_are_confirmed(
    s: &mut PlayState,
    packet: &PacketPosition,
    sums: &PositionSums,
    replies: Vec<PlayReply>,
)
    requires
        call_ensures(PlayState::apply_position, (s, packet, sums), replies),
    ensures
        replies@.len() == 2,
        replies@[0] == (PlayReply::TeleportConfirm { teleport_id: packet.teleport_id }),
        replies@[1] matches PlayReply::PositionLook(p) && p.at == final(s).player.position.at
            && p.yaw == final(s).player.position.yaw && p.pitch == final(s).player.position.pitch
            && p.flags == 0,
        final(s).player.last_position == final(s).player.position,
        final(s).player.position_reminder == 0,
        final(s).received_position,
        packet.flags == 0 ==> final(s).player.position.at == packet.at
            && final(s).player.position.yaw == packet.yaw && final(s).player.position.pitch
            == packet.pitch && final(s).player.velocity == packet.velocity,
        *final(s) == (PlayState { player: final(s).player, received_position: true, ..*old(s) }),
        final(s).player.health == old(s).player.health,
        final(s).player.entity_id == old(s).player.entity_id,
{
    let none = Map::<int, ()>::empty();
    let wire = PlayClientbound::Position { packet: *packet, sums: *sums };
    assert(replies@ == crate::minecraft::play::replies_to(wire, none));
    crate::laws::reports::law_teleports_take_parts_by_their_flags(*packet, *sums);
    assert(0u32 & 0x01 == 0 && 0u32 & 0x02 == 0 && 0u32 & 0x04 == 0 && 0u32 & 0x08 == 0 && 0u32
        & 0x10 == 0 && 0u32 & 0x20 == 0 && 0u32 & 0x40 == 0 && 0u32 & 0x80 == 0) by (bit_vector);
}

/// Logging in names the player's entity, enters the dimension that the packet's index
/// names with nothing loaded, and is reported. An index without a dimension fails
/// and enters none.
pub proof fn law_logins_enter_their_dimension(
    s: &mut PlayState,
    configuration: &ConfigurationData,
    p: &PacketLogin,
    res: Result<(), MineRiderError>,
)
    requires
        call_ensures(PlayState::apply_login, (s, configuration, p), res),
    ensures
        ({
            let index = p.world_state.dimension;
            let known = 0 <= index < configuration.dimension_types@.len();
            &&& res is Ok <==> known
            &&& known ==> {
                &&& final(s).dimension == Some(configuration.dimension_types@[index as int])
                &&& final(s).world matches Some(w) && w@.dimension
                    == configuration.dimension_types@[p.world_state.dimension as int]
                    && w@.chunks.dom() =~= Set::empty()
                &&& news(*old(s), *final(s)) == seq![BotEvent::Login { entity_id: p.entity_id }]
            }
            &&& !known ==> final(s).dimension == old(s).dimension && final(s).world == old(
                s,
            ).world && final(s).outbox == old(s).outbox
        }),
        final(s).player.entity_id == Some(p.entity_id),
        !final(s).player.loaded,
        final(s).hud@.hardcore == p.is_hardcore,
        final(s).player.position == old(s).player.position,
{
    let index = p.world_state.dimension;
    if 0 <= index < configuration.dimension_types@.len() {
        lemma_news(*old(s), *final(s), seq![BotEvent::Login { entity_id: p.entity_id }]);
    }
}

/// A new life enters the dimension of its packet with nothing loaded; the player is
/// at rest, waits for its place and its world again, and the request for the new
/// life is settled.
pub proof fn law_new_lives_enter_their_dimension(
    s: &mut PlayState,
    configuration: &ConfigurationData,
    p: &PacketRespawn,
    res: Result<(), MineRiderError>,
)
    requires
        call_ensures(PlayState::apply_respawn, (s, configuration, p), res),
    ensures
        ({
            let index = p.world_state.dimension;
            let known = 0 <= index < configuration.dimension_types@.len();
            &&& res is Ok <==> known
            &&& known ==> {
                &&& final(s).dimension == Some(configuration.dimension_types@[index as int])
                &&& final(s).world matches Some(w) && w@.dimension
                    == configuration.dimension_types@[p.world_state.dimension as int]
                    && w@.chunks.dom() =~= Set::empty()
            }
            &&& !known ==> final(s).dimension == old(s).dimension && final(s).world == old(s).world
        }),
        !final(s).respawn_pending,
        !final(s).received_position,
        !final(s).player.loaded,
        !final(s).player.on_ground,
        final(s).player.velocity.x == 0,
        final(s).player.velocity.y == 0,
        final(s).player.velocity.z == 0,
        final(s).player.health == old(s).player.health,
        final(s).was_alive == old(s).was_alive,
        final(s).tick == old(s).tick,
{
}

/// Vitals are taken over and reported as they came. A death is reported in between
/// where the player was alive before and has no health now, and only there.
pub proof fn law_vitals_are_reported(s: &mut PlayState, p: &PacketUpdateHealth)
    requires
        call_ensures(PlayState::apply_health, (s, p), ()),
    ensures
        ({
            let events = news(*old(s), *final(s));
            let dead = p.health == 0 || p.health > 0x7F80_0000;
            &&& only_added(*old(s), *final(s))
            &&& events.len() >= 2
            &&& events[0] == (BotEvent::Health {
                health: p.health,
                food: p.food,
                saturation: p.food_saturation,
            })
            &&& events.contains(BotEvent::Death) <==> old(s).was_alive && dead
            &&& events[1] == BotEvent::Death <==> old(s).was_alive && dead
            &&& events.last() is Hud
            &&& final(s).was_alive == !dead
        }),
        final(s).player.health == p.health,
        final(s).player.food == p.food,
        final(s).player.saturation == p.food_saturation,
        final(s).player.position == old(s).player.position,
        final(s).respawn_pending == old(s).respawn_pending,
{
    let event = choose|event: crate::minecraft::hud::HudEvent|
        #[trigger] crate::minecraft::hud::hud_healed(old(s).hud@, *p, final(s).hud@, event)
            && final(s).emitted(
            crate::minecraft::play::health_reports(*old(s), *p, event),
            *old(s),
        );
    let events = crate::minecraft::play::health_reports(*old(s), *p, event);
    lemma_news(*old(s), *final(s), events);
    if old(s).was_alive && (p.health == 0 || p.health > 0x7F80_0000) {
        assert(events[1] == BotEvent::Death);
    } else {
        assert(events.len() == 2);
        assert forall|i: int| 0 <= i < 2 implies events[i] != BotEvent::Death by {
            assert(i == 0 || i == 1);
        }
    }
}

/// Experience is taken over, each number in its place.
pub proof fn law_experience_is_taken_over(s: &mut PlayState, p: &PacketExperience)
    requires
        call_ensures(PlayState::apply_experience, (s, p), ()),
    ensures
        final(s).player.xp_bar == p.experience_bar,
        final(s).player.xp_level == p.level,
        final(s).player.total_experience == p.total_experience,
        final(s).player.health == old(s).player.health,
        final(s).player.position == old(s).player.position,
{
}

/// The time of day is the remainder of the clock by a day, never below zero, and is
/// what is reported first.
pub proof fn law_days_have_24000_ticks(s: &mut PlayState, p: &PacketUpdateTime)
    requires
        call_ensures(PlayState::apply_time, (s, p), ()),
    ensures
        0 <= final(s).world_time < 24_000,
        (p.time - final(s).world_time) % 24_000 == 0,
        news(*old(s), *final(s)).len() == 2,
        news(*old(s), *final(s))[0] == (BotEvent::Time { time_of_day: final(s).world_time }),
        only_added(*old(s), *final(s)),
        final(s).raining == old(s).raining,
{
    let event = choose|event: crate::minecraft::hud::HudEvent|
        #[trigger] crate::minecraft::hud::hud_timed(old(s).hud@, *p, final(s).hud@, event)
            && final(s).emitted(
            seq![BotEvent::Time { time_of_day: final(s).world_time }, BotEvent::Hud(event)],
            *old(s),
        );
    lemma_news(
        *old(s),
        *final(s),
        seq![BotEvent::Time { time_of_day: final(s).world_time }, BotEvent::Hud(event)],
    );
}

/// Rain starts with the game event one and ends with two; others leave it. Both are
/// reported, before anything else.
pub proof fn law_rain_starts_and_ends(s: &mut PlayState, p: &PacketGameStateChange)
    requires
        call_ensures(PlayState::apply_game_state, (s, p), ()),
    ensures
        p.reason == 1 ==> final(s).raining,
        p.reason == 2 ==> !final(s).raining,
        p.reason != 1 && p.reason != 2 ==> final(s).raining == old(s).raining,
        p.reason == 1 || p.reason == 2 ==> news(*old(s), *final(s)).len() > 0 && news(
            *old(s),
            *final(s),
        )[0] == (BotEvent::Weather { raining: final(s).raining }),
        p.reason != 1 && p.reason != 2 ==> forall|i: int|
            0 <= i < news(*old(s), *final(s)).len() ==> #[trigger] news(*old(s), *final(s))[i]
                is Hud,
        final(s).world_time == old(s).world_time,
{
    let (hud, event) = old(s).hud@.game_state(p.reason, p.game_mode);
    lemma_news(
        *old(s),
        *final(s),
        crate::minecraft::play::weather_reports(p.reason) + crate::minecraft::play::hud_reports(
            event,
        ),
    );
}

/// A velocity addressed to the player's own entity is the player's, and no entity's;
/// any other is the entity's alone.
pub proof fn law_velocities_reach_their_entity(s: &mut PlayState, p: &PacketEntityVelocity)
    requires
        call_ensures(PlayState::apply_velocity, (s, p), ()),
    ensures
        old(s).player.entity_id == Some(p.entity_id) ==> final(s).player.velocity == p.velocity
            && final(s).entities == old(s).entities && final(s).player.position == old(
            s,
        ).player.position,
        old(s).player.entity_id != Some(p.entity_id) ==> final(s).player == old(s).player
            && final(s).entities@.dom() =~= old(s).entities@.dom(),
        old(s).player.entity_id != Some(p.entity_id) && old(s).entities@.contains_key(
            p.entity_id as int,
        ) ==> final(s).entities@[p.entity_id as int].velocity == p.velocity
            && final(s).entities@[p.entity_id as int].position == old(
            s,
        ).entities@[p.entity_id as int].position,
        final(s).outbox == old(s).outbox,
{
}

/// Entities that go are dropped and reported one by one, in the packet's order.
pub proof fn law_departures_are_reported(s: &mut PlayState, p: &PacketEntityDestroy, id: i32)
    requires
        call_ensures(PlayState::apply_entity_destroy, (s, p), ()),
    ensures
        p.entity_ids@.contains(id) ==> !final(s).entities@.contains_key(id as int),
        !p.entity_ids@.contains(id) ==> final(s).entities@.contains_key(id as int) == old(
            s,
        ).entities@.contains_key(id as int),
        news(*old(s), *final(s)).len() == p.entity_ids@.len(),
        forall|i: int|
            0 <= i < p.entity_ids@.len() ==> #[trigger] news(*old(s), *final(s))[i] == (
            BotEvent::EntityRemoved { entity_id: p.entity_ids@[i] }),
        only_added(*old(s), *final(s)),
{
    crate::minecraft::entity::law_destroy_removes_exactly_the_named(
        old(s).entities@,
        p.entity_ids@,
        id,
    );
    lemma_news(*old(s), *final(s), crate::minecraft::play::removal_reports(p.entity_ids@));
}

/// An entity that appears is tracked under its id and reported with its number, its
/// uuid and its kind.
pub proof fn law_arrivals_are_reported(
    s: &mut PlayState,
    configuration: &ConfigurationData,
    p: PacketSpawnEntity,
    res: Result<(), MineRiderError>,
)
    requires
        call_ensures(
            PlayState::apply_state_packet,
            (s, configuration, StatePacket::SpawnEntity(p)),
            res,
        ),
    ensures
        res is Ok,
        final(s).entities@.contains_key(p.entity_id as int),
        final(s).entities@[p.entity_id as int].position == p.position,
        final(s).entities@[p.entity_id as int].uuid == p.object_uuid,
        final(s).entities@[p.entity_id as int].kind == p.kind,
        news(*old(s), *final(s)) == seq![
            BotEvent::EntitySpawned {
                entity_id: p.entity_id,
                uuid: p.object_uuid,
                kind: p.kind,
            },
        ],
        final(s).player == old(s).player,
{
    lemma_news(
        *old(s),
        *final(s),
        seq![
            BotEvent::EntitySpawned {
                entity_id: p.entity_id,
                uuid: p.object_uuid,
                kind: p.kind,
            },
        ],
    );
}

/// A column that is unloaded is gone, by x and z, and the others stay.
pub proof fn law_unloaded_columns_are_gone(
    s: &mut PlayState,
    p: &PacketUnloadChunk,
    x: int,
    z: int,
)
    requires
        call_ensures(PlayState::apply_unload, (s, p), ()),
    ensures
        old(s).world is None <==> final(s).world is None,
        final(s).world matches Some(w) ==> !w@.chunks.contains_key(
            (p.chunk_x as int, p.chunk_z as int),
        ) && ((x, z) != (p.chunk_x as int, p.chunk_z as int) ==> w@.chunks.contains_key((x, z))
            == old(s).world->0@.chunks.contains_key((x, z))),
        final(s).world matches Some(w) ==> w@.dimension == old(s).world->0@.dimension,
        final(s).player == old(s).player,
        final(s).outbox == old(s).outbox,
{
}

/// A block that is changed reads back as the packet says, within the height of the
/// dimension, and no other block changes. Before a dimension is entered, and where
/// the change fails, nothing does.
pub proof fn law_changed_blocks_read_back(
    s: &mut PlayState,
    p: &PacketBlockChange,
    res: Result<(), MineRiderError>,
    x: int,
    y: int,
    z: int,
)
    requires
        old(s).valid(),
        call_ensures(PlayState::apply_block, (s, p), res),
    ensures
        old(s).world is None ==> res is Ok && *final(s) == *old(s),
        old(s).world is Some ==> final(s).world is Some,
        old(s).world is Some && res is Err ==> final(s).world->0@ == old(s).world->0@,
        old(s).world is Some && res is Ok && (x, y, z) == (
            p.location.x as int,
            p.location.y as int,
            p.location.z as int,
        ) && old(s).world->0@.dimension.min_y <= y < old(s).world->0@.dimension.min_y + old(
            s,
        ).world->0@.dimension.height ==> final(s).world->0@.block(x, y, z) == Some(p.kind as u32),
        old(s).world is Some && (x, y, z) != (
            p.location.x as int,
            p.location.y as int,
            p.location.z as int,
        ) ==> final(s).world->0@.block(x, y, z) == old(s).world->0@.block(x, y, z),
        final(s).player == old(s).player,
        final(s).outbox == old(s).outbox,
{
    if let Some(w) = old(s).world {
        if res is Ok {
            let (bx, by, bz) = (p.location.x as int, p.location.y as int, p.location.z as int);
            if (x, y, z) != (bx, by, bz) {
                law_set_block_leaves_the_rest(w@, bx, by, bz, p.kind as u32, x, y, z);
            } else if w@.dimension.min_y <= y < w@.dimension.min_y + w@.dimension.height {
                law_set_block_reads_back(w@, bx, by, bz, p.kind as u32);
            }
        }
    }
}

/// A packet that nothing handles is noted by the class of its kind: quietly where
/// something else handles it, every time where it is not supported, and otherwise
/// once for each number.
pub proof fn law_unhandled_packets_are_noted(
    packet: PlayPacket,
    id: i32,
    warned: &mut SortedMap<i32, ()>,
    notice: Notice,
    other: int,
)
    requires
        call_ensures(log_unhandled, (packet, id, warned), notice),
    ensures
        play_entry(packet).class is Handled ==> notice is Debug,
        play_entry(packet).class is Unsupported ==> notice is Unsupported,
        play_entry(packet).class is IntentionallyIgnored || play_entry(packet).class
            is StoredForLater ==> final(warned)@.contains_key(id as int) && (notice is WarnOnce
            <==> !old(warned)@.contains_key(id as int)) && (notice is Debug <==> old(
            warned,
        )@.contains_key(id as int)),
        play_entry(packet).class is Handled || play_entry(packet).class is Unsupported
            ==> final(warned)@ == old(warned)@,
        other != id ==> final(warned)@.contains_key(other) == old(warned)@.contains_key(other),
{
}

/// A tick counts up. One of a dead player asks for a new life, unless it was asked
/// for. A living player is loaded on the first tick on which its place is known and
/// the column around it is there, and moves on every other.
pub proof fn law_ticks_start_by_life_and_world(s: &mut PlayState, start: TickStart)
    requires
        call_ensures(PlayState::begin_tick, (s,), start),
    ensures
        ({
            let p = old(s).player;
            let dead = p.health == 0 || p.health > 0x7F80_0000;
            let there = old(s).world matches Some(w) && w@.chunks.contains_key(
                (floor_of(p.position.at.x) as int / 16, floor_of(p.position.at.z) as int / 16),
            );
            &&& start is Dead <==> dead
            &&& start == (TickStart::Dead { request_respawn: true }) <==> dead && !old(
                s,
            ).respawn_pending
            &&& start is Loaded <==> !dead && !p.loaded && old(s).received_position && there
            &&& start is Dead ==> final(s).respawn_pending
            &&& !(start is Dead) ==> final(s).respawn_pending == old(s).respawn_pending
            &&& start is Loaded ==> final(s).player.loaded && final(s).player.last_position
                == p.position && only_added(*old(s), *final(s)) && news(*old(s), *final(s)).len()
                > 0 && news(*old(s), *final(s)).last() == BotEvent::Spawned
            &&& !(start is Loaded) ==> final(s).player == p
            &&& final(s).player.position == p.position
        }),
        old(s).tick < u64::MAX ==> final(s).tick == old(s).tick + 1,
        final(s).controller == old(s).controller,
        final(s).world == old(s).world,
        final(s).entities == old(s).entities,
        final(s).hud == old(s).hud,
{
    let tick = old(s).tick.wrapping_add(1);
    if start is Loaded {
        lemma_news(
            *old(s),
            *final(s),
            crate::minecraft::play::expiry_reports(*old(s), tick).push(BotEvent::Spawned),
        );
    }
}

/// A loaded player ends every tick with the end of the tick; before that come the
/// keys, where they changed, and then the movement, where a report is due. A player
/// that is not loaded sends nothing.
pub proof fn law_ticks_end_with_their_reports(
    s: &mut PlayState,
    moved: bool,
    sends: Vec<TickSend>,
    keys: u8,
)
    requires
        call_ensures(PlayState::end_tick, (s, moved), sends),
        call_ensures(player_input_flags, (&old(s).player.input,), keys),
    ensures
        !old(s).player.loaded ==> sends@.len() == 0 && *final(s) == *old(s),
        old(s).player.loaded ==> {
            let told = keys != old(s).last_player_input;
            &&& sends@.len() >= 1 && sends@.last() == TickSend::TickEnd
            &&& final(s).last_player_input == keys
            &&& told ==> sends@.len() >= 2 && sends@[0] == (TickSend::PlayerInput { flags: keys })
            &&& forall|i: int|
                0 <= i < sends@.len() && (#[trigger] sends@[i]) is PlayerInput ==> i == 0 && told
            &&& forall|i: int|
                0 <= i < sends@.len() && (#[trigger] sends@[i]) is Movement ==> i == sends@.len()
                    - 2
            &&& moved ==> sends@.len() >= 2 && sends@[sends@.len() - 2] is Movement
            &&& forall|i: int|
                0 <= i < sends@.len() ==> ((#[trigger] sends@[i]) matches TickSend::Movement(
                    MovementPacket::PositionLook(q),
                ) ==> q.at == old(s).player.position.at && q.yaw == old(s).player.position.yaw
                    && q.pitch == old(s).player.position.pitch && final(s).player.last_position
                    == old(s).player.position)
            &&& forall|i: int|
                0 <= i < sends@.len() ==> ((#[trigger] sends@[i]) matches TickSend::Movement(
                    MovementPacket::Position(q),
                ) ==> q.at == old(s).player.position.at && final(s).player.last_position.at
                    == q.at)
            &&& forall|i: int|
                0 <= i < sends@.len() ==> ((#[trigger] sends@[i]) matches TickSend::Movement(
                    MovementPacket::Look(q),
                ) ==> q.yaw == old(s).player.position.yaw && q.pitch == old(
                    s,
                ).player.position.pitch)
        },
        final(s).player.position == old(s).player.position,
        *final(s) == (PlayState {
            player: final(s).player,
            last_player_input: final(s).last_player_input,
            ..*old(s)
        }),
{
    if old(s).player.loaded {
        let input = crate::minecraft::play::input_sends(*old(s));
        let movement = crate::minecraft::play::movement_sends(*old(s), moved);
        assert(sends@ =~= input + movement + seq![TickSend::TickEnd]);
    }
}

/// The keys of a player are told one bit each.
pub proof fn law_player_keys_are_told_bit_by_bit(input: &MovementInput, flags: u8)
    requires
        call_ensures(player_input_flags, (input,), flags),
    ensures
        flags < 128,
        flags % 2 == 1 <==> 0 < input.forward <= 0x7F80_0000,
        flags / 2 % 2 == 1 <==> 0x8000_0000 < input.forward <= 0xFF80_0000,
        flags / 4 % 2 == 1 <==> 0 < input.strafe <= 0x7F80_0000,
        flags / 8 % 2 == 1 <==> 0x8000_0000 < input.strafe <= 0xFF80_0000,
        flags / 16 % 2 == 1 <==> input.jump,
        flags / 32 % 2 == 1 <==> input.sneak,
        flags / 64 == 1 <==> input.sprint,
{
    crate::laws::reports::law_keys_are_told_bit_by_bit(*input);
}

/// A tick drives the player only where there is a world. Then it walks to its goal,
/// or plays its keys where it has none.
pub proof fn law_players_move_in_a_world(s: &mut PlayState, arrived: bool, yaw: u32, due: bool)
    requires
        call_ensures(PlayState::drive, (s, arrived, yaw), due),
    ensures
        old(s).world is None ==> !due && *final(s) == *old(s),
        old(s).world is Some && old(s).controller.goal is None ==> final(s).player.input == old(
            s,
        ).controller.manual && final(s).player.position == old(s).player.position,
        old(s).world is Some && old(s).controller.goal is Some && !arrived
            ==> final(s).player.input.forward == 0x3F80_0000 && final(s).player.input.strafe == 0
            && final(s).player.position.yaw == yaw && final(s).controller.goal == old(
            s,
        ).controller.goal,
        old(s).world is Some && old(s).controller.goal is Some && arrived
            ==> final(s).player.input.forward == 0 && final(s).controller.goal is None
            && final(s).player.position == old(s).player.position,
        final(s).player.position.at == old(s).player.position.at,
        final(s).player.position.pitch == old(s).player.position.pitch,
        *final(s) == (PlayState {
            player: final(s).player,
            controller: final(s).controller,
            ..*old(s)
        }),
{
    let (a, b) = (old(s).controller.keys(), final(s).controller.keys());
    assert(old(s).world is Some ==> b.goal == (if arrived { None } else { a.goal }));
}

/// A look turns the player at once and nothing else; any other command reaches the
/// controller alone.
pub proof fn law_commands_reach_the_player_or_the_controller(
    s: &mut PlayState,
    command: BotCommand,
)
    requires
        call_ensures(PlayState::apply_command, (s, command), ()),
    ensures
        command is Look ==> *final(s) == (PlayState { player: final(s).player, ..*old(s) })
            && final(s).player.position.yaw == command->yaw && final(s).player.position.pitch
            == command->pitch && final(s).player == (LocalPlayer {
            position: final(s).player.position,
            ..old(s).player
        }) && final(s).player.position.at == old(s).player.position.at,
        !(command is Look) ==> *final(s) == (PlayState {
            controller: final(s).controller,
            ..*old(s)
        }),
        command is Stop ==> final(s).controller.goal is None
            && final(s).controller.manual.forward == 0,
        command is WalkTo ==> final(s).controller.goal == Some(
            (command->WalkTo_x, command->WalkTo_z),
        ),
{
    assert(!(command is Look) ==> final(s).controller.keys() == old(
        s,
    ).controller.keys().after(command));
}

/// Chat goes out as a message with its own text, the time and the salt given and no
/// signature, and a command as a command; never one as the other. What is refused
/// or no chat does not go out.
pub proof fn law_chat_goes_out_as_it_was_typed(
    action: &BotCommand,
    timestamp: i64,
    salt: i64,
    res: Result<OutboundChat, OutboundFault>,
)
    requires
        call_ensures(encode_outbound_chat_action, (action, timestamp, salt), res),
    ensures
        res matches Ok(OutboundChat::Message(p)) ==> (action matches BotCommand::Chat(m) && m@
            == p.message@) && p.timestamp == timestamp && p.salt == salt && p.signature is None
            && p.offset == 0 && p.acknowledged@ == seq![0u8, 0u8, 0u8] && p.message@.len() > 0
            && p.message@[0] != '/' && utf16_units(p.message@) <= 256,
        res matches Ok(OutboundChat::Command(p)) ==> (action matches BotCommand::Command(c) && c@
            == p.command@) && p.command@.len() > 0 && p.command@[0] != '/' && utf16_units(
            p.command@,
        ) <= 256,
        action matches BotCommand::Chat(m) ==> m@.len() > 0 && m@[0] != '/' && utf16_units(m@)
            <= 256 ==> res is Ok,
        action matches BotCommand::Command(c) ==> c@.len() > 0 && c@[0] != '/' && utf16_units(c@)
            <= 256 ==> res is Ok,
        action is Stop ==> res == Err::<OutboundChat, _>(OutboundFault::NotChat),
{
}

/// Using an item takes the next number, the hand's own and where the player looks,
/// yaw and pitch in their places.
pub proof fn law_items_are_used_where_the_player_looks(
    s: &mut PlayState,
    hand: Hand,
    p: PacketUseItem,
    arm: PacketArmAnimation,
)
    requires
        call_ensures(PlayState::use_item, (s, hand), p),
        call_ensures(swing, (hand,), arm),
    ensures
        p.hand == 0 <==> hand is Main,
        p.hand == 1 <==> hand is Off,
        p.yaw == old(s).player.position.yaw,
        p.pitch == old(s).player.position.pitch,
        old(s).next_action_sequence < i32::MAX ==> p.sequence == old(s).next_action_sequence + 1,
        old(s).next_action_sequence == i32::MAX ==> p.sequence == i32::MIN,
        final(s).next_action_sequence == p.sequence,
        *final(s) == (PlayState {
            next_action_sequence: final(s).next_action_sequence,
            ..*old(s)
        }),
        arm.hand == p.hand,
{
}

/// A click that goes out names the window and the state of its request and what the
/// cursor holds, and predicts nothing.
pub proof fn law_clicks_go_out_as_requested(
    s: &mut PlayState,
    request: InventoryClickRequest,
    packet: Option<PacketWindowClick>,
)
    requires
        call_ensures(PlayState::submit_click, (s, request), packet),
    ensures
        packet matches Some(p) ==> p.window_id == request.window_id && p.state_id
            == request.state_id && p.changed_slots@.len() == 0 && p.cursor_item == old(
            s,
        ).inventory@.cursor,
        packet is Some <==> old(s).inventory@.click(
            request,
            old(s).hud@.game_mode == GameMode::Creative,
        ) is Ok,
        packet matches Some(p) ==> (p.slot, p.mouse_button, p.mode) == (old(s).inventory@.click(
            request,
            old(s).hud@.game_mode == GameMode::Creative,
        )->Ok_0).0,
        final(s).outbox@.len() == old(s).outbox@.len() + 1,
        final(s).outbox@.last() is Inventory,
        final(s).player == old(s).player,
        final(s).hud == old(s).hud,
{
}

} // verus!
