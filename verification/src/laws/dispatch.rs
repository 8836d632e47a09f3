//! Which packet changes which part of the play state.
use crate::error::MineRiderError;
use crate::laws::play::{news, only_added};
use crate::minecraft::configuration::ConfigurationData;
use crate::minecraft::entity::Entity;
use crate::minecraft::event::BotEvent;
use crate::minecraft::geometry::degrees;
use crate::minecraft::hud::{PacketLogin, PacketRespawn};
use crate::minecraft::inventory::{PacketHeldItemSlot, PacketSetPlayerInventory};
use crate::minecraft::play::{sender_name, PlayClientbound, PlayReply, PlayState, StatePacket};
use crate::minecraft::players::PacketPlayerRemove;
use crate::minecraft::presentation::{ChatKind, ChatMessage, PresentationEvent, PresentationUpdate};
use crate::minecraft::text::plain;
use crate::minecraft::world::PacketMapChunk;
use crate::sorted_map::SortedMap;
use crate::text_build::decimal;
use vstd::prelude::*;

verus! {

/// Packets about entities change what they name of the entity they name, and nothing
/// else of the state.
pub proof fn law_entity_packets_change_their_entity(
    s: &mut PlayState,
    configuration: &ConfigurationData,
    packet: StatePacket,
    res: Result<(), MineRiderError>,
)
    requires
        call_ensures(PlayState::apply_state_packet, (s, configuration, packet), res),
        packet is RelEntityMove || packet is EntityMoveLook || packet is EntityLook || packet
            is EntityTeleport || packet is SyncEntityPosition || packet is EntityHeadRotation,
    ensures
        res is Ok,
        *final(s) == (PlayState { entities: final(s).entities, ..*old(s) }),
        final(s).entities@.dom() =~= old(s).entities@.dom(),
        packet matches StatePacket::RelEntityMove(p) ==> old(s).entities@.contains_key(
            p.entity_id as int,
        ) ==> final(s).entities@[p.entity_id as int] == (Entity {
            position: p.to,
            on_ground: p.on_ground,
            ..old(s).entities@[p.entity_id as int]
        }),
        packet matches StatePacket::EntityMoveLook(p) ==> old(s).entities@.contains_key(
            p.entity_id as int,
        ) ==> final(s).entities@[p.entity_id as int] == (Entity {
            position: p.to,
            yaw: degrees(p.yaw) as u32,
            pitch: degrees(p.pitch) as u32,
            on_ground: p.on_ground,
            ..old(s).entities@[p.entity_id as int]
        }),
        packet matches StatePacket::EntityLook(p) ==> old(s).entities@.contains_key(
            p.entity_id as int,
        ) ==> final(s).entities@[p.entity_id as int] == (Entity {
            yaw: degrees(p.yaw) as u32,
            pitch: degrees(p.pitch) as u32,
            on_ground: p.on_ground,
            ..old(s).entities@[p.entity_id as int]
        }),
        packet matches StatePacket::EntityTeleport(p) ==> old(s).entities@.contains_key(
            p.entity_id as int,
        ) ==> final(s).entities@[p.entity_id as int] == (Entity {
            position: p.position,
            yaw: degrees(p.yaw) as u32,
            pitch: degrees(p.pitch) as u32,
            on_ground: p.on_ground,
            ..old(s).entities@[p.entity_id as int]
        }),
        packet matches StatePacket::SyncEntityPosition(p) ==> old(s).entities@.contains_key(
            p.entity_id as int,
        ) ==> final(s).entities@[p.entity_id as int] == (Entity {
            position: p.position,
            velocity: p.velocity,
            yaw: p.yaw,
            pitch: p.pitch,
            on_ground: p.on_ground,
            ..old(s).entities@[p.entity_id as int]
        }),
        packet matches StatePacket::EntityHeadRotation(p) ==> old(s).entities@.contains_key(
            p.entity_id as int,
        ) ==> final(s).entities@[p.entity_id as int] == (Entity {
            head_yaw: degrees(p.head_yaw) as u32,
            ..old(s).entities@[p.entity_id as int]
        }),
{
}

/// Packets about windows change the inventory alone, and are reported.
pub proof fn law_window_packets_change_the_inventory(
    s: &mut PlayState,
    configuration: &ConfigurationData,
    packet: StatePacket,
    res: Result<(), MineRiderError>,
)
    requires
        call_ensures(PlayState::apply_state_packet, (s, configuration, packet), res),
        packet is OpenWindow || packet is CloseWindow || packet is WindowItems || packet is SetSlot
            || packet is SetCursorItem || packet is CraftProgressBar,
    ensures
        res is Ok,
        *final(s) == (PlayState {
            inventory: final(s).inventory,
            outbox: final(s).outbox,
            ..*old(s)
        }),
        packet matches StatePacket::OpenWindow(p) ==> (final(s).inventory@.open matches Some(w)
            && w.id == p.window_id && w.kind == p.inventory_type && w.title == p.window_title),
        packet matches StatePacket::WindowItems(p) ==> final(s).inventory@.cursor == p.carried_item,
        packet matches StatePacket::SetCursorItem(p) ==> final(s).inventory@.cursor == p.contents,
        packet matches StatePacket::SetSlot(p) ==> p.window_id == -1 ==> final(s).inventory@.cursor
            == p.item,
        packet matches StatePacket::CloseWindow(p) ==> old(s).inventory@.open is Some && old(
            s,
        ).inventory@.open->0.id == p.window_id ==> final(s).inventory@.open is None,
{
}

/// The other packets change their own part: the vitals and the experience of the
/// player, the time, the rain. Only a login and a respawn can fail.
pub proof fn law_state_packets_reach_their_part(
    s: &mut PlayState,
    configuration: &ConfigurationData,
    packet: StatePacket,
    res: Result<(), MineRiderError>,
)
    requires
        call_ensures(PlayState::apply_state_packet, (s, configuration, packet), res),
    ensures
        !(packet is Login) && !(packet is Respawn) ==> res is Ok,
        packet matches StatePacket::UpdateHealth(p) ==> final(s).player.health == p.health
            && final(s).player.food == p.food && final(s).player.saturation == p.food_saturation,
        packet matches StatePacket::Experience(p) ==> final(s).player.xp_level == p.level
            && final(s).player.xp_bar == p.experience_bar && final(s).player.total_experience
            == p.total_experience,
        packet matches StatePacket::UpdateTime(p) ==> final(s).hud@.time.age == p.age
            && final(s).hud@.time.raw_day_time == p.time && (p.time - final(s).world_time) % 24_000
            == 0,
        packet matches StatePacket::GameStateChange(p) ==> (p.reason == 1 ==> final(s).raining) && (
        p.reason == 2 ==> !final(s).raining),
        packet matches StatePacket::EntityVelocity(p) ==> old(s).player.entity_id == Some(
            p.entity_id,
        ) ==> final(s).player.velocity == p.velocity,
        packet matches StatePacket::HeldItemSlot(p) ==> 0 <= p.slot <= 8
            ==> final(s).inventory@.selected == p.slot && final(s).hud@.selected == p.slot,
        packet matches StatePacket::Login(p) ==> final(s).player.entity_id == Some(p.entity_id),
        packet matches StatePacket::Respawn(_) ==> !final(s).respawn_pending
            && !final(s).player.loaded,
        packet is Presentation ==> *final(s) == (PlayState {
            presentation: final(s).presentation,
            outbox: final(s).outbox,
            ..*old(s)
        }),
        packet is Scoreboard ==> *final(s) == (PlayState {
            scoreboard: final(s).scoreboard,
            outbox: final(s).outbox,
            ..*old(s)
        }),
        packet is Hud ==> *final(s) == (PlayState {
            hud: final(s).hud,
            outbox: final(s).outbox,
            ..*old(s)
        }),
        packet is PlayerInfo || packet is PlayerRemove ==> *final(s) == (PlayState {
            players: final(s).players,
            outbox: final(s).outbox,
            ..*old(s)
        }),
{
}

/// The held slot is taken over by the inventory and by what is shown, and reported by
/// both, in this order.
pub proof fn law_the_held_slot_is_reported_twice(s: &mut PlayState, p: &PacketHeldItemSlot)
    requires
        call_ensures(PlayState::apply_held_item, (s, p), ()),
    ensures
        0 <= p.slot <= 8 ==> final(s).inventory@.selected == p.slot && final(s).hud@.selected
            == p.slot,
        final(s).outbox@.len() == old(s).outbox@.len() + 2,
        final(s).outbox@[old(s).outbox@.len() as int] is Inventory,
        final(s).outbox@.last() is Hud,
        final(s).player == old(s).player,
{
}

/// A slot of the player is taken over by the inventory and, in the hotbar, by what is
/// shown.
pub proof fn law_own_slots_are_shown(s: &mut PlayState, p: &PacketSetPlayerInventory)
    requires
        old(s).valid(),
        call_ensures(PlayState::apply_own_inventory, (s, p), ()),
    ensures
        0 <= p.slot_id < 1024 ==> final(s).inventory@.player.slots[p.slot_id as int] == p.contents,
        0 <= p.slot_id <= 8 ==> final(s).hud@.hotbar.contains_key(p.slot_id as int)
            && final(s).hud@.hotbar[p.slot_id as int] == p.contents,
        0 <= p.slot_id <= 8 && old(s).hud@.selected == p.slot_id ==> final(s).hud@.held_item
            == p.contents,
        final(s).outbox@.len() > old(s).outbox@.len(),
        final(s).outbox@.last() is Hud,
        final(s).player == old(s).player,
{
}

/// Players who leave are gone and reported one by one, and the list after them.
pub proof fn law_leaving_players_are_reported(
    s: &mut PlayState,
    p: &PacketPlayerRemove,
    uuid: u128,
)
    requires
        call_ensures(PlayState::apply_player_remove, (s, p), ()),
    ensures
        p.players@.contains(uuid) ==> !final(s).players@.contains_key(uuid as int),
        only_added(*old(s), *final(s)),
        news(*old(s), *final(s)).len() > 0,
        news(*old(s), *final(s)).last() is Hud,
        forall|i: int|
            0 <= i < news(*old(s), *final(s)).len() - 1 ==> #[trigger] news(*old(s), *final(s))[i]
                is PlayerLeft,
{
    let (left, removed) = crate::minecraft::players::removed_all(old(s).players@, p.players@);
    if p.players@.contains(uuid) {
        let i = choose|i: int| 0 <= i < p.players@.len() && p.players@[i] == uuid;
        crate::minecraft::players::law_removed_players_are_gone(old(s).players@, p.players@, i);
    }
    let list = choose|list: BotEvent|
        #[trigger] crate::minecraft::play::list_report(list, Seq::empty(), removed, 0)
            && final(s).emitted(
            crate::minecraft::play::leave_reports(removed).push(list),
            *old(s),
        );
    let all = crate::minecraft::play::leave_reports(removed).push(list);
    assert(final(s).outbox@ == old(s).outbox@ + all);
    assert(news(*old(s), *final(s)) =~= all);
}

/// Chat is reported as it was presented and then in plain text: system messages as
/// such, others with the name of their sender.
pub proof fn law_chat_is_reported_in_plain_text(
    s: &mut PlayState,
    update: PresentationUpdate,
)
    requires
        call_ensures(PlayState::apply_presentation, (s, update), ()),
    ensures
        update matches PresentationUpdate::Chat(m) ==> {
            let events = news(*old(s), *final(s));
            &&& events.len() == 2
            &&& events[0] matches BotEvent::Presentation(PresentationEvent::Chat(_))
            &&& m.kind == ChatKind::System ==> (events[1] matches BotEvent::SystemChat { message }
                && message@ == plain(m.content@))
            &&& m.kind != ChatKind::System ==> (events[1] matches BotEvent::Chat { sender, message }
                && message@ == plain(m.content@) && (m.sender matches Some(x) ==> plain(x@).len() > 0
                ==> sender@ == plain(x@)))
        },
        update matches PresentationUpdate::Disconnect(reason) ==> {
            let events = news(*old(s), *final(s));
            &&& events.len() == 2
            &&& events[1] matches BotEvent::Kicked { reason: text } && text@ == plain(reason@)
        },
        !(update is Chat) && !(update is Disconnect) ==> news(*old(s), *final(s)).len() == 1,
        only_added(*old(s), *final(s)),
{
    let event = old(s).presentation@.applied(update).1;
    let next = choose|next: Option<BotEvent>|
        #[trigger] crate::minecraft::play::follows(event, next) && final(s).emitted(
            crate::minecraft::play::presentation_reports(event, next),
            *old(s),
        );
    let all = crate::minecraft::play::presentation_reports(event, next);
    assert(final(s).outbox@ == old(s).outbox@ + all);
    assert(news(*old(s), *final(s)) =~= all);
}

/// A chunk before any dimension is an error; afterwards it is loaded under its x and z.
pub proof fn law_chunks_need_a_dimension(
    s: &mut PlayState,
    p: &PacketMapChunk,
    res: Result<(), MineRiderError>,
)
    requires
        call_ensures(PlayState::apply_chunk, (s, p), res),
    ensures
        old(s).world is None ==> res is Err && *final(s) == *old(s),
        old(s).world is Some && res is Ok ==> final(s).world is Some
            && final(s).world->0@.chunks.contains_key((p.x as int, p.z as int))
            && final(s).world->0@.chunks[(p.x as int, p.z as int)].x == p.x
            && final(s).world->0@.chunks[(p.x as int, p.z as int)].z == p.z,
        old(s).world is Some && res is Err ==> final(s).world is Some && final(s).world->0@ == old(
            s,
        ).world->0@,
        final(s).player == old(s).player,
{
}

/// A packet of the play state reaches what handles it.
pub proof fn law_play_packets_reach_their_handler(
    s: &mut PlayState,
    configuration: &ConfigurationData,
    packet: PlayClientbound,
    warned: &mut SortedMap<i32, ()>,
    res: Result<Vec<PlayReply>, MineRiderError>,
)
    requires
        call_ensures(PlayState::handle_clientbound, (s, configuration, packet, warned), res),
    ensures
        packet is MapChunk || packet is UnloadChunk || packet is BlockChange || packet
            is MultiBlockChange ==> (res matches Ok(r) ==> r@.len() == 0) && *final(s) == (
        PlayState { world: final(s).world, ..*old(s) }),
        packet matches PlayClientbound::UnloadChunk(p) ==> old(s).world is Some ==> final(s).world
            is Some && !final(s).world->0@.chunks.contains_key(
            (p.chunk_x as int, p.chunk_z as int),
        ),
        packet is State ==> (res matches Ok(r) ==> r@.len() == 0),
        packet is Position ==> final(s).received_position && (res matches Ok(r) && r@.len() == 2
            && r@[0] is TeleportConfirm && r@[1] is PositionLook),
        packet is Other ==> *final(s) == *old(s) && (res matches Ok(r) && r@.len() == 1 && r@[0]
            is Note),
        !(packet is Other) ==> final(warned)@ == old(warned)@,
{
}

/// The sender of a message is its name in plain text; where that is empty, the number
/// of who signed it; and nothing where nobody did.
pub proof fn law_senders_are_named(m: ChatMessage)
    ensures
        m.sender matches Some(s) ==> plain(s@).len() > 0 ==> sender_name(m) == plain(s@),
        (m.sender is None || plain(m.sender->0@).len() == 0) && m.signed is Some ==> sender_name(m)
            == decimal(m.signed->0.sender_uuid as int),
        (m.sender is None || plain(m.sender->0@).len() == 0) && m.signed is None ==> sender_name(m)
            == Seq::<char>::empty(),
{
}

/// A dimension that is not there is named by its number, with how many there are.
pub proof fn law_absent_dimensions_are_named(
    s: &mut PlayState,
    t: &mut PlayState,
    configuration: &ConfigurationData,
    login: &PacketLogin,
    respawn: &PacketRespawn,
    a: Result<(), MineRiderError>,
    b: Result<(), MineRiderError>,
)
    requires
        call_ensures(PlayState::apply_login, (s, configuration, login), a),
        call_ensures(PlayState::apply_respawn, (t, configuration, respawn), b),
    ensures
        a matches Err(e) ==> (e matches MineRiderError::Protocol(text) && text@
            == "play login dimension index "@ + decimal(login.world_state.dimension as int)
            + " absent from "@ + decimal(configuration.dimension_types@.len() as int)
            + " dimension types"@),
        b matches Err(e) ==> (e matches MineRiderError::Protocol(text) && text@
            == "respawn dimension index "@ + decimal(respawn.world_state.dimension as int)
            + " absent from "@ + decimal(configuration.dimension_types@.len() as int)
            + " dimension types"@),
{
}

} // verus!
