//! Play state: everything the client knows while it is in the world, and what
//! it does about each clientbound packet, command and tick.
//!
//! Packets arrive decoded. Events collect in an outbox, replies are handed
//! back; the loop around this sends both. Floating-point work (physics,
//! steering, sums of relative positions) is done outside and handed in.
use crate::error::{protocol_error, MineRiderError};
use crate::float_bits::{
    floor_double, floor_of, is_negative, is_positive, negative, positive, same_single,
    singles_equal,
};
use crate::minecraft::configuration::{floor_div_16, ConfigurationData, DimensionType};
use crate::minecraft::control::{
    look_after, look_counted, ActionValidationError, BotCommand, Controller, Hand, KeysModel,
};
use crate::minecraft::coverage::{play_coverage, play_entry, CoverageClass, PlayPacket};
use crate::minecraft::entity::{
    changed, spawned, without, Entity, EntityStore, PacketEntityDestroy, PacketEntityHeadRotation,
    PacketEntityLook, PacketEntityMoveLook, PacketEntityTeleport, PacketEntityVelocity,
    PacketRelEntityMove, PacketSpawnEntity, PacketSyncEntityPosition,
};
use crate::minecraft::event::BotEvent;
use crate::minecraft::geometry::{degrees, Vec3};
use crate::minecraft::hud;
use crate::minecraft::hud::{
    hud_experienced, hud_healed, hud_own_slot_set, hud_respawned, hud_selected, hud_timed,
    GameMode, HudEvent, HudModel, HudPacket, HudState, HudUpdate, PacketGameStateChange,
    PacketLogin, PacketRespawn, PacketUpdateHealth, PacketUpdateTime,
};
use crate::minecraft::inventory::{
    click_sent, cursor_set, hotbar_selected, own_slot_set, property_set, slot_set, window_closed,
    window_filled, window_opened, Due, InventoryClickRequest, InventoryEvent, InventoryOutcome,
    InventoryState, PacketCloseWindow, PacketCraftProgressBar, PacketHeldItemSlot, PacketOpenWindow,
    PacketSetCursorItem, PacketSetPlayerInventory, PacketSetSlot, PacketWindowClick,
    PacketWindowItems,
};
use crate::minecraft::nbt::Nbt;
use crate::minecraft::player::{
    LocalPlayer, MovementInput, MovementPacket, PacketExperience, PacketPosition,
    PacketPositionLook, PlayerPosition, PositionSums, chosen, placed,
};
use crate::minecraft::players::{
    joined_view, removed_all, unchanged, EntryModel, InfoResult, PacketPlayerInfo,
    PacketPlayerRemove, PlayerList, MAX_PLAYERS,
};
use crate::minecraft::presentation;
use crate::minecraft::presentation::{
    presentation_update_of, ChatKind, ChatMessage, PresentationEvent, PresentationModel,
    PresentationPacket, PresentationState, PresentationUpdate,
};
use crate::minecraft::resource_pack::{PacketCommonAddResourcePack, PacketResourcePackReceive};
use crate::minecraft::scoreboard;
use crate::minecraft::scoreboard::{
    scoreboard_outcome, scoreboard_update_of, ScoreboardEvent, ScoreboardModel, ScoreboardPacket,
    ScoreboardState, ScoreboardUpdate,
};
use crate::minecraft::settings::{reason_text, RESOURCE_PACK_STATUS_DECLINED};
use crate::minecraft::text::plain;
use crate::minecraft::world::{
    chunk_of, in_reach, PacketBlockChange, PacketMapChunk, PacketMultiBlockChange,
    PacketUnloadChunk, SectionPosition, World, WorldModel,
};
use crate::sorted_map::SortedMap;
use crate::text_build::{append_nat, decimal, decimal_nat, text_with_two};
use vstd::prelude::*;
use vstd::std_specs::cmp::PartialEqSpecImpl;

verus! {

/// The game event that starts the rain.
pub const GAME_STATE_BEGIN_RAINING: u8 = 1;

/// The game event that ends the rain.
pub const GAME_STATE_END_RAINING: u8 = 2;

/// The client command that clicks the death screen's respawn button.
pub const RESPAWN_ACTION_ID: i32 = 0;

/// Aggregate play-state: the tick counter plus local player and entity state.
pub struct PlayState {
    /// Own player state (position, vitals, experience).
    pub player: LocalPlayer,
    /// Tracked non-local entities.
    pub entities: EntityStore,
    /// Own inventory, any open container, and the cursor item.
    pub inventory: InventoryState,
    /// Tab-list players, keyed by uuid.
    pub players: PlayerList,
    /// Chat, titles, action bar, tab-list header/footer, and boss bars.
    pub presentation: PresentationState,
    /// Objectives, display slots, scores, teams, and team membership.
    pub scoreboard: ScoreboardState,
    /// Local-player HUD state and world context omitted from the physics core.
    pub hud: HudState,
    /// World time (day-time in ticks).
    pub world_time: i64,
    /// Whether it is raining.
    pub raining: bool,
    /// Per-tick movement driver fed by the control channel.
    pub controller: Controller,
    /// Monotonic 20 TPS tick counter.
    pub tick: u64,
    /// Events that wait to be broadcast, oldest first.
    pub outbox: Vec<BotEvent>,
    pub received_position: bool,
    pub dimension: Option<DimensionType>,
    pub world: Option<World>,
    /// Whether a respawn request is outstanding: set when death is detected,
    /// cleared when the `respawn` packet arrives.
    pub respawn_pending: bool,
    /// Whether the bot was alive on the previous vitals update, so a death
    /// edge fires the `Death` event exactly once.
    pub was_alive: bool,
    /// Monotonic per-session counter for `use_item`'s `sequence` field.
    pub next_action_sequence: i32,
    /// The movement keys last sent to the server. Vanilla sends them only when
    /// they *change*.
    pub last_player_input: u8,
}

/// What is known of the blocks, if a dimension was entered.
pub open spec fn world_view(world: Option<World>) -> Option<WorldModel> {
    match world {
        Some(w) => Some(w@),
        None => None,
    }
}

impl PlayState {
    /// Every part is valid.
    pub open spec fn valid(self) -> bool {
        &&& self.player.valid()
        &&& self.inventory.valid()
        &&& self.presentation.valid()
        &&& self.scoreboard.valid()
        &&& self.hud.valid()
        &&& self.players@.len() <= MAX_PLAYERS
        &&& world_view(self.world) matches Some(w) ==> w.valid() && w.dimension.height >= 0
    }

    /// The events that this state has more than an earlier one.
    pub open spec fn emitted(self, events: Seq<BotEvent>, before: PlayState) -> bool {
        self.outbox@ == before.outbox@ + events
    }

    /// Fresh play state for a newly-joined client.
    pub fn new() -> (s: Self)
        ensures
            s.valid(),
            s.player == LocalPlayer::spawn(),
            s.entities@ == Map::<int, Entity>::empty(),
            s.inventory@.is_fresh(),
            s.players@ == Map::<int, EntryModel>::empty(),
            s.presentation@ == PresentationModel::empty(),
            s.scoreboard@ == ScoreboardModel::empty(),
            s.hud@.is_fresh(),
            s.controller.keys() == KeysModel::idle(),
            s.controller.random_look is None,
            s.world_time == 0,
            !s.raining,
            s.tick == 0,
            s.outbox@ == Seq::<BotEvent>::empty(),
            !s.received_position,
            s.dimension is None,
            s.world is None,
            !s.respawn_pending,
            s.was_alive,
            s.next_action_sequence == 0,
            s.last_player_input == 0,
    {
        PlayState {
            player: LocalPlayer::new(),
            entities: EntityStore::new(),
            inventory: InventoryState::new(),
            players: PlayerList::new(),
            presentation: PresentationState::new(),
            scoreboard: ScoreboardState::new(),
            hud: HudState::new(),
            world_time: 0,
            raining: false,
            controller: Controller::default(),
            tick: 0,
            outbox: Vec::new(),
            received_position: false,
            dimension: None,
            world: None,
            respawn_pending: false,
            was_alive: true,
            next_action_sequence: 0,
            last_player_input: 0,
        }
    }

    /// The next `use_item` sequence number for this session.
    pub fn next_action_sequence(&mut self) -> (n: i32)
        ensures
            n == old(self).next_action_sequence.wrapping_add(1),
            *final(self) == (PlayState { next_action_sequence: n, ..*old(self) }),
    {
        self.next_action_sequence = self.next_action_sequence.wrapping_add(1);
        self.next_action_sequence
    }

    fn emit(&mut self, event: BotEvent)
        ensures
            *final(self) == (PlayState { outbox: final(self).outbox, ..*old(self) }),
            final(self).outbox@ == old(self).outbox@.push(event),
    {
        self.outbox.push(event);
    }

    fn emit_inventory_events(&mut self, events: Vec<InventoryEvent>)
        ensures
            *final(self) == (PlayState { outbox: final(self).outbox, ..*old(self) }),
            final(self).emitted(inventory_reports(events@), *old(self)),
    {
        let mut i: usize = 0;
        assert(self.outbox@ =~= old(self).outbox@ + inventory_reports(events@.take(0)));
        while i < events.len()
            invariant
                i <= events@.len(),
                *self == (PlayState { outbox: self.outbox, ..*old(self) }),
                self.outbox@ == old(self).outbox@ + inventory_reports(events@.take(i as int)),
            decreases events@.len() - i,
        {
            self.outbox.push(BotEvent::Inventory(events[i]));
            i += 1;
            assert(self.outbox@ =~= old(self).outbox@ + inventory_reports(
                events@.take(i as int),
            ));
        }
        assert(events@.take(i as int) =~= events@);
    }
}

/// Inventory events as bot events.
pub open spec fn inventory_reports(events: Seq<InventoryEvent>) -> Seq<BotEvent> {
    Seq::new(events.len(), |i: int| BotEvent::Inventory(events[i]))
}

/// The name under which a chat message is reported: its sender as text, or the
/// sender's uuid where that is empty and known, or nothing.
pub open spec fn sender_name(m: ChatMessage) -> Seq<char> {
    match m.sender {
        Some(sender) if plain(sender@).len() > 0 => plain(sender@),
        _ => match m.signed {
            Some(signed) => decimal_nat(signed.sender_uuid as nat),
            None => Seq::empty(),
        },
    }
}

fn sender_of(m: &ChatMessage) -> (s: String)
    ensures
        s@ == sender_name(*m),
{
    match &m.sender {
        Some(sender) => {
            let name = sender.plain_text();
            if name.as_str().unicode_len() > 0 {
                return name;
            }
        },
        None => {},
    }
    let mut name = String::new();
    match &m.signed {
        Some(signed) => {
            append_nat(&mut name, signed.sender_uuid);
            assert(name@ =~= decimal_nat(signed.sender_uuid as nat));
        },
        None => {},
    }
    name
}

/// The simpler event that follows a presentation event, if one does.
pub open spec fn follows(event: PresentationEvent, next: Option<BotEvent>) -> bool {
    match event {
        PresentationEvent::Chat(m) => match m.kind {
            ChatKind::System => next matches Some(BotEvent::SystemChat { message }) && message@
                == plain(m.content@),
            _ => next matches Some(BotEvent::Chat { sender, message }) && sender@ == sender_name(*m)
                && message@ == plain(m.content@),
        },
        PresentationEvent::Disconnected { reason } => next matches Some(BotEvent::Kicked {
            reason: text,
        }) && text@ == plain(reason@),
        _ => next is None,
    }
}

fn following(event: &PresentationEvent) -> (next: Option<BotEvent>)
    ensures
        follows(*event, next),
{
    match event {
        PresentationEvent::Chat(m) => match m.kind {
            ChatKind::System => Some(BotEvent::SystemChat { message: m.content.plain_text() }),
            _ => Some(BotEvent::Chat { sender: sender_of(m), message: m.content.plain_text() }),
        },
        PresentationEvent::Disconnected { reason } => Some(
            BotEvent::Kicked { reason: reason.plain_text() },
        ),
        _ => None,
    }
}

/// A presentation event and what follows it.
pub open spec fn presentation_reports(event: PresentationEvent, next: Option<BotEvent>) -> Seq<
    BotEvent,
> {
    match next {
        Some(n) => seq![BotEvent::Presentation(event), n],
        None => seq![BotEvent::Presentation(event)],
    }
}

/// What a presentation update does.
pub open spec fn presentation_applied(
    before: PlayState,
    update: PresentationUpdate,
    after: PlayState,
) -> bool {
    &&& after == (PlayState {
        presentation: after.presentation,
        outbox: after.outbox,
        ..before
    })
    &&& after.presentation@ == before.presentation@.applied(update).0
    &&& exists|next: Option<BotEvent>| #[trigger]
        follows(before.presentation@.applied(update).1, next) && after.emitted(
            presentation_reports(before.presentation@.applied(update).1, next),
            before,
        )
}

/// What a scoreboard update does.
pub open spec fn scoreboard_applied(
    before: PlayState,
    update: ScoreboardUpdate,
    after: PlayState,
) -> bool {
    &&& after == (PlayState { scoreboard: after.scoreboard, outbox: after.outbox, ..before })
    &&& exists|event: ScoreboardEvent| #[trigger]
        scoreboard_outcome(before.scoreboard@, after.scoreboard, event, update) && after.emitted(
            seq![BotEvent::Scoreboard(event)],
            before,
        )
}

/// An optional HUD event as bot events.
pub open spec fn hud_reports(event: Option<HudEvent>) -> Seq<BotEvent> {
    match event {
        Some(e) => seq![BotEvent::Hud(e)],
        None => Seq::empty(),
    }
}

/// What a HUD update does.
pub open spec fn hud_applied(before: PlayState, update: HudUpdate, after: PlayState) -> bool {
    &&& after == (PlayState { hud: after.hud, outbox: after.outbox, ..before })
    &&& after.hud@ == before.hud@.applied(update).0
    &&& after.emitted(hud_reports(before.hud@.applied(update).1), before)
}

impl PlayState {
    /// Applies a presentation update and reports it, chat and kicks in a
    /// simpler form as well.
    pub fn apply_presentation(&mut self, update: PresentationUpdate)
        requires
            old(self).valid(),
        ensures
            final(self).valid(),
            presentation_applied(*old(self), update, *final(self)),
    {
        let event = self.presentation.apply(update);
        let next = following(&event);
        let ghost shown = event;
        let ghost after = next;
        self.outbox.push(BotEvent::Presentation(event));
        match next {
            Some(n) => self.outbox.push(n),
            None => {},
        }
        proof {
            assert(shown == old(self).presentation@.applied(update).1);
            assert(follows(old(self).presentation@.applied(update).1, after));
            assert(self.outbox@ =~= old(self).outbox@ + presentation_reports(shown, after));
        }
    }

    /// Applies a scoreboard update and reports it.
    pub fn apply_scoreboard(&mut self, update: ScoreboardUpdate)
        requires
            old(self).valid(),
        ensures
            final(self).valid(),
            scoreboard_applied(*old(self), update, *final(self)),
    {
        let event = self.scoreboard.apply(update);
        let ghost shown = event;
        self.outbox.push(BotEvent::Scoreboard(event));
        proof {
            assert(scoreboard_outcome(old(self).scoreboard@, self.scoreboard, shown, update));
            assert(self.outbox@ =~= old(self).outbox@ + seq![BotEvent::Scoreboard(shown)]);
        }
    }

    /// Applies a HUD update and reports what changed, if anything did.
    pub fn apply_hud(&mut self, update: HudUpdate)
        requires
            old(self).valid(),
        ensures
            final(self).valid(),
            hud_applied(*old(self), update, *final(self)),
    {
        match self.hud.apply(update) {
            Some(event) => {
                let ghost shown = event;
                self.outbox.push(BotEvent::Hud(event));
                assert(self.outbox@ =~= old(self).outbox@ + seq![BotEvent::Hud(shown)]);
            },
            None => {
                assert(self.outbox@ =~= old(self).outbox@ + Seq::<BotEvent>::empty());
            },
        }
    }
}

/// The dimension that an index names, if there is one.
pub open spec fn dimension_at(configuration: ConfigurationData, index: i32) -> Option<
    DimensionType,
> {
    if 0 <= index < configuration.dimension_types@.len() {
        Some(configuration.dimension_types@[index as int])
    } else {
        None
    }
}

/// How an index without a dimension is reported.
pub open spec fn absent_dimension_text(what: Seq<char>, index: i32, count: nat) -> Seq<char> {
    what + decimal(index as int) + " absent from "@ + decimal(count as int) + " dimension types"@
}

fn find_dimension(configuration: &ConfigurationData, index: i32, what: &str) -> (res: Result<
    DimensionType,
    MineRiderError,
>)
    ensures
        match (res, dimension_at(*configuration, index)) {
            (Ok(d), Some(want)) => d == want,
            (Err(e), None) => e.is_protocol(
                absent_dimension_text(what@, index, configuration.dimension_types@.len()),
            ),
            _ => false,
        },
{
    if 0 <= index && (index as usize) < configuration.dimension_types.len() {
        Ok(configuration.dimension_types[index as usize].clone())
    } else {
        Err(
            MineRiderError::Protocol(
                text_with_two(
                    what,
                    index as i128,
                    " absent from ",
                    configuration.dimension_types.len() as i128,
                    " dimension types",
                ),
            ),
        )
    }
}

/// A state that is in a dimension nothing of which is loaded.
pub open spec fn entered(state: PlayState, dimension: DimensionType) -> bool {
    &&& state.dimension == Some(dimension)
    &&& world_view(state.world) == Some(WorldModel { dimension, chunks: Map::empty() })
}

/// What entering the play state does. The dimension is looked up last: where it
/// is unknown, the player and the HUD have taken the packet in already.
pub open spec fn login_applied(
    before: PlayState,
    configuration: ConfigurationData,
    p: PacketLogin,
    after: PlayState,
    res: Result<(), MineRiderError>,
) -> bool {
    &&& after.player == (LocalPlayer {
        entity_id: Some(p.entity_id),
        loaded: false,
        ..before.player
    })
    &&& after.hud@ == (HudModel {
        entity_id: Some(p.entity_id),
        hardcore: p.is_hardcore,
        ..before.hud@.spawned(p.world_state, before.hud@.respawn.count, 0)
    })
    &&& match dimension_at(configuration, p.world_state.dimension) {
        Some(d) => {
            &&& res is Ok
            &&& entered(after, d)
            &&& after.emitted(seq![BotEvent::Login { entity_id: p.entity_id }], before)
            &&& after == (PlayState {
                player: after.player,
                hud: after.hud,
                dimension: after.dimension,
                world: after.world,
                outbox: after.outbox,
                ..before
            })
        },
        None => {
            &&& res matches Err(e) && e.is_protocol(
                absent_dimension_text(
                    "play login dimension index "@,
                    p.world_state.dimension,
                    configuration.dimension_types@.len(),
                ),
            )
            &&& after == (PlayState { player: after.player, hud: after.hud, ..before })
        },
    }
}

/// What a respawn does: the readiness check resets, and the world is left.
pub open spec fn respawn_applied(
    before: PlayState,
    configuration: ConfigurationData,
    p: PacketRespawn,
    after: PlayState,
    res: Result<(), MineRiderError>,
) -> bool {
    &&& after.player == (LocalPlayer {
        loaded: false,
        velocity: Vec3::zero(),
        on_ground: false,
        horizontal_collision: false,
        ..before.player
    })
    &&& !after.respawn_pending
    &&& !after.received_position
    &&& exists|event: HudEvent| #[trigger]
        hud_respawned(before.hud@, p, after.hud@, event) && after.emitted(
            seq![BotEvent::Hud(event)],
            before,
        )
    &&& match dimension_at(configuration, p.world_state.dimension) {
        Some(d) => res is Ok && entered(after, d) && after == (PlayState {
            player: after.player,
            hud: after.hud,
            respawn_pending: false,
            received_position: false,
            dimension: after.dimension,
            world: after.world,
            outbox: after.outbox,
            ..before
        }),
        None => {
            &&& res matches Err(e) && e.is_protocol(
                absent_dimension_text(
                    "respawn dimension index "@,
                    p.world_state.dimension,
                    configuration.dimension_types@.len(),
                ),
            )
            &&& after == (PlayState {
                player: after.player,
                hud: after.hud,
                respawn_pending: false,
                received_position: false,
                outbox: after.outbox,
                ..before
            })
        },
    }
}

/// The events of a vitals update: the vitals, the death where this update is
/// the one that kills, and the HUD's own.
pub open spec fn health_reports(before: PlayState, p: PacketUpdateHealth, event: HudEvent) -> Seq<
    BotEvent,
> {
    let vitals = BotEvent::Health {
        health: p.health,
        food: p.food,
        saturation: p.food_saturation,
    };
    if before.was_alive && !is_positive(p.health) {
        seq![vitals, BotEvent::Death, BotEvent::Hud(event)]
    } else {
        seq![vitals, BotEvent::Hud(event)]
    }
}

/// What a vitals update does.
pub open spec fn health_applied(
    before: PlayState,
    p: PacketUpdateHealth,
    after: PlayState,
) -> bool {
    &&& after == (PlayState {
        player: LocalPlayer {
            health: p.health,
            food: p.food,
            saturation: p.food_saturation,
            ..before.player
        },
        hud: after.hud,
        was_alive: is_positive(p.health),
        outbox: after.outbox,
        ..before
    })
    &&& exists|event: HudEvent| #[trigger]
        hud_healed(before.hud@, p, after.hud@, event) && after.emitted(
            health_reports(before, p, event),
            before,
        )
}

/// What an experience update does.
pub open spec fn experience_applied(
    before: PlayState,
    p: PacketExperience,
    after: PlayState,
) -> bool {
    &&& after == (PlayState {
        player: LocalPlayer {
            xp_bar: p.experience_bar,
            xp_level: p.level,
            total_experience: p.total_experience,
            ..before.player
        },
        hud: after.hud,
        outbox: after.outbox,
        ..before
    })
    &&& exists|event: HudEvent| #[trigger]
        hud_experienced(
            before.hud@,
            p.experience_bar,
            p.level,
            p.total_experience,
            after.hud@,
            event,
        ) && after.emitted(seq![BotEvent::Hud(event)], before)
}

impl PlayState {
    fn enter(&mut self, dimension: DimensionType)
        requires
            dimension.height >= 0,
        ensures
            entered(*final(self), dimension),
            *final(self) == (PlayState {
                dimension: final(self).dimension,
                world: final(self).world,
                ..*old(self)
            }),
            old(self).valid() ==> final(self).valid(),
    {
        self.dimension = Some(dimension.clone());
        self.world = Some(World::new(dimension));
    }

    /// Enters the play state.
    pub fn apply_login(&mut self, configuration: &ConfigurationData, p: &PacketLogin) -> (res:
        Result<(), MineRiderError>)
        requires
            old(self).valid(),
            configuration.bounded(),
        ensures
            final(self).valid(),
            login_applied(*old(self), *configuration, *p, *final(self), res),
    {
        self.player.on_login(p);
        self.hud.on_login(p);
        match find_dimension(
            configuration,
            p.world_state.dimension,
            "play login dimension index ",
        ) {
            Ok(dimension) => {
                self.enter(dimension);
                self.emit(BotEvent::Login { entity_id: p.entity_id });
                assert(self.outbox@ =~= old(self).outbox@ + seq![
                    BotEvent::Login { entity_id: p.entity_id },
                ]);
                Ok(())
            },
            Err(e) => Err(e),
        }
    }

    /// Takes up a new life, in this dimension or another.
    pub fn apply_respawn(&mut self, configuration: &ConfigurationData, p: &PacketRespawn) -> (res:
        Result<(), MineRiderError>)
        requires
            old(self).valid(),
            configuration.bounded(),
        ensures
            final(self).valid(),
            respawn_applied(*old(self), *configuration, *p, *final(self), res),
    {
        self.respawn_pending = false;
        self.player.on_respawn();
        let event = self.hud.on_respawn(p);
        let ghost shown = event;
        let ghost hud = self.hud@;
        self.emit(BotEvent::Hud(event));
        self.received_position = false;
        proof {
            assert(hud_respawned(old(self).hud@, *p, hud, shown));
            assert(self.outbox@ =~= old(self).outbox@ + seq![BotEvent::Hud(shown)]);
        }
        match find_dimension(configuration, p.world_state.dimension, "respawn dimension index ") {
            Ok(dimension) => {
                self.enter(dimension);
                Ok(())
            },
            Err(e) => Err(e),
        }
    }

    /// Takes in the vitals; a death is reported once.
    pub fn apply_health(&mut self, p: &PacketUpdateHealth)
        requires
            old(self).valid(),
        ensures
            final(self).valid(),
            health_applied(*old(self), *p, *final(self)),
    {
        self.player.on_health(p);
        let event = self.hud.on_health(p);
        let ghost shown = event;
        self.emit(
            BotEvent::Health { health: p.health, food: p.food, saturation: p.food_saturation },
        );
        let alive = self.player.is_alive();
        if self.was_alive && !alive {
            self.emit(BotEvent::Death);
        }
        self.was_alive = alive;
        self.emit(BotEvent::Hud(event));
        proof {
            assert(hud_healed(old(self).hud@, *p, self.hud@, shown));
            assert(self.outbox@ =~= old(self).outbox@ + health_reports(*old(self), *p, shown));
        }
    }

    /// Takes in the experience.
    pub fn apply_experience(&mut self, p: &PacketExperience)
        requires
            old(self).valid(),
        ensures
            final(self).valid(),
            experience_applied(*old(self), *p, *final(self)),
    {
        self.player.on_experience(p);
        let event = self.hud.on_experience(p.experience_bar, p.level, p.total_experience);
        let ghost shown = event;
        self.emit(BotEvent::Hud(event));
        proof {
            assert(hud_experienced(
                old(self).hud@,
                p.experience_bar,
                p.level,
                p.total_experience,
                self.hud@,
                shown,
            ));
            assert(self.outbox@ =~= old(self).outbox@ + seq![BotEvent::Hud(shown)]);
        }
    }
}

/// What an inventory packet does, given the outcome for the inventory.
pub open spec fn inventory_changed(
    before: PlayState,
    events: Seq<InventoryEvent>,
    after: PlayState,
) -> bool {
    &&& after == (PlayState { inventory: after.inventory, outbox: after.outbox, ..before })
    &&& after.emitted(inventory_reports(events), before)
}

/// What a held-item packet does: the inventory reports first, then the HUD.
pub open spec fn held_item_applied(
    before: PlayState,
    p: PacketHeldItemSlot,
    after: PlayState,
) -> bool {
    &&& after == (PlayState {
        inventory: after.inventory,
        hud: after.hud,
        outbox: after.outbox,
        ..before
    })
    &&& exists|kept: InventoryEvent, shown: HudEvent|
        #![trigger hotbar_selected(before.inventory@, p, after.inventory@, kept), hud_selected(before.hud@, p, after.hud@, shown)]
        hotbar_selected(before.inventory@, p, after.inventory@, kept) && hud_selected(
            before.hud@,
            p,
            after.hud@,
            shown,
        ) && after.emitted(seq![BotEvent::Inventory(kept), BotEvent::Hud(shown)], before)
}

/// What a player-inventory packet does: the inventory reports first, then the
/// HUD.
pub open spec fn own_inventory_applied(
    before: PlayState,
    p: PacketSetPlayerInventory,
    after: PlayState,
) -> bool {
    &&& after == (PlayState {
        inventory: after.inventory,
        hud: after.hud,
        outbox: after.outbox,
        ..before
    })
    &&& exists|kept: Seq<InventoryEvent>, shown: HudEvent|
        #![trigger own_slot_set(before.inventory@, p, after.inventory@, kept), hud_own_slot_set(before.hud@, p, after.hud@, shown)]
        own_slot_set(before.inventory@, p, after.inventory@, kept) && hud_own_slot_set(
            before.hud@,
            p,
            after.hud@,
            shown,
        ) && after.emitted(inventory_reports(kept).push(BotEvent::Hud(shown)), before)
}

/// Whether an event reports that this player joined.
pub open spec fn is_join(event: BotEvent, joined: (u128, Seq<char>)) -> bool {
    event matches BotEvent::PlayerJoined { uuid, name } && uuid == joined.0 && name@ == joined.1
}

/// Whether events report these joins, in order.
pub open spec fn join_reports(joined: Seq<(u128, Seq<char>)>, events: Seq<BotEvent>) -> bool {
    &&& events.len() == joined.len()
    &&& forall|i: int|
        0 <= i < joined.len() ==> is_join(#[trigger] events[i], joined[i])
}

/// Whether an event reports a change of the player list.
pub open spec fn list_report(
    event: BotEvent,
    updated: Seq<u128>,
    removed: Seq<u128>,
    rejected: nat,
) -> bool {
    event matches BotEvent::Hud(HudEvent::PlayerListChanged { updated: u, removed: r, rejected: n })
        && u@ == updated && r@ == removed && n == rejected
}

/// What a player-info packet does: every join is reported, then the list.
pub open spec fn player_info_applied(
    before: PlayState,
    p: PacketPlayerInfo,
    after: PlayState,
) -> bool {
    let result = unchanged(before.players@).after_all(p.action, p.data@);
    &&& after == (PlayState { players: after.players, outbox: after.outbox, ..before })
    &&& after.players@ == result.players
    &&& exists|joins: Seq<BotEvent>, list: BotEvent|
        #![trigger after.emitted(joins.push(list), before)]
        join_reports(result.joined, joins) && list_report(
            list,
            result.updated,
            Seq::empty(),
            result.rejected,
        ) && after.emitted(joins.push(list), before)
}

/// Departures as bot events.
pub open spec fn leave_reports(removed: Seq<u128>) -> Seq<BotEvent> {
    Seq::new(removed.len(), |i: int| BotEvent::PlayerLeft { uuid: removed[i] })
}

/// What a player-remove packet does: every departure is reported, then the
/// list.
pub open spec fn player_remove_applied(
    before: PlayState,
    p: PacketPlayerRemove,
    after: PlayState,
) -> bool {
    let (left, removed) = removed_all(before.players@, p.players@);
    &&& after == (PlayState { players: after.players, outbox: after.outbox, ..before })
    &&& after.players@ == left
    &&& exists|list: BotEvent| #[trigger]
        list_report(list, Seq::empty(), removed, 0) && after.emitted(
            leave_reports(removed).push(list),
            before,
        )
}

/// What the world clock does.
pub open spec fn time_applied(before: PlayState, p: PacketUpdateTime, after: PlayState) -> bool {
    let time_of_day = (p.time as int % 24_000) as i64;
    &&& after == (PlayState {
        world_time: time_of_day,
        hud: after.hud,
        outbox: after.outbox,
        ..before
    })
    &&& exists|event: HudEvent| #[trigger]
        hud_timed(before.hud@, p, after.hud@, event) && after.emitted(
            seq![BotEvent::Time { time_of_day }, BotEvent::Hud(event)],
            before,
        )
}

/// Whether it rains after a game event.
pub open spec fn rains(before: bool, reason: u8) -> bool {
    if reason == GAME_STATE_BEGIN_RAINING {
        true
    } else if reason == GAME_STATE_END_RAINING {
        false
    } else {
        before
    }
}

/// The weather report of a game event, if it is one of the weather.
pub open spec fn weather_reports(reason: u8) -> Seq<BotEvent> {
    if reason == GAME_STATE_BEGIN_RAINING {
        seq![BotEvent::Weather { raining: true }]
    } else if reason == GAME_STATE_END_RAINING {
        seq![BotEvent::Weather { raining: false }]
    } else {
        Seq::empty()
    }
}

/// What a game event does: the weather is reported first, then the HUD.
pub open spec fn game_state_applied(
    before: PlayState,
    p: PacketGameStateChange,
    after: PlayState,
) -> bool {
    let (hud, event) = before.hud@.game_state(p.reason, p.game_mode);
    &&& after == (PlayState {
        raining: rains(before.raining, p.reason),
        hud: after.hud,
        outbox: after.outbox,
        ..before
    })
    &&& after.hud@ == hud
    &&& after.emitted(weather_reports(p.reason) + hud_reports(event), before)
}

/// Removals as bot events.
pub open spec fn removal_reports(ids: Seq<i32>) -> Seq<BotEvent> {
    Seq::new(ids.len(), |i: int| BotEvent::EntityRemoved { entity_id: ids[i] })
}

/// What a velocity packet does: addressed to the own entity it moves the
/// player, otherwise the entity.
pub open spec fn velocity_applied(
    before: PlayState,
    p: PacketEntityVelocity,
    after: PlayState,
) -> bool {
    if before.player.entity_id == Some(p.entity_id) {
        after == (PlayState {
            player: LocalPlayer { velocity: p.velocity, ..before.player },
            ..before
        })
    } else {
        &&& after == (PlayState { entities: after.entities, ..before })
        &&& after.entities@ == changed(
            before.entities@,
            p.entity_id,
            Entity { velocity: p.velocity, ..before.entities@[p.entity_id as int] },
        )
    }
}

impl PlayState {
    /// Takes in the selected hotbar slot.
    pub fn apply_held_item(&mut self, p: &PacketHeldItemSlot)
        requires
            old(self).valid(),
        ensures
            final(self).valid(),
            held_item_applied(*old(self), *p, *final(self)),
    {
        let kept = self.inventory.held_item_slot(p);
        let shown = self.hud.on_selected_hotbar(p);
        let ghost event = shown;
        self.emit(BotEvent::Inventory(kept));
        self.emit(BotEvent::Hud(shown));
        proof {
            assert(hotbar_selected(old(self).inventory@, *p, self.inventory@, kept));
            assert(hud_selected(old(self).hud@, *p, self.hud@, event));
            assert(self.outbox@ =~= old(self).outbox@ + seq![
                BotEvent::Inventory(kept),
                BotEvent::Hud(event),
            ]);
        }
    }

    /// Takes in a slot of the player's inventory.
    pub fn apply_own_inventory(&mut self, p: &PacketSetPlayerInventory)
        requires
            old(self).valid(),
        ensures
            final(self).valid(),
            own_inventory_applied(*old(self), *p, *final(self)),
    {
        let kept = self.inventory.set_player_inventory(p);
        let shown = self.hud.on_player_inventory(p);
        let ghost event = shown;
        let ghost events = kept@;
        self.emit_inventory_events(kept);
        self.emit(BotEvent::Hud(shown));
        proof {
            assert(own_slot_set(old(self).inventory@, *p, self.inventory@, events));
            assert(hud_own_slot_set(old(self).hud@, *p, self.hud@, event));
            assert(self.outbox@ =~= old(self).outbox@ + inventory_reports(events).push(
                BotEvent::Hud(event),
            ));
        }
    }

    /// Takes in fields of players.
    pub fn apply_player_info(&mut self, p: &PacketPlayerInfo)
        requires
            old(self).valid(),
        ensures
            final(self).valid(),
            player_info_applied(*old(self), *p, *final(self)),
    {
        let changes = self.players.apply_info(p);
        let ghost joined = changes.joined@;
        let ghost mut joins: Seq<BotEvent> = Seq::empty();
        let mut i: usize = 0;
        assert(self.outbox@ =~= old(self).outbox@ + joins);
        while i < changes.joined.len()
            invariant
                i <= changes.joined@.len(),
                changes.joined@ == joined,
                *self == (PlayState { players: self.players, outbox: self.outbox, ..*old(self) }),
                (InfoResult {
                    players: self.players@,
                    joined: joined_view(joined),
                    updated: changes.updated@,
                    rejected: changes.rejected as nat,
                }) == unchanged(old(self).players@).after_all(p.action, p.data@),
                self.players@.len() <= MAX_PLAYERS,
                join_reports(joined_view(joined).take(i as int), joins),
                self.outbox@ == old(self).outbox@ + joins,
            decreases changes.joined@.len() - i,
        {
            let uuid: u128 = changes.joined[i].0;
            let name = changes.joined[i].1.clone();
            let ghost event = BotEvent::PlayerJoined { uuid, name };
            self.emit(BotEvent::PlayerJoined { uuid, name });
            proof {
                let before = joins;
                joins = joins.push(event);
                assert(self.outbox@ =~= old(self).outbox@ + joins);
                let all = joined_view(joined).take(i + 1);
                assert forall|k: int| 0 <= k < all.len() implies is_join(
                    #[trigger] joins[k],
                    all[k],
                ) by {
                    if k < i {
                        assert(joins[k] == before[k]);
                        assert(all[k] == joined_view(joined).take(i as int)[k]);
                    }
                }
            }
            i += 1;
        }
        assert(joined_view(joined).take(i as int) =~= joined_view(joined));
        let list = BotEvent::Hud(
            HudEvent::PlayerListChanged {
                updated: changes.updated,
                removed: Vec::new(),
                rejected: changes.rejected,
            },
        );
        let ghost shown = list;
        self.emit(list);
        proof {
            assert(self.outbox@ =~= old(self).outbox@ + joins.push(shown));
            assert(self.emitted(joins.push(shown), *old(self)));
        }
    }

    /// Takes in departures.
    pub fn apply_player_remove(&mut self, p: &PacketPlayerRemove)
        requires
            old(self).valid(),
        ensures
            final(self).valid(),
            player_remove_applied(*old(self), *p, *final(self)),
    {
        let removed = self.players.apply_remove(p);
        let mut i: usize = 0;
        assert(self.outbox@ =~= old(self).outbox@ + leave_reports(removed@.take(0)));
        while i < removed.len()
            invariant
                i <= removed@.len(),
                *self == (PlayState { players: self.players, outbox: self.outbox, ..*old(self) }),
                (self.players@, removed@) == removed_all(old(self).players@, p.players@),
                self.players@.len() <= MAX_PLAYERS,
                self.outbox@ == old(self).outbox@ + leave_reports(removed@.take(i as int)),
            decreases removed@.len() - i,
        {
            self.emit(BotEvent::PlayerLeft { uuid: removed[i] });
            i += 1;
            assert(self.outbox@ =~= old(self).outbox@ + leave_reports(removed@.take(i as int)));
        }
        assert(removed@.take(i as int) =~= removed@);
        let ghost gone = removed@;
        let list = BotEvent::Hud(
            HudEvent::PlayerListChanged { updated: Vec::new(), removed, rejected: 0 },
        );
        let ghost shown = list;
        self.emit(list);
        proof {
            let named = removed_all(old(self).players@, p.players@).1;
            assert(gone == named);
            assert(list_report(shown, Seq::empty(), named, 0));
            assert(self.outbox@ =~= old(self).outbox@ + leave_reports(gone).push(shown));
        }
    }

    /// Takes in the world clock. A negative day time means that the cycle is
    /// frozen; the time of day is its remainder all the same.
    pub fn apply_time(&mut self, p: &PacketUpdateTime)
        requires
            old(self).valid(),
        ensures
            final(self).valid(),
            time_applied(*old(self), *p, *final(self)),
    {
        let time_of_day: i64 = hud::day_time(p.time);
        self.world_time = time_of_day;
        let event = self.hud.on_time(p);
        let ghost shown = event;
        self.emit(BotEvent::Time { time_of_day });
        self.emit(BotEvent::Hud(event));
        proof {
            assert(hud_timed(old(self).hud@, *p, self.hud@, shown));
            assert(self.outbox@ =~= old(self).outbox@ + seq![
                BotEvent::Time { time_of_day },
                BotEvent::Hud(shown),
            ]);
        }
    }

    /// Takes in a game event.
    pub fn apply_game_state(&mut self, p: &PacketGameStateChange)
        requires
            old(self).valid(),
        ensures
            final(self).valid(),
            game_state_applied(*old(self), *p, *final(self)),
    {
        let event = self.hud.on_game_state(p);
        let ghost shown = event;
        if p.reason == GAME_STATE_BEGIN_RAINING {
            self.raining = true;
            self.emit(BotEvent::Weather { raining: true });
        } else if p.reason == GAME_STATE_END_RAINING {
            self.raining = false;
            self.emit(BotEvent::Weather { raining: false });
        }
        assert(self.outbox@ =~= old(self).outbox@ + weather_reports(p.reason));
        match event {
            Some(event) => self.emit(BotEvent::Hud(event)),
            None => {},
        }
        assert(self.outbox@ =~= old(self).outbox@ + (weather_reports(p.reason) + hud_reports(
            shown,
        )));
    }

    /// Forgets entities, and reports each id that was named.
    pub fn apply_entity_destroy(&mut self, p: &PacketEntityDestroy)
        requires
            old(self).valid(),
        ensures
            final(self).valid(),
            *final(self) == (PlayState {
                entities: final(self).entities,
                outbox: final(self).outbox,
                ..*old(self)
            }),
            final(self).entities@ == without(old(self).entities@, p.entity_ids@),
            final(self).emitted(removal_reports(p.entity_ids@), *old(self)),
    {
        self.entities.destroy(&p.entity_ids);
        let ghost left = self.entities;
        let mut i: usize = 0;
        assert(self.outbox@ =~= old(self).outbox@ + removal_reports(p.entity_ids@.take(0)));
        while i < p.entity_ids.len()
            invariant
                i <= p.entity_ids@.len(),
                *self == (PlayState { entities: left, outbox: self.outbox, ..*old(self) }),
                self.outbox@ == old(self).outbox@ + removal_reports(p.entity_ids@.take(i as int)),
            decreases p.entity_ids@.len() - i,
        {
            self.emit(BotEvent::EntityRemoved { entity_id: p.entity_ids[i] });
            i += 1;
            assert(self.outbox@ =~= old(self).outbox@ + removal_reports(
                p.entity_ids@.take(i as int),
            ));
        }
        assert(p.entity_ids@.take(i as int) =~= p.entity_ids@);
    }

    /// Takes in a velocity: a packet addressed to the own entity is a knock
    /// that local physics takes up, any other belongs to an entity.
    pub fn apply_velocity(&mut self, p: &PacketEntityVelocity)
        requires
            old(self).valid(),
        ensures
            final(self).valid(),
            velocity_applied(*old(self), *p, *final(self)),
    {
        let own = match self.player.entity_id {
            Some(id) => id == p.entity_id,
            None => false,
        };
        if own {
            self.player.apply_velocity(p.velocity);
        } else {
            self.entities.velocity(p);
        }
    }
}

/// A clientbound packet that changes the state and asks for no reply, decoded.
pub enum StatePacket {
    Presentation(PresentationPacket),
    Scoreboard(ScoreboardPacket),
    Hud(HudPacket),
    Login(PacketLogin),
    Respawn(PacketRespawn),
    UpdateHealth(PacketUpdateHealth),
    Experience(PacketExperience),
    SpawnEntity(PacketSpawnEntity),
    EntityDestroy(PacketEntityDestroy),
    RelEntityMove(PacketRelEntityMove),
    EntityMoveLook(PacketEntityMoveLook),
    EntityLook(PacketEntityLook),
    EntityTeleport(PacketEntityTeleport),
    SyncEntityPosition(PacketSyncEntityPosition),
    EntityVelocity(PacketEntityVelocity),
    EntityHeadRotation(PacketEntityHeadRotation),
    OpenWindow(PacketOpenWindow),
    CloseWindow(PacketCloseWindow),
    WindowItems(PacketWindowItems),
    SetSlot(PacketSetSlot),
    SetCursorItem(PacketSetCursorItem),
    CraftProgressBar(PacketCraftProgressBar),
    HeldItemSlot(PacketHeldItemSlot),
    SetPlayerInventory(PacketSetPlayerInventory),
    PlayerInfo(PacketPlayerInfo),
    PlayerRemove(PacketPlayerRemove),
    UpdateTime(PacketUpdateTime),
    GameStateChange(PacketGameStateChange),
}

/// A state in which only the entities differ.
pub open spec fn entities_only(before: PlayState, entities: Map<int, Entity>, after: PlayState) -> bool {
    after == (PlayState { entities: after.entities, ..before }) && after.entities@ == entities
}

/// The table with a tracked entity replaced by what a packet makes of it.
pub open spec fn entity_set(before: PlayState, id: i32, to: spec_fn(Entity) -> Entity) -> Map<
    int,
    Entity,
> {
    changed(before.entities@, id, to(before.entities@[id as int]))
}

/// What a state packet does. Only a login and a respawn can fail.
pub open spec fn state_applied(
    before: PlayState,
    configuration: ConfigurationData,
    packet: StatePacket,
    after: PlayState,
    res: Result<(), MineRiderError>,
) -> bool {
    match packet {
        StatePacket::Login(p) => login_applied(before, configuration, p, after, res),
        StatePacket::Respawn(p) => respawn_applied(before, configuration, p, after, res),
        other => res is Ok && match other {
            StatePacket::Presentation(p) => exists|update: PresentationUpdate| #[trigger]
                presentation_update_of(p, update) && presentation_applied(before, update, after),
            StatePacket::Scoreboard(p) => exists|update: ScoreboardUpdate| #[trigger]
                scoreboard_update_of(p, update) && scoreboard_applied(before, update, after),
            StatePacket::Hud(p) => exists|update: HudUpdate| #[trigger]
                hud::update_of(p, update) && hud_applied(before, update, after),
            StatePacket::UpdateHealth(p) => health_applied(before, p, after),
            StatePacket::Experience(p) => experience_applied(before, p, after),
            StatePacket::SpawnEntity(p) => {
                &&& after == (PlayState {
                    entities: after.entities,
                    outbox: after.outbox,
                    ..before
                })
                &&& after.entities@ == before.entities@.insert(
                    p.entity_id as int,
                    spawned(p),
                )
                &&& after.emitted(
                    seq![
                        BotEvent::EntitySpawned {
                            entity_id: p.entity_id,
                            uuid: p.object_uuid,
                            kind: p.kind,
                        },
                    ],
                    before,
                )
            },
            StatePacket::EntityDestroy(p) => {
                &&& after == (PlayState {
                    entities: after.entities,
                    outbox: after.outbox,
                    ..before
                })
                &&& after.entities@ == without(before.entities@, p.entity_ids@)
                &&& after.emitted(removal_reports(p.entity_ids@), before)
            },
            StatePacket::RelEntityMove(p) => entities_only(
                before,
                entity_set(
                    before,
                    p.entity_id,
                    |e: Entity| Entity { position: p.to, on_ground: p.on_ground, ..e },
                ),
                after,
            ),
            StatePacket::EntityMoveLook(p) => entities_only(
                before,
                entity_set(
                    before,
                    p.entity_id,
                    |e: Entity|
                        Entity {
                            position: p.to,
                            yaw: degrees(p.yaw) as u32,
                            pitch: degrees(p.pitch) as u32,
                            on_ground: p.on_ground,
                            ..e
                        },
                ),
                after,
            ),
            StatePacket::EntityLook(p) => entities_only(
                before,
                entity_set(
                    before,
                    p.entity_id,
                    |e: Entity|
                        Entity {
                            yaw: degrees(p.yaw) as u32,
                            pitch: degrees(p.pitch) as u32,
                            on_ground: p.on_ground,
                            ..e
                        },
                ),
                after,
            ),
            StatePacket::EntityTeleport(p) => entities_only(
                before,
                entity_set(
                    before,
                    p.entity_id,
                    |e: Entity|
                        Entity {
                            position: p.position,
                            yaw: degrees(p.yaw) as u32,
                            pitch: degrees(p.pitch) as u32,
                            on_ground: p.on_ground,
                            ..e
                        },
                ),
                after,
            ),
            StatePacket::SyncEntityPosition(p) => entities_only(
                before,
                entity_set(
                    before,
                    p.entity_id,
                    |e: Entity|
                        Entity {
                            position: p.position,
                            velocity: p.velocity,
                            yaw: p.yaw,
                            pitch: p.pitch,
                            on_ground: p.on_ground,
                            ..e
                        },
                ),
                after,
            ),
            StatePacket::EntityVelocity(p) => velocity_applied(before, p, after),
            StatePacket::EntityHeadRotation(p) => entities_only(
                before,
                entity_set(
                    before,
                    p.entity_id,
                    |e: Entity| Entity { head_yaw: degrees(p.head_yaw) as u32, ..e },
                ),
                after,
            ),
            StatePacket::OpenWindow(p) => exists|events: Seq<InventoryEvent>| #[trigger]
                window_opened(before.inventory@, p, after.inventory@, events)
                    && inventory_changed(before, events, after),
            StatePacket::CloseWindow(p) => exists|events: Seq<InventoryEvent>| #[trigger]
                window_closed(before.inventory@, p, after.inventory@, events)
                    && inventory_changed(before, events, after),
            StatePacket::WindowItems(p) => exists|events: Seq<InventoryEvent>| #[trigger]
                window_filled(before.inventory@, p, after.inventory@, events)
                    && inventory_changed(before, events, after),
            StatePacket::SetSlot(p) => exists|events: Seq<InventoryEvent>| #[trigger]
                slot_set(before.inventory@, p, after.inventory@, events) && inventory_changed(
                    before,
                    events,
                    after,
                ),
            StatePacket::SetCursorItem(p) => exists|event: InventoryEvent| #[trigger]
                cursor_set(before.inventory@, p, after.inventory@, event) && inventory_changed(
                    before,
                    seq![event],
                    after,
                ),
            StatePacket::CraftProgressBar(p) => exists|event: Option<InventoryEvent>| #[trigger]
                property_set(before.inventory@, p, after.inventory@, event) && inventory_changed(
                    before,
                    match event {
                        Some(e) => seq![e],
                        None => Seq::empty(),
                    },
                    after,
                ),
            StatePacket::HeldItemSlot(p) => held_item_applied(before, p, after),
            StatePacket::SetPlayerInventory(p) => own_inventory_applied(before, p, after),
            StatePacket::PlayerInfo(p) => player_info_applied(before, p, after),
            StatePacket::PlayerRemove(p) => player_remove_applied(before, p, after),
            StatePacket::UpdateTime(p) => time_applied(before, p, after),
            StatePacket::GameStateChange(p) => game_state_applied(before, p, after),
            _ => true,
        },
    }
}

impl PlayState {
    fn apply_inventory_packet(&mut self, packet: &StatePacket)
        requires
            old(self).valid(),
            packet is OpenWindow || packet is CloseWindow || packet is WindowItems || packet
                is SetSlot || packet is SetCursorItem || packet is CraftProgressBar,
        ensures
            final(self).valid(),
            forall|c: ConfigurationData|
                #[trigger] state_applied(*old(self), c, *packet, *final(self), Ok(())),
    {
        let events: Vec<InventoryEvent> = match packet {
            StatePacket::OpenWindow(p) => self.inventory.open_window(p),
            StatePacket::CloseWindow(p) => self.inventory.close_window(p),
            StatePacket::WindowItems(p) => self.inventory.window_items(p),
            StatePacket::SetSlot(p) => self.inventory.set_slot(p),
            StatePacket::SetCursorItem(p) => {
                let event = self.inventory.set_cursor_item(p);
                let mut events: Vec<InventoryEvent> = Vec::new();
                events.push(event);
                assert(events@ =~= seq![event]);
                assert(cursor_set(old(self).inventory@, *p, self.inventory@, event));
                events
            },
            StatePacket::CraftProgressBar(p) => {
                let event = self.inventory.craft_progress_bar(p);
                let mut events: Vec<InventoryEvent> = Vec::new();
                match event {
                    Some(e) => {
                        events.push(e);
                        assert(events@ =~= seq![e]);
                    },
                    None => {},
                }
                assert(property_set(old(self).inventory@, *p, self.inventory@, event));
                events
            },
            _ => Vec::new(),
        };
        let ghost kept = events@;
        let ghost inventory = self.inventory@;
        self.emit_inventory_events(events);
        proof {
            assert(inventory_changed(*old(self), kept, *self));
            match packet {
                StatePacket::OpenWindow(p) => {
                    assert(window_opened(old(self).inventory@, *p, inventory, kept));
                },
                StatePacket::CloseWindow(p) => {
                    assert(window_closed(old(self).inventory@, *p, inventory, kept));
                },
                StatePacket::WindowItems(p) => {
                    assert(window_filled(old(self).inventory@, *p, inventory, kept));
                },
                StatePacket::SetSlot(p) => {
                    assert(slot_set(old(self).inventory@, *p, inventory, kept));
                },
                _ => {},
            }
        }
    }

    fn apply_entity_packet(&mut self, packet: &StatePacket)
        requires
            old(self).valid(),
            packet is SpawnEntity || packet is EntityDestroy || packet is RelEntityMove || packet
                is EntityMoveLook || packet is EntityLook || packet is EntityTeleport || packet
                is SyncEntityPosition || packet is EntityVelocity || packet is EntityHeadRotation,
        ensures
            final(self).valid(),
            forall|c: ConfigurationData|
                #[trigger] state_applied(*old(self), c, *packet, *final(self), Ok(())),
    {
        match packet {
            StatePacket::SpawnEntity(p) => {
                self.entities.spawn(p);
                self.emit(
                    BotEvent::EntitySpawned {
                        entity_id: p.entity_id,
                        uuid: p.object_uuid,
                        kind: p.kind,
                    },
                );
                assert(self.outbox@ =~= old(self).outbox@ + seq![
                    BotEvent::EntitySpawned {
                        entity_id: p.entity_id,
                        uuid: p.object_uuid,
                        kind: p.kind,
                    },
                ]);
            },
            StatePacket::EntityDestroy(p) => self.apply_entity_destroy(p),
            StatePacket::RelEntityMove(p) => self.entities.rel_move(p),
            StatePacket::EntityMoveLook(p) => self.entities.move_look(p),
            StatePacket::EntityLook(p) => self.entities.look(p),
            StatePacket::EntityTeleport(p) => self.entities.teleport(p),
            StatePacket::SyncEntityPosition(p) => self.entities.sync_position(p),
            StatePacket::EntityVelocity(p) => self.apply_velocity(p),
            StatePacket::EntityHeadRotation(p) => self.entities.head_rotation(p),
            _ => {},
        }
    }

    /// Folds a state-only clientbound packet into the state. These packets
    /// carry no wire response obligation.
    pub fn apply_state_packet(&mut self, configuration: &ConfigurationData, packet: StatePacket) -> (res:
        Result<(), MineRiderError>)
        requires
            old(self).valid(),
            configuration.bounded(),
        ensures
            final(self).valid(),
            state_applied(*old(self), *configuration, packet, *final(self), res),
    {
        match packet {
            StatePacket::Presentation(p) => {
                let ghost wire = p;
                let update = presentation::decode_update(p);
                proof {
                    assert(presentation_update_of(wire, update));
                }
                self.apply_presentation(update);
            },
            StatePacket::Scoreboard(p) => {
                let ghost wire = p;
                let update = scoreboard::decode_update(p);
                proof {
                    assert(scoreboard_update_of(wire, update));
                }
                self.apply_scoreboard(update);
            },
            StatePacket::Hud(p) => {
                let ghost wire = p;
                let update = hud::decode_update(p);
                proof {
                    assert(hud::update_of(wire, update));
                }
                self.apply_hud(update);
            },
            StatePacket::Login(p) => return self.apply_login(configuration, &p),
            StatePacket::Respawn(p) => return self.apply_respawn(configuration, &p),
            StatePacket::UpdateHealth(p) => self.apply_health(&p),
            StatePacket::Experience(p) => self.apply_experience(&p),
            StatePacket::HeldItemSlot(p) => self.apply_held_item(&p),
            StatePacket::SetPlayerInventory(p) => self.apply_own_inventory(&p),
            StatePacket::PlayerInfo(p) => self.apply_player_info(&p),
            StatePacket::PlayerRemove(p) => self.apply_player_remove(&p),
            StatePacket::UpdateTime(p) => self.apply_time(&p),
            StatePacket::GameStateChange(p) => self.apply_game_state(&p),
            other => match other {
                StatePacket::SpawnEntity(_)
                | StatePacket::EntityDestroy(_)
                | StatePacket::RelEntityMove(_)
                | StatePacket::EntityMoveLook(_)
                | StatePacket::EntityLook(_)
                | StatePacket::EntityTeleport(_)
                | StatePacket::SyncEntityPosition(_)
                | StatePacket::EntityVelocity(_)
                | StatePacket::EntityHeadRotation(_) => self.apply_entity_packet(&other),
                _ => self.apply_inventory_packet(&other),
            },
        }
        Ok(())
    }
}

/// A clientbound packet of the play state, decoded.
pub enum PlayClientbound {
    KeepAlive { id: i64 },
    Ping { id: i32 },
    /// The sums are those of what is known and what the packet says.
    Position { packet: PacketPosition, sums: PositionSums },
    ChunkBatchStart,
    ChunkBatchFinished { batch_size: i32 },
    MapChunk(PacketMapChunk),
    UnloadChunk(PacketUnloadChunk),
    BlockChange(PacketBlockChange),
    MultiBlockChange(PacketMultiBlockChange),
    AddResourcePack(PacketCommonAddResourcePack),
    RemoveResourcePack,
    KickDisconnect { reason: Nbt },
    State(StatePacket),
    Other { packet: PlayPacket, id: i32 },
}

/// How a packet that nothing handles is noted.
#[derive(Debug, Clone, Copy, PartialEq, Eq, Structural)]
pub enum Notice {
    /// For the curious only.
    Debug,
    /// A warning, this time; further packets of this id are for the curious.
    WarnOnce,
    /// A warning, every time: the server may expect a response.
    Unsupported,
}

/// What the client does about a packet.
#[derive(Debug, Clone, Copy, PartialEq)]
pub enum PlayReply {
    KeepAlive { id: i64 },
    Pong { id: i32 },
    TeleportConfirm { teleport_id: i32 },
    PositionLook(PacketPositionLook),
    /// Start timing the batch.
    StartBatch,
    /// Stop timing the batch of this many chunks, and say how many per tick
    /// are wanted.
    FinishBatch { batch_size: u32 },
    ResourcePack(PacketResourcePackReceive),
    Note { id: i32, notice: Notice },
}

/// How a packet that nothing handles is noted, given whether its id was warned
/// of before.
pub open spec fn notice_of(packet: PlayPacket, warned: bool) -> Notice {
    match play_entry(packet).class {
        CoverageClass::Handled => Notice::Debug,
        CoverageClass::Unsupported => Notice::Unsupported,
        _ => if warned {
            Notice::Debug
        } else {
            Notice::WarnOnce
        },
    }
}

/// The ids warned of after a packet was noted.
pub open spec fn warned_after(packet: PlayPacket, id: i32, warned: Map<int, ()>) -> Map<int, ()> {
    if notice_of(packet, warned.contains_key(id as int)) == Notice::WarnOnce {
        warned.insert(id as int, ())
    } else {
        warned
    }
}

/// Decides how a packet that nothing handles is noted, per its coverage class:
/// what is ignored or stored for later is warned of once, what is not supported
/// every time.
pub fn log_unhandled(packet: PlayPacket, id: i32, warned_ids: &mut SortedMap<i32, ()>) -> (notice:
    Notice)
    ensures
        notice == notice_of(packet, old(warned_ids)@.contains_key(id as int)),
        final(warned_ids)@ == warned_after(packet, id, old(warned_ids)@),
{
    let entry = play_coverage(packet);
    match entry.class {
        CoverageClass::Handled => Notice::Debug,
        CoverageClass::Unsupported => Notice::Unsupported,
        CoverageClass::IntentionallyIgnored | CoverageClass::StoredForLater => {
            if warned_ids.contains(&id) {
                Notice::Debug
            } else {
                let _ = warned_ids.insert(id, ());
                Notice::WarnOnce
            }
        },
    }
}

/// A state in which only the blocks differ.
pub open spec fn world_only(before: PlayState, world: Option<WorldModel>, after: PlayState) -> bool {
    after == (PlayState { world: after.world, ..before }) && world_view(after.world) == world
}

/// The error where a chunk comes before the dimension it belongs to.
pub const EARLY_CHUNK: &'static str = "map_chunk arrived before play login dimension";

/// What a chunk packet does.
pub open spec fn chunk_applied(
    before: PlayState,
    p: PacketMapChunk,
    after: PlayState,
    res: Result<(), MineRiderError>,
) -> bool {
    match world_view(before.world) {
        None => after == before && (res matches Err(e) && e.is_protocol(EARLY_CHUNK@)),
        Some(w) => match chunk_of(p, (w.dimension.height / 16) as nat) {
            Ok(chunk) => res is Ok && world_only(
                before,
                Some(
                    WorldModel {
                        chunks: w.chunks.insert((p.x as int, p.z as int), chunk),
                        ..w
                    },
                ),
                after,
            ),
            Err(text) => (res matches Err(e) && e.is_protocol(text)) && world_only(
                before,
                Some(w),
                after,
            ),
        },
    }
}

/// What a change of one block does; before a dimension is entered, nothing.
pub open spec fn block_applied(
    before: PlayState,
    p: PacketBlockChange,
    after: PlayState,
    res: Result<(), MineRiderError>,
) -> bool {
    match world_view(before.world) {
        None => after == before && res is Ok,
        Some(w) => match w.set_block(
            p.location.x as int,
            p.location.y as int,
            p.location.z as int,
            p.kind as u32,
        ) {
            Ok(next) => res is Ok && world_only(before, Some(next), after),
            Err(text) => (res matches Err(e) && e.is_protocol(text)) && world_only(
                before,
                Some(w),
                after,
            ),
        },
    }
}

/// What a change of several blocks does; before a dimension is entered,
/// nothing.
pub open spec fn blocks_applied(
    before: PlayState,
    p: PacketMultiBlockChange,
    after: PlayState,
    res: Result<(), MineRiderError>,
) -> bool {
    match world_view(before.world) {
        None => after == before && res is Ok,
        Some(w) => {
            let (next, wrong) = w.set_blocks(p.chunk_coordinates, p.records@, 0);
            &&& world_only(before, Some(next), after)
            &&& match wrong {
                None => res is Ok,
                Some(text) => res matches Err(e) && e.is_protocol(text),
            }
        },
    }
}

impl PlayState {
    /// Loads a column.
    pub fn apply_chunk(&mut self, p: &PacketMapChunk) -> (res: Result<(), MineRiderError>)
        requires
            old(self).valid(),
        ensures
            final(self).valid(),
            chunk_applied(*old(self), *p, *final(self), res),
    {
        match self.world.take() {
            None => Err(protocol_error(EARLY_CHUNK)),
            Some(mut world) => {
                let res = world.insert_chunk(p);
                self.world = Some(world);
                res
            },
        }
    }

    /// Drops a column.
    pub fn apply_unload(&mut self, p: &PacketUnloadChunk)
        requires
            old(self).valid(),
        ensures
            final(self).valid(),
            world_only(
                *old(self),
                match world_view(old(self).world) {
                    None => None,
                    Some(w) => Some(
                        WorldModel {
                            chunks: w.chunks.remove((p.chunk_x as int, p.chunk_z as int)),
                            ..w
                        },
                    ),
                },
                *final(self),
            ),
    {
        match self.world.take() {
            None => {},
            Some(mut world) => {
                world.unload_chunk(p);
                self.world = Some(world);
            },
        }
    }

    /// Changes one block.
    pub fn apply_block(&mut self, p: &PacketBlockChange) -> (res: Result<(), MineRiderError>)
        requires
            old(self).valid(),
        ensures
            final(self).valid(),
            block_applied(*old(self), *p, *final(self), res),
    {
        match self.world.take() {
            None => Ok(()),
            Some(mut world) => {
                let res = world.apply_block_change(p);
                proof {
                    let w = world_view(old(self).world)->0;
                    if res is Ok {
                        assert(world@.dimension == w.dimension);
                    }
                }
                self.world = Some(world);
                res
            },
        }
    }

    /// Changes several blocks of a section.
    pub fn apply_blocks(&mut self, p: &PacketMultiBlockChange) -> (res: Result<(), MineRiderError>)
        requires
            old(self).valid(),
            in_reach(p.chunk_coordinates),
        ensures
            final(self).valid(),
            blocks_applied(*old(self), *p, *final(self), res),
    {
        match self.world.take() {
            None => Ok(()),
            Some(mut world) => {
                let ghost w = world@;
                let res = world.apply_multi_block_change(p);
                proof {
                    lemma_same_dimension(w, p.chunk_coordinates, p.records@, 0);
                }
                self.world = Some(world);
                res
            },
        }
    }
}

/// Changes of blocks leave the dimension as it is.
proof fn lemma_same_dimension(
    w: WorldModel,
    at: SectionPosition,
    records: Seq<i32>,
    i: int,
)
    ensures
        w.set_blocks(at, records, i).0.dimension == w.dimension,
    decreases records.len() - i,
{
    if 0 <= i < records.len() && records[i] >= 0 {
        let r = records[i] as int;
        match w.set_block(
            at.x * 16 + r / 256 % 16,
            at.y * 16 + r % 16,
            at.z * 16 + r / 16 % 16,
            (r / 4096) as u32,
        ) {
            Ok(next) => lemma_same_dimension(next, at, records, i + 1),
            Err(_) => {},
        }
    }
}

/// What a position packet does: the position is taken over and counts as
/// reported.
pub open spec fn position_applied(
    before: PlayState,
    packet: PacketPosition,
    sums: PositionSums,
    after: PlayState,
) -> bool {
    let moved = LocalPlayer {
        position: placed(packet, sums),
        velocity: chosen(packet.flags, 5, sums.velocity, packet.velocity),
        ..before.player
    };
    after == (PlayState { player: moved.settled(), received_position: true, ..before })
}

/// The replies to a packet that asks for some, or the note of one that nothing
/// handles.
pub open spec fn replies_to(packet: PlayClientbound, warned: Map<int, ()>) -> Seq<PlayReply> {
    match packet {
        PlayClientbound::KeepAlive { id } => seq![PlayReply::KeepAlive { id }],
        PlayClientbound::Ping { id } => seq![PlayReply::Pong { id }],
        PlayClientbound::Position { packet, sums } => seq![
            PlayReply::TeleportConfirm { teleport_id: packet.teleport_id },
            PlayReply::PositionLook(
                PacketPositionLook {
                    at: placed(packet, sums).at,
                    yaw: placed(packet, sums).yaw,
                    pitch: placed(packet, sums).pitch,
                    flags: 0,
                },
            ),
        ],
        PlayClientbound::ChunkBatchStart => seq![PlayReply::StartBatch],
        PlayClientbound::ChunkBatchFinished { batch_size } => seq![
            PlayReply::FinishBatch {
                batch_size: if batch_size < 0 {
                    0
                } else {
                    batch_size as u32
                },
            },
        ],
        PlayClientbound::AddResourcePack(pack) => seq![
            PlayReply::ResourcePack(
                PacketResourcePackReceive {
                    uuid: pack.uuid,
                    result: RESOURCE_PACK_STATUS_DECLINED,
                },
            ),
        ],
        PlayClientbound::Other { packet, id } => seq![
            PlayReply::Note { id, notice: notice_of(packet, warned.contains_key(id as int)) },
        ],
        _ => Seq::empty(),
    }
}

/// The outcome without the replies.
pub open spec fn bare(res: Result<Vec<PlayReply>, MineRiderError>) -> Result<(), MineRiderError> {
    match res {
        Ok(_) => Ok(()),
        Err(e) => Err(e),
    }
}

/// What a packet of the play state does to the state.
pub open spec fn packet_applied(
    before: PlayState,
    configuration: ConfigurationData,
    packet: PlayClientbound,
    after: PlayState,
    res: Result<(), MineRiderError>,
) -> bool {
    match packet {
        PlayClientbound::Position { packet, sums } => res is Ok && position_applied(
            before,
            packet,
            sums,
            after,
        ),
        PlayClientbound::MapChunk(p) => chunk_applied(before, p, after, res),
        PlayClientbound::UnloadChunk(p) => res is Ok && world_only(
            before,
            match world_view(before.world) {
                None => None,
                Some(w) => Some(
                    WorldModel {
                        chunks: w.chunks.remove((p.chunk_x as int, p.chunk_z as int)),
                        ..w
                    },
                ),
            },
            after,
        ),
        PlayClientbound::BlockChange(p) => block_applied(before, p, after, res),
        PlayClientbound::MultiBlockChange(p) => blocks_applied(before, p, after, res),
        PlayClientbound::KickDisconnect { reason } => {
            &&& res matches Err(e) && e.is_disconnected(reason_text(reason))
            &&& exists|update: PresentationUpdate| #[trigger]
                presentation_update_of(PresentationPacket::KickDisconnect { reason }, update)
                    && presentation_applied(before, update, after)
        },
        PlayClientbound::State(p) => state_applied(before, configuration, p, after, res),
        _ => res is Ok && after == before,
    }
}

impl PlayState {
    /// Takes in where the server puts the player, and gives the two replies: the
    /// confirmation, and the full position that vanilla sends right after it.
    pub fn apply_position(&mut self, packet: &PacketPosition, sums: &PositionSums) -> (replies: Vec<
        PlayReply,
    >)
        requires
            old(self).valid(),
        ensures
            final(self).valid(),
            position_applied(*old(self), *packet, *sums, *final(self)),
            forall|warned: Map<int, ()>|
                replies@ == #[trigger] replies_to(
                    PlayClientbound::Position { packet: *packet, sums: *sums },
                    warned,
                ),
    {
        self.player.on_position(packet, sums);
        self.received_position = true;
        let movement = self.player.teleport_ack_movement();
        let mut replies: Vec<PlayReply> = Vec::new();
        replies.push(PlayReply::TeleportConfirm { teleport_id: packet.teleport_id });
        replies.push(PlayReply::PositionLook(movement));
        proof {
            let p = PlayClientbound::Position { packet: *packet, sums: *sums };
            assert forall|warned: Map<int, ()>| replies@ == #[trigger] replies_to(p, warned) by {
                assert(replies@ =~= replies_to(p, warned));
            }
        }
        replies
    }

    fn kick(&mut self, reason: &Nbt) -> (e: MineRiderError)
        requires
            old(self).valid(),
        ensures
            final(self).valid(),
            e.is_disconnected(reason_text(*reason)),
            exists|update: PresentationUpdate| #[trigger]
                presentation_update_of(
                    PresentationPacket::KickDisconnect { reason: *reason },
                    update,
                ) && presentation_applied(*old(self), update, *final(self)),
    {
        let update = presentation::decode_update(
            PresentationPacket::KickDisconnect { reason: reason.clone() },
        );
        proof {
            assert(presentation_update_of(
                PresentationPacket::KickDisconnect { reason: *reason },
                update,
            ));
        }
        let ghost shown = update;
        self.apply_presentation(update);
        let text = match &self.presentation.disconnect_reason {
            Some(reason) => reason.plain_text(),
            None => String::new(),
        };
        proof {
            assert(shown is Disconnect);
            assert(self.presentation@.disconnect_reason == Some(shown->Disconnect_0));
        }
        MineRiderError::Disconnected(text)
    }

    /// Handles one clientbound play packet: gives the replies that it requires
    /// and updates the state.
    pub fn handle_clientbound(
        &mut self,
        configuration: &ConfigurationData,
        packet: PlayClientbound,
        warned_ids: &mut SortedMap<i32, ()>,
    ) -> (res: Result<Vec<PlayReply>, MineRiderError>)
        requires
            old(self).valid(),
            configuration.bounded(),
            packet matches PlayClientbound::MultiBlockChange(p) ==> in_reach(p.chunk_coordinates),
        ensures
            final(self).valid(),
            packet_applied(*old(self), *configuration, packet, *final(self), bare(res)),
            res matches Ok(replies) ==> replies@ == replies_to(packet, old(warned_ids)@),
            final(warned_ids)@ == (match packet {
                PlayClientbound::Other { packet, id } => warned_after(packet, id, old(warned_ids)@),
                _ => old(warned_ids)@,
            }),
    {
        let ghost wire = packet;
        let mut replies: Vec<PlayReply> = Vec::new();
        match packet {
            PlayClientbound::KeepAlive { id } => replies.push(PlayReply::KeepAlive { id }),
            PlayClientbound::Ping { id } => replies.push(PlayReply::Pong { id }),
            PlayClientbound::Position { packet, sums } => return Ok(
                self.apply_position(&packet, &sums),
            ),
            PlayClientbound::ChunkBatchStart => replies.push(PlayReply::StartBatch),
            PlayClientbound::ChunkBatchFinished { batch_size } => {
                let batch_size: u32 = if batch_size < 0 {
                    0
                } else {
                    batch_size as u32
                };
                replies.push(PlayReply::FinishBatch { batch_size });
            },
            PlayClientbound::MapChunk(p) => match self.apply_chunk(&p) {
                Ok(_) => {},
                Err(e) => return Err(e),
            },
            PlayClientbound::UnloadChunk(p) => self.apply_unload(&p),
            PlayClientbound::BlockChange(p) => match self.apply_block(&p) {
                Ok(_) => {},
                Err(e) => return Err(e),
            },
            PlayClientbound::MultiBlockChange(p) => match self.apply_blocks(&p) {
                Ok(_) => {},
                Err(e) => return Err(e),
            },
            PlayClientbound::AddResourcePack(pack) => replies.push(
                PlayReply::ResourcePack(
                    PacketResourcePackReceive {
                        uuid: pack.uuid,
                        result: RESOURCE_PACK_STATUS_DECLINED,
                    },
                ),
            ),
            PlayClientbound::RemoveResourcePack => {},
            PlayClientbound::KickDisconnect { reason } => return Err(self.kick(&reason)),
            PlayClientbound::State(p) => match self.apply_state_packet(configuration, p) {
                Ok(_) => {},
                Err(e) => return Err(e),
            },
            PlayClientbound::Other { packet, id } => {
                let notice = log_unhandled(packet, id, warned_ids);
                replies.push(PlayReply::Note { id, notice });
            },
        }
        assert(replies@ =~= replies_to(wire, old(warned_ids)@));
        Ok(replies)
    }
}

/// Movement key: forward.
pub const INPUT_FORWARD: u8 = 0x01;

/// Movement key: backward.
pub const INPUT_BACKWARD: u8 = 0x02;

/// Movement key: left.
pub const INPUT_LEFT: u8 = 0x04;

/// Movement key: right.
pub const INPUT_RIGHT: u8 = 0x08;

/// Movement key: jump.
pub const INPUT_JUMP: u8 = 0x10;

/// Movement key: sneak.
pub const INPUT_SHIFT: u8 = 0x20;

/// Movement key: sprint.
pub const INPUT_SPRINT: u8 = 0x40;

/// A key's part of the bit set.
pub open spec fn key(held: bool, mask: u8) -> int {
    if held {
        mask as int
    } else {
        0
    }
}

/// The bit set of the movement keys: one bit for each of the seven.
pub open spec fn input_flags(input: MovementInput) -> int {
    key(is_positive(input.forward), INPUT_FORWARD) + key(
        is_negative(input.forward),
        INPUT_BACKWARD,
    ) + key(is_positive(input.strafe), INPUT_LEFT) + key(is_negative(input.strafe), INPUT_RIGHT)
        + key(input.jump, INPUT_JUMP) + key(input.sneak, INPUT_SHIFT) + key(
        input.sprint,
        INPUT_SPRINT,
    )
}

fn key_bit(held: bool, mask: u8) -> (v: u8)
    ensures
        v == key(held, mask),
{
    if held {
        mask
    } else {
        0
    }
}

/// The bit set for the player's current movement keys. Forward and left are
/// the positive impulse directions.
pub fn player_input_flags(input: &MovementInput) -> (flags: u8)
    ensures
        flags == input_flags(*input),
{
    key_bit(positive(input.forward), INPUT_FORWARD) + key_bit(
        negative(input.forward),
        INPUT_BACKWARD,
    ) + key_bit(positive(input.strafe), INPUT_LEFT) + key_bit(negative(input.strafe), INPUT_RIGHT)
        + key_bit(input.jump, INPUT_JUMP) + key_bit(input.sneak, INPUT_SHIFT) + key_bit(
        input.sprint,
        INPUT_SPRINT,
    )
}

/// How a tick starts.
#[derive(Debug, Clone, Copy, PartialEq, Eq, Structural)]
pub enum TickStart {
    /// The player is dead; a respawn is asked for, unless it was already. The
    /// tick ends here.
    Dead { request_respawn: bool },
    /// The world around the player is there; `player_loaded` is sent. The tick
    /// ends here.
    Loaded,
    /// The player moves.
    Moving,
}

/// Reports of transactions that took too long at a tick.
pub open spec fn expiry_reports(before: PlayState, tick: u64) -> Seq<BotEvent> {
    inventory_reports(
        before.inventory@.finish_reports(Due::Expired { tick }, InventoryOutcome::TimedOut),
    )
}

/// Whether the world around the player is there for the first time.
pub open spec fn just_loaded(state: PlayState) -> bool {
    &&& !state.player.loaded
    &&& state.received_position
    &&& world_view(state.world) matches Some(w) && w.chunks.contains_key(
        (
            floor_of(state.player.position.at.x) as int / 16,
            floor_of(state.player.position.at.z) as int / 16,
        ),
    )
}

/// How a tick starts.
pub open spec fn tick_start(state: PlayState) -> TickStart {
    if !state.player.alive() {
        TickStart::Dead { request_respawn: !state.respawn_pending }
    } else if just_loaded(state) {
        TickStart::Loaded
    } else {
        TickStart::Moving
    }
}

/// What the start of a tick does: transactions expire first.
pub open spec fn tick_started(before: PlayState, after: PlayState) -> bool {
    let tick = before.tick.wrapping_add(1);
    let start = tick_start(before);
    &&& after == (PlayState {
        tick,
        inventory: after.inventory,
        outbox: after.outbox,
        respawn_pending: before.respawn_pending || start is Dead,
        player: if start == TickStart::Loaded {
            LocalPlayer { loaded: true, ..before.player.settled() }
        } else {
            before.player
        },
        ..before
    })
    &&& after.inventory@ == before.inventory@.finish(
        Due::Expired { tick },
        InventoryOutcome::TimedOut,
    )
    &&& after.emitted(
        if start == TickStart::Loaded {
            expiry_reports(before, tick).push(BotEvent::Spawned)
        } else {
            expiry_reports(before, tick)
        },
        before,
    )
}

/// What a tick sends once the player has moved.
#[derive(Debug, Clone, Copy, PartialEq)]
pub enum TickSend {
    PlayerInput { flags: u8 },
    Movement(MovementPacket),
    TickEnd,
}

/// The keys, where they changed since they were last sent.
pub open spec fn input_sends(state: PlayState) -> Seq<TickSend> {
    let flags = input_flags(state.player.input);
    if state.player.loaded && flags != state.last_player_input {
        seq![TickSend::PlayerInput { flags: flags as u8 }]
    } else {
        Seq::empty()
    }
}

/// The movement report, where one is due.
pub open spec fn movement_sends(state: PlayState, moved: bool) -> Seq<TickSend> {
    if state.player.loaded {
        match state.player.report_packet(state.player.position_due(moved)) {
            Some(packet) => seq![TickSend::Movement(packet)],
            None => Seq::empty(),
        }
    } else {
        Seq::empty()
    }
}

/// All that a tick sends: the keys, the movement, and the end of the tick. A
/// player whose world is not there yet sends nothing.
pub open spec fn tick_sends(state: PlayState, moved: bool) -> Seq<TickSend> {
    input_sends(state) + movement_sends(state, moved) + if state.player.loaded {
        seq![TickSend::TickEnd]
    } else {
        Seq::empty()
    }
}

impl PlayState {
    /// Starts a tick.
    pub fn begin_tick(&mut self) -> (start: TickStart)
        requires
            old(self).valid(),
        ensures
            final(self).valid(),
            start == tick_start(*old(self)),
            tick_started(*old(self), *final(self)),
    {
        self.tick = self.tick.wrapping_add(1);
        let expired = self.inventory.expire_transactions(self.tick);
        self.emit_inventory_events(expired);
        if !self.player.is_alive() {
            let request_respawn = !self.respawn_pending;
            self.respawn_pending = true;
            return TickStart::Dead { request_respawn };
        }
        let block_x: i32 = floor_double(self.player.position.at.x);
        let block_z: i32 = floor_double(self.player.position.at.z);
        let there = match &self.world {
            Some(world) => world.has_chunk(floor_div_16(block_x), floor_div_16(block_z)),
            None => false,
        };
        if !self.player.loaded && self.received_position && there {
            self.player.mark_loaded();
            self.emit(BotEvent::Spawned);
            assert(self.outbox@ =~= old(self).outbox@ + expiry_reports(*old(self), self.tick).push(
                BotEvent::Spawned,
            ));
            return TickStart::Loaded;
        }
        TickStart::Moving
    }

    /// Resolves the active goal and the keys into this tick's input and facing,
    /// where there is a world to move in. True where a random orientation is
    /// due.
    pub fn drive(&mut self, arrived: bool, yaw: u32) -> (due: bool)
        requires
            old(self).valid(),
        ensures
            final(self).valid(),
            old(self).world is None ==> !due && *final(self) == *old(self),
            old(self).world is Some ==> {
                &&& *final(self) == (PlayState {
                    player: LocalPlayer {
                        input: old(self).controller.keys().input(arrived),
                        position: PlayerPosition {
                            yaw: if old(self).controller.goal is Some && !arrived {
                                yaw
                            } else {
                                old(self).player.position.yaw
                            },
                            ..old(self).player.position
                        },
                        ..old(self).player
                    },
                    controller: final(self).controller,
                    ..*old(self)
                })
                &&& final(self).controller.keys() == (KeysModel {
                    goal: if arrived {
                        None
                    } else {
                        old(self).controller.goal
                    },
                    ..old(self).controller.keys()
                })
                &&& final(self).controller.random_look == look_counted(
                    old(self).controller.random_look,
                )
                &&& due == (old(self).controller.random_look matches Some(look)
                    && look.ticks_until_next == 0)
            },
    {
        if self.world.is_some() {
            self.controller.drive(&mut self.player, arrived, yaw)
        } else {
            false
        }
    }

    /// Ends a tick: what is sent, given whether the player is further than two
    /// ten-thousandths of a block from where it last reported to be.
    pub fn end_tick(&mut self, moved: bool) -> (sends: Vec<TickSend>)
        requires
            old(self).valid(),
        ensures
            final(self).valid(),
            sends@ == tick_sends(*old(self), moved),
            *final(self) == (PlayState {
                player: if old(self).player.loaded {
                    old(self).player.reported(moved)
                } else {
                    old(self).player
                },
                last_player_input: if old(self).player.loaded {
                    input_flags(old(self).player.input) as u8
                } else {
                    old(self).last_player_input
                },
                ..*old(self)
            }),
    {
        let mut sends: Vec<TickSend> = Vec::new();
        if !self.player.loaded {
            assert(sends@ =~= tick_sends(*old(self), moved));
            return sends;
        }
        let flags: u8 = player_input_flags(&self.player.input);
        if flags != self.last_player_input {
            self.last_player_input = flags;
            sends.push(TickSend::PlayerInput { flags });
        }
        assert(sends@ =~= input_sends(*old(self)));
        match self.player.movement_packet(moved) {
            Some(packet) => sends.push(TickSend::Movement(packet)),
            None => {},
        }
        sends.push(TickSend::TickEnd);
        assert(sends@ =~= tick_sends(*old(self), moved));
        sends
    }

    /// Applies one bot command. `Look` acts directly on the player's facing;
    /// everything else updates the controller.
    pub fn apply_command(&mut self, command: BotCommand)
        requires
            old(self).valid(),
        ensures
            final(self).valid(),
            match command {
                BotCommand::Look { yaw, pitch } => *final(self) == (PlayState {
                    player: LocalPlayer {
                        position: PlayerPosition { yaw, pitch, ..old(self).player.position },
                        ..old(self).player
                    },
                    ..*old(self)
                }),
                other => {
                    &&& *final(self) == (PlayState {
                        controller: final(self).controller,
                        ..*old(self)
                    })
                    &&& final(self).controller.keys() == old(self).controller.keys().after(other)
                    &&& look_after(
                        old(self).controller.random_look,
                        other,
                        final(self).controller.random_look,
                    )
                },
            },
    {
        match command {
            BotCommand::Look { yaw, pitch } => {
                self.controller.apply_look(&mut self.player, yaw, pitch);
            },
            other => self.controller.apply(other),
        }
    }
}

/// An ordinary chat message, unsigned and acknowledging nothing.
#[derive(Debug)]
pub struct PacketChatMessage {
    pub message: String,
    pub timestamp: i64,
    pub salt: i64,
    pub signature: Option<Vec<u8>>,
    pub offset: i32,
    pub acknowledged: Vec<u8>,
}

/// A command, without its slash.
#[derive(Debug)]
pub struct PacketChatCommand {
    pub command: String,
}

/// The packet of an outbound chat action.
#[derive(Debug)]
pub enum OutboundChat {
    Message(PacketChatMessage),
    Command(PacketChatCommand),
}

/// The error where something else is encoded as chat.
pub const NOT_CHAT: &'static str = "attempted to encode a non-chat control action as chat";

/// Why an action is not encoded as chat.
#[derive(Debug, Clone, Copy)]
pub enum OutboundFault {
    /// The action is refused before it is sent.
    Refused(ActionValidationError),
    /// The action is no chat.
    NotChat,
}

impl OutboundFault {
    /// The fault as an error. A coordinate that is out of range is written as the
    /// float layer gives it.
    pub fn error(self, coordinate: &str) -> (e: MineRiderError)
        ensures
            e.is_protocol(
                match self {
                    OutboundFault::Refused(fault) => fault.text(coordinate@),
                    OutboundFault::NotChat => NOT_CHAT@,
                },
            ),
    {
        match self {
            OutboundFault::Refused(fault) => MineRiderError::Protocol(fault.message(coordinate)),
            OutboundFault::NotChat => protocol_error(NOT_CHAT),
        }
    }
}

/// What encoding a chat action comes to. The content never changes the kind of
/// packet.
pub open spec fn chat_encoded(
    action: BotCommand,
    timestamp: i64,
    salt: i64,
    res: Result<OutboundChat, OutboundFault>,
) -> bool {
    match action.fault() {
        Some(fault) => res matches Err(e) && e == OutboundFault::Refused(fault),
        None => match action {
            BotCommand::Chat(message) => res matches Ok(OutboundChat::Message(p)) && p.message@
                == message@ && p.timestamp == timestamp && p.salt == salt && p.signature is None
                && p.offset == 0 && p.acknowledged@ == seq![0u8, 0u8, 0u8],
            BotCommand::Command(command) => res matches Ok(OutboundChat::Command(p)) && p.command@
                == command@,
            _ => res matches Err(e) && e == OutboundFault::NotChat,
        },
    }
}

/// Encodes exactly the packet selected by the typed action; there is no
/// leading-slash inference.
pub fn encode_outbound_chat_action(action: &BotCommand, timestamp: i64, salt: i64) -> (res: Result<
    OutboundChat,
    OutboundFault,
>)
    ensures
        chat_encoded(*action, timestamp, salt, res),
{
    match action.validate() {
        Ok(_) => {},
        Err(fault) => return Err(OutboundFault::Refused(fault)),
    }
    match action {
        BotCommand::Chat(message) => {
            let mut acknowledged: Vec<u8> = Vec::new();
            acknowledged.push(0);
            acknowledged.push(0);
            acknowledged.push(0);
            assert(acknowledged@ =~= seq![0u8, 0u8, 0u8]);
            Ok(
                OutboundChat::Message(
                    PacketChatMessage {
                        message: message.clone(),
                        timestamp,
                        salt,
                        signature: None,
                        offset: 0,
                        acknowledged,
                    },
                ),
            )
        },
        BotCommand::Command(command) => Ok(
            OutboundChat::Command(PacketChatCommand { command: command.clone() }),
        ),
        _ => Err(OutboundFault::NotChat),
    }
}

/// Use of the held item; the rotation is single-precision bits.
#[derive(Debug, Clone, Copy)]
pub struct PacketUseItem {
    pub hand: i32,
    pub sequence: i32,
    pub yaw: u32,
    pub pitch: u32,
}

impl PartialEq for PacketUseItem {
    fn eq(&self, other: &Self) -> (r: bool) {
        self.hand == other.hand
            && self.sequence == other.sequence
            && same_single(self.yaw, other.yaw)
            && same_single(self.pitch, other.pitch)
    }
}

impl PartialEqSpecImpl for PacketUseItem {
    open spec fn obeys_eq_spec() -> bool {
        true
    }

    open spec fn eq_spec(&self, other: &Self) -> bool {
        &&& self.hand == other.hand
        &&& self.sequence == other.sequence
        &&& singles_equal(self.yaw, other.yaw)
        &&& singles_equal(self.pitch, other.pitch)
    }
}

/// The swing of an arm.
#[derive(Debug, Clone, Copy, PartialEq, Eq, Structural)]
pub struct PacketArmAnimation {
    pub hand: i32,
}

/// A hand's number on the wire.
pub open spec fn hand_number(hand: Hand) -> i32 {
    match hand {
        Hand::Main => 0,
        Hand::Off => 1,
    }
}

/// The packet that swings an arm, independent of any use of an item.
pub fn swing(hand: Hand) -> (p: PacketArmAnimation)
    ensures
        p == (PacketArmAnimation { hand: hand_number(hand) }),
{
    PacketArmAnimation { hand: hand.wire_value() }
}

impl PlayState {
    /// The packet that uses the held item: the next number of this session, and
    /// where the player looks.
    pub fn use_item(&mut self, hand: Hand) -> (p: PacketUseItem)
        ensures
            p == (PacketUseItem {
                hand: hand_number(hand),
                sequence: old(self).next_action_sequence.wrapping_add(1),
                yaw: old(self).player.position.yaw,
                pitch: old(self).player.position.pitch,
            }),
            *final(self) == (PlayState { next_action_sequence: p.sequence, ..*old(self) }),
    {
        let sequence: i32 = self.next_action_sequence();
        PacketUseItem {
            hand: hand.wire_value(),
            sequence,
            yaw: self.player.position.yaw,
            pitch: self.player.position.pitch,
        }
    }

    /// Tracks a hotbar slot that the client has selected.
    pub fn select_hotbar_slot(&mut self, slot: i16)
        requires
            old(self).valid(),
        ensures
            final(self).valid(),
            *final(self) == (PlayState {
                inventory: final(self).inventory,
                outbox: final(self).outbox,
                ..*old(self)
            }),
            exists|event: InventoryEvent| #[trigger]
                hotbar_selected(
                    old(self).inventory@,
                    PacketHeldItemSlot { slot: slot as i32 },
                    final(self).inventory@,
                    event,
                ) && final(self).emitted(seq![BotEvent::Inventory(event)], *old(self)),
    {
        let event = self.inventory.select_hotbar_slot(slot);
        self.emit(BotEvent::Inventory(event));
        proof {
            assert(hotbar_selected(
                old(self).inventory@,
                PacketHeldItemSlot { slot: slot as i32 },
                self.inventory@,
                event,
            ));
            assert(self.outbox@ =~= old(self).outbox@ + seq![BotEvent::Inventory(event)]);
        }
    }

    /// Checks and queues a click; the packet to send, unless it is refused.
    pub fn submit_click(&mut self, request: InventoryClickRequest) -> (packet: Option<
        PacketWindowClick,
    >)
        requires
            old(self).valid(),
        ensures
            final(self).valid(),
            *final(self) == (PlayState {
                inventory: final(self).inventory,
                outbox: final(self).outbox,
                ..*old(self)
            }),
            match old(self).inventory@.click(
                request,
                old(self).hud@.game_mode == GameMode::Creative,
            ) {
                Ok((wire, drag)) => {
                    &&& packet matches Some(p) && p.window_id == request.window_id && p.state_id
                        == request.state_id && (p.slot, p.mouse_button, p.mode) == wire
                        && p.changed_slots@.len() == 0 && p.cursor_item == old(
                        self,
                    ).inventory@.cursor
                    &&& final(self).inventory@ == old(self).inventory@.queued(
                        request,
                        old(self).tick,
                        drag,
                    )
                    &&& final(self).emitted(
                        seq![
                            BotEvent::Inventory(
                                InventoryEvent::TransactionQueued {
                                    transaction_id: request.transaction_id,
                                },
                            ),
                        ],
                        *old(self),
                    )
                },
                Err(error) => {
                    &&& packet is None
                    &&& final(self).inventory@ == old(self).inventory@.refused(
                        request.transaction_id,
                        error,
                    )
                    &&& final(self).emitted(
                        seq![
                            BotEvent::Inventory(
                                InventoryEvent::TransactionRejected {
                                    transaction_id: request.transaction_id,
                                    error,
                                },
                            ),
                        ],
                        *old(self),
                    )
                },
            },
    {
        let creative = match self.hud.game_mode {
            GameMode::Creative => true,
            _ => false,
        };
        match self.inventory.prepare_click(request, self.tick, creative) {
            Ok(prepared) => {
                let event = prepared.event;
                self.emit(BotEvent::Inventory(event));
                assert(self.outbox@ =~= old(self).outbox@ + seq![BotEvent::Inventory(event)]);
                Some(prepared.packet)
            },
            Err(error) => {
                let event = self.inventory.reject_transaction(request.transaction_id, error);
                self.emit(BotEvent::Inventory(event));
                assert(self.outbox@ =~= old(self).outbox@ + seq![BotEvent::Inventory(event)]);
                None
            },
        }
    }

    /// Takes note that the packet of a click was sent.
    pub fn click_was_sent(&mut self, transaction_id: u64)
        requires
            old(self).valid(),
        ensures
            final(self).valid(),
            exists|events: Seq<InventoryEvent>| #[trigger]
                click_sent(
                    old(self).inventory@,
                    transaction_id,
                    final(self).inventory@,
                    events,
                ) && inventory_changed(*old(self), events, *final(self)),
    {
        let events = self.inventory.mark_sent(transaction_id);
        let ghost kept = events@;
        let ghost inventory = self.inventory@;
        self.emit_inventory_events(events);
        proof {
            assert(click_sent(old(self).inventory@, transaction_id, inventory, kept));
            assert(inventory_changed(*old(self), kept, *self));
        }
    }
}

/// The number of the `n`th action of a session.
pub open spec fn nth_sequence(n: nat) -> i32
    decreases n,
{
    if n == 0 {
        0
    } else {
        nth_sequence((n - 1) as nat).wrapping_add(1)
    }
}

/// The first 2147483647 actions of a session are numbered in order from one, so
/// no number repeats among them.
pub proof fn law_action_numbers_do_not_repeat(n: nat)
    requires
        n <= i32::MAX,
    ensures
        nth_sequence(n) == n,
    decreases n,
{
    if n > 0 {
        law_action_numbers_do_not_repeat((n - 1) as nat);
    }
}

/// A death is reported with the update that kills, and not again while the
/// player stays dead.
pub proof fn law_death_is_reported_once(
    before: PlayState,
    p: PacketUpdateHealth,
    after: PlayState,
    q: PacketUpdateHealth,
    event: HudEvent,
)
    requires
        health_applied(before, p, after),
    ensures
        before.was_alive && !is_positive(p.health) ==> health_reports(before, p, event).contains(
            BotEvent::Death,
        ),
        !is_positive(p.health) ==> !health_reports(after, q, event).contains(BotEvent::Death),
{
    let first = health_reports(before, p, event);
    if before.was_alive && !is_positive(p.health) {
        assert(first[1] == BotEvent::Death);
    }
    let second = health_reports(after, q, event);
    if !is_positive(p.health) {
        assert(second.len() == 2);
        assert forall|i: int| 0 <= i < second.len() implies second[i] != BotEvent::Death by {
            assert(i == 0 || i == 1);
        }
    }
}

/// A dead player asks for a respawn on one tick, and not again until a respawn
/// comes.
pub proof fn law_respawn_is_requested_once(before: PlayState, after: PlayState)
    requires
        !before.player.alive(),
        tick_started(before, after),
    ensures
        tick_start(after) == (TickStart::Dead { request_respawn: false }),
{
}

/// Keys that stay as they are are sent no more than once.
pub proof fn law_unchanged_keys_are_not_sent_again(before: PlayState)
    requires
        before.player.loaded,
    ensures
        input_sends(
            PlayState {
                last_player_input: input_flags(before.player.input) as u8,
                ..before
            },
        ) == Seq::<TickSend>::empty(),
{
}

} // verus!
