use std::sync::Arc;

use minerider::error::MineRiderError;
use minerider::minecraft::configuration::{
    vanilla_dimension_type, ConfigurationData,
};
use minerider::minecraft::control::{BotCommand, Hand};
use minerider::minecraft::coverage::PlayPacket;
use minerider::minecraft::entity::{PacketEntityDestroy, PacketEntityVelocity, PacketSpawnEntity};
use minerider::minecraft::event::BotEvent;
use minerider::minecraft::geometry::Vec3;
use minerider::minecraft::hud::{
    GameMode, HudEvent, HudPacket, PacketGameStateChange, PacketLogin, PacketRespawn,
    PacketUpdateHealth, PacketUpdateTime, SpawnInfo,
};
use minerider::minecraft::inventory::{
    InventoryClick, InventoryClickRequest, InventoryEvent, MouseButton, PacketHeldItemSlot,
    TRANSACTION_TIMEOUT_TICKS,
};
use minerider::minecraft::nbt::Nbt;
use minerider::minecraft::play::{
    encode_outbound_chat_action, log_unhandled, player_input_flags, swing, Notice, OutboundChat,
    PlayClientbound, PlayReply, PlayState, StatePacket, TickSend, TickStart, INPUT_BACKWARD,
    INPUT_FORWARD, INPUT_JUMP, INPUT_LEFT, INPUT_RIGHT, INPUT_SHIFT, INPUT_SPRINT,
};
use minerider::minecraft::player::{
    MovementInput, MovementPacket, PacketExperience, PacketPosition, PositionSums,
};
use minerider::minecraft::players::{
    PacketPlayerInfo, PacketPlayerInfoAction, PacketPlayerInfoDataItem, PacketPlayerRemove,
    ADD_PLAYER,
};
use minerider::minecraft::presentation::{
    ChatTypesHolder, PacketPlayerChat, PresentationEvent, PresentationPacket,
};
use minerider::minecraft::resource_pack::{PacketCommonAddResourcePack, STATUS_DECLINED};
use minerider::minecraft::scoreboard::{Objective, ObjectiveRenderType};
use minerider::minecraft::shapes::{BlockTables, BoxRange, FrictionOverride};
use minerider::minecraft::text::TextComponent;
use minerider::minecraft::world::{PacketMapChunk, PacketUnloadChunk};
use minerider::protocol::buffer::PacketWriter;
use minerider::sorted_map::SortedMap;

fn text(value: &str) -> Nbt {
    Nbt::Compound(Arc::new(vec![(
        "text".to_string(),
        Nbt::String(value.to_string()),
    )]))
}

fn configuration() -> ConfigurationData {
    ConfigurationData {
        dimension_types: vec![
            vanilla_dimension_type(&"minecraft:overworld".to_string()).unwrap(),
            vanilla_dimension_type(&"minecraft:the_nether".to_string()).unwrap(),
        ],
    }
}

fn spawn_info(dimension: i32) -> SpawnInfo {
    SpawnInfo {
        name: "minecraft:overworld".to_string(),
        gamemode: GameMode::Survival,
        previous_gamemode: 255,
        death: None,
        portal_cooldown: 0,
        sea_level: 63,
        dimension,
    }
}

fn login(entity_id: i32, dimension: i32) -> StatePacket {
    StatePacket::Login(PacketLogin {
        entity_id,
        is_hardcore: false,
        world_state: spawn_info(dimension),
    })
}

fn apply(state: &mut PlayState, packet: StatePacket) -> Result<(), MineRiderError> {
    state.apply_state_packet(&configuration(), packet)
}

fn handle(state: &mut PlayState, packet: PlayClientbound) -> Result<Vec<PlayReply>, MineRiderError> {
    state.handle_clientbound(&configuration(), packet, &mut SortedMap::new())
}

fn protocol_text<T>(res: Result<T, MineRiderError>) -> String {
    match res {
        Err(MineRiderError::Protocol(text)) => text,
        Err(other) => panic!("expected a protocol error, got {other:?}"),
        Ok(_) => panic!("expected a protocol error"),
    }
}

fn vec3(x: f64, y: f64, z: f64) -> Vec3 {
    Vec3 { x: x.to_bits(), y: y.to_bits(), z: z.to_bits() }
}

fn position(x: f64, y: f64, z: f64) -> PlayClientbound {
    PlayClientbound::Position {
        packet: PacketPosition {
            teleport_id: 17,
            at: vec3(x, y, z),
            velocity: vec3(0.0, 0.0, 0.0),
            yaw: (90.0f32).to_bits(),
            pitch: 0,
            flags: 0,
        },
        sums: PositionSums {
            at: vec3(0.0, 0.0, 0.0),
            velocity: vec3(0.0, 0.0, 0.0),
            yaw: 0,
            pitch: 0,
        },
    }
}

fn chunk(x: i32, z: i32) -> PacketMapChunk {
    let mut w = PacketWriter::new();
    for _ in 0..24 {
        w.put_i16(0);
        for _ in 0..2 {
            w.put_u8(0);
            w.put_varint(0);
            w.put_varint(0);
        }
    }
    PacketMapChunk {
        x,
        z,
        heightmaps: Nbt::Compound(Arc::new(vec![])),
        chunk_data: w.to_vec(),
        block_entities: vec![],
        sky_light_mask: vec![],
        block_light_mask: vec![],
        empty_sky_light_mask: vec![],
        empty_block_light_mask: vec![],
        sky_light: vec![],
        block_light: vec![],
    }
}

#[test]
fn outbound_chat_and_commands_use_distinct_protocol_packets() {
    match encode_outbound_chat_action(&BotCommand::Chat("hello".into()), 123, 456).unwrap() {
        OutboundChat::Message(chat) => {
            assert_eq!(chat.message, "hello");
            assert_eq!(chat.timestamp, 123);
            assert_eq!(chat.salt, 456);
            assert!(chat.signature.is_none());
            assert_eq!(chat.acknowledged, vec![0, 0, 0]);
        }
        other => panic!("expected a message, got {other:?}"),
    }
    match encode_outbound_chat_action(&BotCommand::Command("say hello".into()), 999, 999).unwrap()
    {
        OutboundChat::Command(command) => assert_eq!(command.command, "say hello"),
        other => panic!("expected a command, got {other:?}"),
    }
}

#[test]
fn slash_content_is_rejected_instead_of_changing_packet_kind() {
    assert!(encode_outbound_chat_action(&BotCommand::Chat("/help".into()), 0, 0).is_err());
    assert!(encode_outbound_chat_action(&BotCommand::Command("/help".into()), 0, 0).is_err());
    assert_eq!(
        protocol_text(
            encode_outbound_chat_action(&BotCommand::Stop, 0, 0).map_err(|fault| fault.error(""))
        ),
        "attempted to encode a non-chat control action as chat"
    );
}

#[test]
fn action_sequence_increments_and_never_repeats_within_a_session() {
    let mut state = PlayState::new();
    assert_eq!(state.next_action_sequence(), 1);
    assert_eq!(state.next_action_sequence(), 2);
    assert_eq!(state.next_action_sequence(), 3);
    state.player.position.yaw = (12.0f32).to_bits();
    let p = state.use_item(Hand::Off);
    assert_eq!((p.hand, p.sequence), (1, 4));
    assert_eq!(f32::from_bits(p.yaw), 12.0);
    assert_eq!(swing(Hand::Main).hand, 0);
}

#[test]
fn player_input_flags_map_each_movement_key_to_its_vanilla_bit() {
    let one = (1.0f32).to_bits();
    let minus_one = (-1.0f32).to_bits();
    let idle = MovementInput::default();

    // Idle: no keys, no flags.
    assert_eq!(player_input_flags(&idle), 0);

    // Forward and backward are the two signs of the forward impulse and
    // are mutually exclusive.
    let fwd = MovementInput { forward: one, ..idle };
    assert_eq!(player_input_flags(&fwd), INPUT_FORWARD);
    let back = MovementInput { forward: minus_one, ..idle };
    assert_eq!(player_input_flags(&back), INPUT_BACKWARD);

    // Left is the positive strafe direction (vanilla leftImpulse).
    let left = MovementInput { strafe: one, ..idle };
    assert_eq!(player_input_flags(&left), INPUT_LEFT);
    let right = MovementInput { strafe: minus_one, ..idle };
    assert_eq!(player_input_flags(&right), INPUT_RIGHT);

    // A sprint-jump strafing forward sets exactly its four bits.
    let combo = MovementInput {
        forward: one,
        strafe: one,
        jump: true,
        sprint: true,
        sneak: false,
    };
    assert_eq!(
        player_input_flags(&combo),
        INPUT_FORWARD | INPUT_LEFT | INPUT_JUMP | INPUT_SPRINT
    );

    // Sneak maps to SHIFT.
    let sneak = MovementInput { sneak: true, ..idle };
    assert_eq!(player_input_flags(&sneak), INPUT_SHIFT);
}

#[test]
fn action_sequence_resets_on_a_fresh_session_reconnect_isolation() {
    let mut first_session = PlayState::new();
    assert_eq!(first_session.next_action_sequence(), 1);
    assert_eq!(first_session.next_action_sequence(), 2);
    assert_eq!(first_session.next_action_sequence(), 3);

    let mut second_session = PlayState::new();
    assert_eq!(
        second_session.next_action_sequence(),
        1,
        "a new session's sequence must not continue from the old session's counter"
    );
}

#[test]
fn a_login_enters_its_dimension() {
    let mut state = PlayState::new();
    apply(&mut state, login(42, 1)).unwrap();
    assert_eq!(state.player.entity_id, Some(42));
    assert_eq!(state.hud.entity_id, Some(42));
    assert_eq!(state.dimension.as_ref().unwrap().key, "minecraft:the_nether");
    assert!(matches!(state.outbox[..], [BotEvent::Login { entity_id: 42 }]));

    let mut state = PlayState::new();
    assert_eq!(
        protocol_text(apply(&mut state, login(42, 2))),
        "play login dimension index 2 absent from 2 dimension types"
    );
    assert!(state.world.is_none() && state.outbox.is_empty());
}

#[test]
fn a_respawn_starts_over() {
    let mut state = PlayState::new();
    apply(&mut state, login(1, 0)).unwrap();
    handle(&mut state, position(1.0, 64.0, 1.0)).unwrap();
    state.respawn_pending = true;
    state.player.mark_loaded();
    let respawn = |dimension| {
        StatePacket::Respawn(PacketRespawn {
            world_state: spawn_info(dimension),
            copy_metadata: 0,
        })
    };
    apply(&mut state, respawn(0)).unwrap();
    assert!(!state.respawn_pending && !state.received_position && !state.player.loaded);
    assert!(matches!(state.outbox.last(), Some(BotEvent::Hud(HudEvent::Respawned { .. }))));
    assert_eq!(
        protocol_text(apply(&mut state, respawn(-1))),
        "respawn dimension index -1 absent from 2 dimension types"
    );
}

fn health(v: f32) -> StatePacket {
    StatePacket::UpdateHealth(PacketUpdateHealth {
        health: v.to_bits(),
        food: 5,
        food_saturation: 0,
    })
}

fn deaths(state: &PlayState) -> usize {
    state.outbox.iter().filter(|e| matches!(e, BotEvent::Death)).count()
}

#[test]
fn death_is_reported_once_and_answered_once() {
    let mut state = PlayState::new();
    apply(&mut state, health(3.0)).unwrap();
    apply(&mut state, health(0.0)).unwrap();
    apply(&mut state, health(0.0)).unwrap();
    assert_eq!(deaths(&state), 1);
    assert_eq!(state.begin_tick(), TickStart::Dead { request_respawn: true });
    assert_eq!(state.begin_tick(), TickStart::Dead { request_respawn: false });
    apply(&mut state, health(20.0)).unwrap();
    apply(&mut state, health(-1.0)).unwrap();
    assert_eq!(deaths(&state), 2);
}

#[test]
fn the_world_is_entered_once_its_chunk_is_there() {
    let mut state = PlayState::new();
    assert_eq!(
        protocol_text(handle(&mut state, PlayClientbound::MapChunk(chunk(0, 0)))),
        "map_chunk arrived before play login dimension"
    );
    apply(&mut state, login(1, 0)).unwrap();
    assert_eq!(state.begin_tick(), TickStart::Moving);
    assert!(state.end_tick(true).is_empty(), "nothing is sent before the world is there");
    handle(&mut state, PlayClientbound::MapChunk(chunk(-1, 0))).unwrap();
    assert_eq!(state.begin_tick(), TickStart::Moving, "no position yet");
    let replies = handle(&mut state, position(-0.5, 64.0, 5.5)).unwrap();
    assert_eq!(replies.len(), 2);
    assert_eq!(replies[0], PlayReply::TeleportConfirm { teleport_id: 17 });
    assert!(matches!(replies[1], PlayReply::PositionLook(p) if p.at == vec3(-0.5, 64.0, 5.5)));
    state.outbox.clear();
    assert_eq!(state.begin_tick(), TickStart::Loaded);
    assert!(matches!(state.outbox[..], [BotEvent::Spawned]));
    assert_eq!(state.tick, 3);
    // From here on each tick ends with its marker; keys are sent on change.
    state.apply_command(BotCommand::Forward(true));
    assert_eq!(state.begin_tick(), TickStart::Moving);
    assert!(!state.drive(false, 0));
    assert_eq!(
        state.end_tick(false),
        vec![TickSend::PlayerInput { flags: INPUT_FORWARD }, TickSend::TickEnd]
    );
    assert_eq!(state.end_tick(false), vec![TickSend::TickEnd]);
    assert!(matches!(
        state.end_tick(true)[..],
        [TickSend::Movement(MovementPacket::Position(_)), TickSend::TickEnd]
    ));
    handle(&mut state, PlayClientbound::UnloadChunk(PacketUnloadChunk { chunk_z: 0, chunk_x: -1 }))
        .unwrap();
    assert!(!state.world.as_ref().unwrap().has_chunk(-1, 0));
}

#[test]
fn replies_are_echoes() {
    let mut state = PlayState::new();
    assert_eq!(
        handle(&mut state, PlayClientbound::KeepAlive { id: -5 }).unwrap(),
        vec![PlayReply::KeepAlive { id: -5 }]
    );
    assert_eq!(
        handle(&mut state, PlayClientbound::Ping { id: 6 }).unwrap(),
        vec![PlayReply::Pong { id: 6 }]
    );
    assert_eq!(
        handle(&mut state, PlayClientbound::ChunkBatchStart).unwrap(),
        vec![PlayReply::StartBatch]
    );
    assert_eq!(
        handle(&mut state, PlayClientbound::ChunkBatchFinished { batch_size: -3 }).unwrap(),
        vec![PlayReply::FinishBatch { batch_size: 0 }]
    );
    let pack = PacketCommonAddResourcePack {
        uuid: 4,
        url: String::new(),
        hash: String::new(),
        forced: true,
        prompt_message: None,
    };
    assert!(matches!(
        handle(&mut state, PlayClientbound::AddResourcePack(pack)).unwrap()[..],
        [PlayReply::ResourcePack(r)] if r.uuid == 4 && r.result == STATUS_DECLINED
    ));
    assert!(handle(&mut state, PlayClientbound::RemoveResourcePack).unwrap().is_empty());
}

#[test]
fn a_kick_ends_the_session_with_its_reason() {
    let mut state = PlayState::new();
    match handle(&mut state, PlayClientbound::KickDisconnect { reason: text("bye") }) {
        Err(MineRiderError::Disconnected(reason)) => assert_eq!(reason, "bye"),
        other => panic!("{other:?}"),
    }
    assert!(matches!(
        &state.outbox[..],
        [
            BotEvent::Presentation(PresentationEvent::Disconnected { .. }),
            BotEvent::Kicked { reason }
        ] if reason == "bye"
    ));
}

#[test]
fn chat_is_reported_in_both_forms() {
    let mut state = PlayState::new();
    apply(
        &mut state,
        StatePacket::Presentation(PresentationPacket::SystemChat {
            content: text("hello"),
            is_action_bar: false,
        }),
    )
    .unwrap();
    assert!(matches!(
        &state.outbox[..],
        [BotEvent::Presentation(_), BotEvent::SystemChat { message }] if message == "hello"
    ));
    state.outbox.clear();
    let chat = |name: Nbt| {
        StatePacket::Presentation(PresentationPacket::PlayerChat(PacketPlayerChat {
            sender_uuid: 42,
            index: 0,
            signature: None,
            plain_message: "body".into(),
            timestamp: 0,
            salt: 0,
            previous_messages: Vec::new(),
            unsigned_chat_content: None,
            filter_type: 0,
            filter_type_mask: None,
            chat_type: ChatTypesHolder::Reference(0),
            network_name: name,
            network_target_name: None,
        }))
    };
    apply(&mut state, chat(text("Alice"))).unwrap();
    apply(&mut state, chat(text(""))).unwrap();
    assert!(matches!(
        &state.outbox[..],
        [
            BotEvent::Presentation(_),
            BotEvent::Chat { sender: a, message },
            BotEvent::Presentation(_),
            BotEvent::Chat { sender: b, .. },
        ] if a == "Alice" && b == "42" && message == "body"
    ));
}

#[test]
fn velocities_go_to_whom_they_are_addressed() {
    let mut state = PlayState::new();
    apply(&mut state, login(7, 0)).unwrap();
    let spawn = PacketSpawnEntity {
        entity_id: 8,
        object_uuid: 3,
        kind: 2,
        position: vec3(0.0, 0.0, 0.0),
        pitch: 0,
        yaw: 0,
        head_pitch: 0,
        object_data: 0,
        velocity: vec3(0.0, 0.0, 0.0),
    };
    apply(&mut state, StatePacket::SpawnEntity(spawn)).unwrap();
    for id in [7, 8, 9] {
        apply(
            &mut state,
            StatePacket::EntityVelocity(PacketEntityVelocity {
                entity_id: id,
                velocity: vec3(id as f64, 0.0, 0.0),
            }),
        )
        .unwrap();
    }
    assert_eq!(state.player.velocity, vec3(7.0, 0.0, 0.0));
    assert_eq!(state.entities.get(8).unwrap().velocity, vec3(8.0, 0.0, 0.0));
    state.outbox.clear();
    apply(&mut state, StatePacket::EntityDestroy(PacketEntityDestroy { entity_ids: vec![8, 9] }))
        .unwrap();
    assert!(state.entities.is_empty());
    assert!(matches!(
        state.outbox[..],
        [BotEvent::EntityRemoved { entity_id: 8 }, BotEvent::EntityRemoved { entity_id: 9 }]
    ));
}

#[test]
fn world_events_are_folded_in() {
    let mut state = PlayState::new();
    apply(
        &mut state,
        StatePacket::UpdateTime(PacketUpdateTime { age: 1, time: -1, tick_day_time: true }),
    )
    .unwrap();
    assert_eq!(state.world_time, 23_999);
    apply(
        &mut state,
        StatePacket::GameStateChange(PacketGameStateChange { reason: 1, game_mode: 0 }),
    )
    .unwrap();
    assert!(state.raining);
    apply(
        &mut state,
        StatePacket::GameStateChange(PacketGameStateChange { reason: 2, game_mode: 0 }),
    )
    .unwrap();
    assert!(!state.raining);
    apply(
        &mut state,
        StatePacket::Experience(PacketExperience {
            experience_bar: 0,
            level: 3,
            total_experience: 9,
        }),
    )
    .unwrap();
    assert_eq!((state.player.xp_level, state.hud.experience.total), (3, 9));
    state.outbox.clear();
    apply(&mut state, StatePacket::HeldItemSlot(PacketHeldItemSlot { slot: 5 })).unwrap();
    assert_eq!((state.inventory.selected_hotbar_slot, state.hud.selected_hotbar_slot), (5, 5));
    assert!(matches!(state.outbox[..], [BotEvent::Inventory(_), BotEvent::Hud(_)]));
    apply(
        &mut state,
        StatePacket::Hud(HudPacket::Difficulty { difficulty: 2, difficulty_locked: false }),
    )
    .unwrap();
    assert!(matches!(state.outbox.last(), Some(BotEvent::Hud(HudEvent::DifficultyChanged { .. }))));
    state.select_hotbar_slot(2);
    assert_eq!(state.inventory.selected_hotbar_slot, 2);
}

#[test]
fn joins_and_departures_are_reported_before_the_list() {
    let mut state = PlayState::new();
    let item = |uuid, name: &str| PacketPlayerInfoDataItem {
        uuid,
        player: Some(name.to_string()),
        chat_session: None,
        gamemode: None,
        listed: None,
        latency: None,
        display_name: None,
        list_priority: None,
        show_hat: None,
    };
    apply(
        &mut state,
        StatePacket::PlayerInfo(PacketPlayerInfo {
            action: PacketPlayerInfoAction(ADD_PLAYER),
            data: vec![item(1, "A"), item(2, "B")],
        }),
    )
    .unwrap();
    assert!(matches!(
        &state.outbox[..],
        [
            BotEvent::PlayerJoined { uuid: 1, name: a },
            BotEvent::PlayerJoined { uuid: 2, name: b },
            BotEvent::Hud(HudEvent::PlayerListChanged { updated, .. }),
        ] if a == "A" && b == "B" && *updated == vec![1, 2]
    ));
    state.outbox.clear();
    apply(
        &mut state,
        StatePacket::PlayerRemove(PacketPlayerRemove { players: vec![2, 3] }),
    )
    .unwrap();
    assert!(matches!(
        &state.outbox[..],
        [
            BotEvent::PlayerLeft { uuid: 2 },
            BotEvent::Hud(HudEvent::PlayerListChanged { removed, .. }),
        ] if *removed == vec![2]
    ));
}

#[test]
fn clicks_are_queued_sent_and_given_up() {
    let mut state = PlayState::new();
    let request = |id, state_id| InventoryClickRequest {
        transaction_id: id,
        generation: 0,
        window_id: 0,
        state_id,
        click: InventoryClick::Pickup { slot: None, button: MouseButton::Left },
    };
    assert!(state.submit_click(request(1, 99)).is_none());
    assert!(matches!(
        state.outbox[..],
        [BotEvent::Inventory(InventoryEvent::TransactionRejected { transaction_id: 1, .. })]
    ));
    state.outbox.clear();
    let packet = state.submit_click(request(2, 0)).unwrap();
    assert_eq!((packet.slot, packet.mode), (-999, 0));
    state.click_was_sent(2);
    assert!(matches!(
        state.outbox[..],
        [
            BotEvent::Inventory(InventoryEvent::TransactionQueued { transaction_id: 2 }),
            BotEvent::Inventory(InventoryEvent::TransactionSent { transaction_id: 2 }),
        ]
    ));
    state.outbox.clear();
    for _ in 0..TRANSACTION_TIMEOUT_TICKS {
        state.begin_tick();
    }
    assert!(matches!(
        state.outbox[..],
        [BotEvent::Inventory(InventoryEvent::TransactionFinished { transaction_id: 2, .. })]
    ));
}

#[test]
fn unhandled_packets_are_warned_of_once() {
    let mut warned: SortedMap<i32, ()> = SortedMap::new();
    assert_eq!(log_unhandled(PlayPacket::Tags, 5, &mut warned), Notice::WarnOnce);
    assert_eq!(log_unhandled(PlayPacket::Tags, 5, &mut warned), Notice::Debug);
    assert_eq!(log_unhandled(PlayPacket::Other, 6, &mut warned), Notice::WarnOnce);
    assert_eq!(log_unhandled(PlayPacket::KeepAlive, 7, &mut warned), Notice::Debug);
    for _ in 0..2 {
        assert_eq!(
            log_unhandled(PlayPacket::CookieRequest, 8, &mut warned),
            Notice::Unsupported
        );
    }
}

#[test]
fn a_look_command_turns_the_player() {
    let mut state = PlayState::new();
    state.apply_command(BotCommand::Look { yaw: (5.0f32).to_bits(), pitch: (6.0f32).to_bits() });
    assert_eq!(f32::from_bits(state.player.position.yaw), 5.0);
    assert_eq!(f32::from_bits(state.player.position.pitch), 6.0);
}

#[test]
fn snapshot_is_an_independent_copy_of_live_state() {
    let mut state = PlayState::new();
    state.player.health = (7.5f32).to_bits();
    state.presentation.action_bar = Some(Arc::new(TextComponent::literal("before")));
    state.scoreboard.objectives.insert(
        "before".into(),
        Arc::new(Objective {
            name: "before".into(),
            display_name: Arc::new(TextComponent::literal("Before")),
            render_type: ObjectiveRenderType::Integer,
            number_format: None,
        }),
    );
    state.hud.cooldowns.insert("before".into(), 4);
    let snap = state.snapshot(42);

    assert_eq!(snap.tick, 42);
    assert_eq!(f32::from_bits(snap.player.health), 7.5);

    // Mutating the source afterward must not affect an already-taken
    // snapshot: it's a real clone, not a shared reference.
    state.player.health = (20.0f32).to_bits();
    state.presentation.action_bar = Some(Arc::new(TextComponent::literal("after")));
    state.scoreboard.objectives.clear();
    state.hud.cooldowns.clear();
    assert_eq!(
        f32::from_bits(snap.player.health),
        7.5,
        "snapshot is independent of live state"
    );
    assert_eq!(
        snap.presentation
            .action_bar
            .as_ref()
            .expect("snapshot action bar")
            .plain_text(),
        "before"
    );
    assert!(snap.scoreboard.objectives.contains(&"before".to_string()));
    assert_eq!(snap.hud.cooldowns.get(&"before".to_string()), Some(&4));
}

#[test]
fn block_tables_are_looked_up() {
    let tables = BlockTables {
        state_shapes: vec![0, 1, 2],
        shape_ranges: vec![
            BoxRange { start: 0, count: 0 },
            BoxRange { start: 0, count: 2 },
        ],
        box_count: 2,
        friction_overrides: vec![FrictionOverride {
            first: 5,
            last: 6,
            friction: (0.98f64).to_bits(),
        }],
    };
    assert_eq!(tables.collision_boxes(1), Some(BoxRange { start: 0, count: 2 }));
    assert_eq!(tables.collision_boxes(2), None);
    assert_eq!(tables.collision_boxes(3), None);
    assert_eq!(f64::from_bits(tables.block_friction(4)), 0.6);
    assert_eq!(f64::from_bits(tables.block_friction(6)), 0.98);
}

#[test]
fn a_fresh_state_has_clear_weather() {
    let mut state = PlayState::new();
    assert!(!state.hud.hardcore && state.hud.cooldowns.is_empty());
    assert_eq!(state.hud.respawn.count, 0);
    apply(
        &mut state,
        StatePacket::GameStateChange(PacketGameStateChange { reason: 1, game_mode: 0 }),
    )
    .unwrap();
    assert!(state.raining && state.hud.weather.raining);
    assert_eq!(f32::from_bits(state.hud.weather.rain_level), 0.0);
}
