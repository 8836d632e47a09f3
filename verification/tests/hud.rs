use std::sync::Arc;

use minerider::minecraft::hud::{
    decode_update, AttributeKey, AttributeOperation, BlockPosition, Difficulty, GameMode, HudEvent,
    HudPacket, HudState, PacketGameStateChange, PacketUpdateHealth, PacketUpdateTime,
    WireAttribute, WireAttributeKey, WireModifier, MAX_ATTRIBUTE_MODIFIERS, MAX_COOLDOWNS,
    MAX_EFFECTS,
};
use minerider::minecraft::inventory::{PacketHeldItemSlot, PacketSetPlayerInventory};
use minerider::minecraft::item::{Slot, SlotValue};
use minerider::minecraft::nbt::Nbt;

fn apply_packet(state: &mut HudState, packet: HudPacket) -> Option<HudEvent> {
    state.apply(decode_update(packet))
}

fn local() -> HudState {
    let mut state = HudState::new();
    state.entity_id = Some(7);
    state
}

#[test]
fn abilities_preserve_flags_and_speeds() {
    let mut state = HudState::new();
    apply_packet(
        &mut state,
        HudPacket::Abilities {
            flags: 0x0f,
            flying_speed: (0.05f32).to_bits(),
            walking_speed: (0.1f32).to_bits(),
        },
    );
    assert!(state.abilities.invulnerable());
    assert!(state.abilities.flying());
    assert!(state.abilities.may_fly());
    assert!(state.abilities.instant_build());
    assert_eq!(f32::from_bits(state.abilities.flying_speed), 0.05);
}

#[test]
fn cooldown_and_effect_lifecycles_are_local_and_bounded() {
    let mut state = local();
    let pearl = "minecraft:ender_pearl".to_string();
    apply_packet(
        &mut state,
        HudPacket::SetCooldown {
            cooldown_group: pearl.clone(),
            cooldown_ticks: 20,
        },
    );
    assert_eq!(state.cooldowns.get(&pearl), Some(&20));
    apply_packet(
        &mut state,
        HudPacket::SetCooldown {
            cooldown_group: pearl,
            cooldown_ticks: 0,
        },
    );
    assert!(state.cooldowns.is_empty());

    apply_packet(
        &mut state,
        HudPacket::EntityEffect {
            entity_id: 8,
            effect_id: 1,
            amplifier: 2,
            duration: 100,
            flags: 0x0f,
        },
    );
    assert!(state.active_effects.is_empty());
    apply_packet(
        &mut state,
        HudPacket::EntityEffect {
            entity_id: 7,
            effect_id: 1,
            amplifier: 2,
            duration: 100,
            flags: 0x0f,
        },
    );
    let effect = state.active_effects.get(&1).unwrap();
    assert_eq!(effect.amplifier, 2);
    assert!(effect.flags.ambient());
    assert!(effect.flags.show_particles());
    assert!(effect.flags.show_icon());
    assert!(effect.flags.blend());
    apply_packet(
        &mut state,
        HudPacket::RemoveEntityEffect {
            entity_id: 7,
            effect_id: 1,
        },
    );
    assert!(state.active_effects.is_empty());
}

#[test]
fn cooldowns_and_effects_stop_at_their_bounds() {
    let mut state = local();
    for i in 0..(MAX_COOLDOWNS as i32 + 1) {
        apply_packet(
            &mut state,
            HudPacket::SetCooldown { cooldown_group: format!("g{i}"), cooldown_ticks: 5 },
        );
    }
    assert_eq!(state.cooldowns.len(), MAX_COOLDOWNS);
    for i in 0..(MAX_EFFECTS as i32 + 1) {
        apply_packet(
            &mut state,
            HudPacket::EntityEffect {
                entity_id: 7,
                effect_id: i,
                amplifier: 0,
                duration: 1,
                flags: 0,
            },
        );
    }
    assert_eq!(state.active_effects.len(), MAX_EFFECTS);
}

#[test]
fn attributes_keep_known_keys_unknown_operations_and_modifier_bound() {
    let mut state = local();
    let modifiers = (0..=MAX_ATTRIBUTE_MODIFIERS)
        .map(|index| WireModifier {
            uuid: index.to_string(),
            amount: (index as f64).to_bits(),
            operation: if index == 0 { 99 } else { 0 },
        })
        .collect();
    apply_packet(
        &mut state,
        HudPacket::EntityUpdateAttributes {
            entity_id: 7,
            properties: vec![WireAttribute {
                key: WireAttributeKey::GenericMovementSpeed,
                value: (0.1f64).to_bits(),
                modifiers,
            }],
        },
    );
    let attribute = state.attributes.get(&AttributeKey::MovementSpeed).unwrap();
    assert_eq!(attribute.modifiers.len(), MAX_ATTRIBUTE_MODIFIERS);
    assert!(attribute.modifiers_truncated);
    assert_eq!(
        attribute.modifiers[0].operation,
        AttributeOperation::Unknown(99)
    );
}

#[test]
fn death_is_structured_and_only_applies_to_local_player() {
    let mut state = local();
    let message = Nbt::Compound(Arc::new(vec![(
        "text".to_string(),
        Nbt::String("fell".to_string()),
    )]));
    apply_packet(
        &mut state,
        HudPacket::DeathCombatEvent {
            player_id: 8,
            message: message.clone(),
        },
    );
    assert!(state.death.is_none());
    let event = apply_packet(
        &mut state,
        HudPacket::DeathCombatEvent {
            player_id: 7,
            message,
        },
    );
    assert!(matches!(event, Some(HudEvent::Death { .. })));
    assert_eq!(state.death.as_ref().unwrap().message.plain_text(), "fell");
}

fn bits(v: f64) -> u64 {
    v.to_bits()
}

#[test]
fn border_full_lifecycle_and_out_of_order_update_are_safe() {
    let mut state = HudState::new();
    let event = apply_packet(
        &mut state,
        HudPacket::WorldBorderCenter { x: bits(9.0), z: bits(9.0) },
    );
    assert!(matches!(
        event,
        Some(HudEvent::WorldBorderChanged { applied: false, .. })
    ));
    apply_packet(
        &mut state,
        HudPacket::InitializeWorldBorder {
            x: bits(1.0),
            z: bits(2.0),
            old_diameter: bits(100.0),
            new_diameter: bits(80.0),
            speed: 50,
            portal_teleport_boundary: 29_999_984,
            warning_blocks: 5,
            warning_time: 15,
        },
    );
    apply_packet(
        &mut state,
        HudPacket::WorldBorderCenter { x: bits(3.0), z: bits(4.0) },
    );
    apply_packet(
        &mut state,
        HudPacket::WorldBorderLerpSize {
            old_diameter: bits(80.0),
            new_diameter: bits(40.0),
            speed: 25,
        },
    );
    apply_packet(
        &mut state,
        HudPacket::WorldBorderWarningDelay { warning_time: 20 },
    );
    apply_packet(
        &mut state,
        HudPacket::WorldBorderWarningReach { warning_blocks: 10 },
    );
    apply_packet(&mut state, HudPacket::WorldBorderSize { diameter: bits(30.0) });
    let border = state.world_border.unwrap();
    assert_eq!(
        (f64::from_bits(border.center_x), f64::from_bits(border.center_z)),
        (3.0, 4.0)
    );
    assert_eq!(f64::from_bits(border.new_diameter), 30.0);
    assert_eq!(border.lerp_millis, 0);
    assert_eq!(border.warning_time, 20);
    assert_eq!(border.warning_blocks, 10);
}

#[test]
fn difficulty_and_spawn_preserve_unknown_and_position() {
    let mut state = HudState::new();
    apply_packet(
        &mut state,
        HudPacket::Difficulty {
            difficulty: 99,
            difficulty_locked: true,
        },
    );
    assert_eq!(state.difficulty.difficulty, Difficulty::Unknown(99));
    assert!(state.difficulty.locked);
    apply_packet(
        &mut state,
        HudPacket::SpawnPosition {
            location: BlockPosition { x: 1, y: 64, z: 2 },
            angle: (90.0f32).to_bits(),
        },
    );
    assert_eq!(state.spawn_position.unwrap().position.y, 64);
    assert_eq!(f32::from_bits(state.spawn_position.unwrap().angle), 90.0);
}

#[test]
fn hotbar_updates_only_valid_slots_and_tracks_held_item() {
    let mut state = HudState::new();
    let item = Slot {
        item_count: 0,
        value: SlotValue::V0,
    };
    let event = state.on_player_inventory(&PacketSetPlayerInventory {
        slot_id: 9,
        contents: item.clone(),
    });
    assert!(matches!(
        event,
        HudEvent::HotbarChanged { applied: false, .. }
    ));
    state.on_player_inventory(&PacketSetPlayerInventory {
        slot_id: 4,
        contents: item,
    });
    state.on_selected_hotbar(&PacketHeldItemSlot { slot: 4 });
    assert_eq!(state.selected_hotbar_slot, 4);
    assert!(state.hotbar.contains(&4));
}

#[test]
fn existing_vitals_experience_time_weather_and_game_mode_are_typed() {
    let mut state = HudState::new();
    state.on_health(&PacketUpdateHealth {
        health: (7.0f32).to_bits(),
        food: 8,
        food_saturation: (1.5f32).to_bits(),
    });
    state.on_experience((0.5f32).to_bits(), 3, 42);
    state.on_time(&PacketUpdateTime {
        age: 100,
        time: -1,
        tick_day_time: false,
    });
    state.on_game_state(&PacketGameStateChange {
        reason: 1,
        game_mode: (0.0f32).to_bits(),
    });
    state.on_game_state(&PacketGameStateChange {
        reason: 7,
        game_mode: (0.75f32).to_bits(),
    });
    state.on_game_state(&PacketGameStateChange {
        reason: 3,
        game_mode: (2.0f32).to_bits(),
    });
    assert_eq!(f32::from_bits(state.vitals.health), 7.0);
    assert_eq!(state.experience.total, 42);
    assert_eq!(state.time.day_time, 23_999);
    assert!(!state.time.ticking);
    assert!(state.weather.raining);
    assert_eq!(f32::from_bits(state.weather.rain_level), 0.75);
    assert_eq!(state.game_mode, GameMode::Adventure);
}
