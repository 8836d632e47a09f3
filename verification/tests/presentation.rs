use minerider::float_bits::Single;
use std::sync::Arc;

use minerider::minecraft::nbt::Nbt;
use minerider::minecraft::presentation::{
    decode_update, BossBar, BossBarAction, BossBarColor, BossBarFlags, BossBarOverlay,
    BossBarUpdate, ChatFilter, ChatKind, ChatMessage, ChatTypeReference, ChatTypesHolder,
    PacketBossBar, PacketPlayerChat, PacketProfilelessChat, PresentationEvent, PresentationPacket,
    PresentationState, PresentationUpdate, TitleTiming, MAX_BOSS_BARS, MAX_CHAT_HISTORY,
};
use minerider::minecraft::text::TextComponent;

fn text(value: &str) -> Nbt {
    Nbt::Compound(Arc::new(vec![(
        "text".to_string(),
        Nbt::String(value.to_string()),
    )]))
}

fn apply_packet(state: &mut PresentationState, packet: PresentationPacket) -> PresentationEvent {
    state.apply(decode_update(packet))
}

#[test]
fn system_and_explicit_action_bar_packets_share_state() {
    let mut state = PresentationState::new();
    let event = apply_packet(
        &mut state,
        PresentationPacket::SystemChat {
            content: text("maintenance soon"),
            is_action_bar: false,
        },
    );
    assert!(matches!(event, PresentationEvent::Chat(_)));
    assert_eq!(
        state.chat.back().unwrap().content.plain_text(),
        "maintenance soon"
    );

    apply_packet(
        &mut state,
        PresentationPacket::SystemChat {
            content: text("system bar"),
            is_action_bar: true,
        },
    );
    assert_eq!(
        state.action_bar.as_ref().unwrap().plain_text(),
        "system bar"
    );
    assert_eq!(state.chat.len(), 1);

    apply_packet(&mut state, PresentationPacket::ActionBar { text: text("bar") });
    assert_eq!(state.action_bar.as_ref().unwrap().plain_text(), "bar");
}

#[test]
fn player_chat_preserves_raw_signature_and_unsigned_display() {
    let mut state = PresentationState::new();
    let packet = PacketPlayerChat {
        sender_uuid: 42,
        index: 7,
        signature: Some(vec![9; 256]),
        plain_message: "signed body".into(),
        timestamp: 123,
        salt: 456,
        previous_messages: Vec::new(),
        unsigned_chat_content: Some(text("decorated body")),
        filter_type: 2,
        filter_type_mask: Some(vec![3, 4]),
        chat_type: ChatTypesHolder::Reference(5),
        network_name: text("Alice"),
        network_target_name: Some(text("Bob")),
    };
    let event = apply_packet(&mut state, PresentationPacket::PlayerChat(packet));
    let PresentationEvent::Chat(message) = event else {
        panic!("expected chat event");
    };
    assert_eq!(message.content.plain_text(), "decorated body");
    assert_eq!(message.display_text(), "<Alice> decorated body");
    assert_eq!(message.target.as_ref().unwrap().plain_text(), "Bob");
    assert_eq!(message.chat_type, Some(ChatTypeReference::Registry(5)));
    let raw = message.signed.as_ref().expect("signed metadata");
    assert_eq!(raw.signature.as_ref().unwrap(), &vec![9; 256]);
    assert_eq!(raw.plain_message, "signed body");
    assert!(matches!(
        &raw.filter,
        ChatFilter::PartiallyFiltered {
            mask,
            truncated: false
        } if *mask == vec![3, 4]
    ));
}

#[test]
fn disguised_chat_is_structured_but_never_marked_signed() {
    let mut state = PresentationState::new();
    let event = apply_packet(
        &mut state,
        PresentationPacket::ProfilelessChat(PacketProfilelessChat {
            message: text("hello"),
            chat_type: ChatTypesHolder::Reference(2),
            name: text("Server"),
            target: None,
        }),
    );
    let PresentationEvent::Chat(message) = event else {
        panic!("expected chat event");
    };
    assert_eq!(message.kind, ChatKind::Disguised);
    assert!(message.signed.is_none());
    assert_eq!(message.display_text(), "<Server> hello");
}

#[test]
fn title_clear_and_reset_have_distinct_timing_semantics() {
    let mut state = PresentationState::new();
    apply_packet(
        &mut state,
        PresentationPacket::SetTitleText {
            text: text("Title"),
        },
    );
    apply_packet(
        &mut state,
        PresentationPacket::SetTitleSubtitle {
            text: text("Subtitle"),
        },
    );
    apply_packet(
        &mut state,
        PresentationPacket::SetTitleTime {
            fade_in: 1,
            stay: 2,
            fade_out: 3,
        },
    );
    apply_packet(&mut state, PresentationPacket::ClearTitles { reset: false });
    assert!(state.titles.title.is_none());
    assert!(state.titles.subtitle.is_none());
    assert_eq!(state.titles.timing.fade_in, 1);

    apply_packet(&mut state, PresentationPacket::ClearTitles { reset: true });
    assert_eq!(state.titles.timing, TitleTiming::default());
}

#[test]
fn tab_list_header_and_footer_update_atomically() {
    let mut state = PresentationState::new();
    let event = apply_packet(
        &mut state,
        PresentationPacket::PlayerlistHeader {
            header: text("Header"),
            footer: text("Footer"),
        },
    );
    assert!(matches!(event, PresentationEvent::TabListChanged { .. }));
    assert_eq!(
        state.tab_list.header.as_ref().unwrap().plain_text(),
        "Header"
    );
    assert_eq!(
        state.tab_list.footer.as_ref().unwrap().plain_text(),
        "Footer"
    );
}

fn boss_packet(id: u128, action: i32) -> PacketBossBar {
    PacketBossBar {
        entity_uuid: id,
        action,
        title: None,
        health: None,
        color: None,
        dividers: None,
        flags: None,
    }
}

fn boss(state: &mut PresentationState, packet: PacketBossBar) -> PresentationEvent {
    apply_packet(state, PresentationPacket::BossBar(packet))
}

#[test]
fn boss_bar_complete_lifecycle_and_unknown_values() {
    let mut state = PresentationState::new();
    let id = 99;
    boss(
        &mut state,
        PacketBossBar {
            entity_uuid: id,
            action: 0,
            title: Some(text("Raid")),
            health: Some((0.75f32).to_bits()),
            color: Some(99),
            dividers: Some(4),
            flags: Some(0x07),
        },
    );
    let bar = state.boss_bars.get(&id).unwrap();
    assert_eq!(bar.color, BossBarColor::Unknown(99));
    assert_eq!(bar.overlay, BossBarOverlay::Notched20);
    assert!(bar.flags.darken_sky());
    assert!(bar.flags.play_end_music());
    assert!(bar.flags.create_world_fog());

    let mut progress = boss_packet(id, 2);
    progress.health = Some((0.25f32).to_bits());
    boss(&mut state, progress);

    let mut title = boss_packet(id, 3);
    title.title = Some(text("Updated"));
    boss(&mut state, title);

    let mut style = boss_packet(id, 4);
    style.color = Some(2);
    style.dividers = Some(1);
    boss(&mut state, style);

    let mut flags = boss_packet(id, 5);
    flags.flags = Some(0);
    boss(&mut state, flags);

    let bar = state.boss_bars.get(&id).unwrap();
    assert_eq!(f32::from_bits(bar.progress.0), 0.25);
    assert_eq!(bar.title.plain_text(), "Updated");
    assert_eq!(bar.color, BossBarColor::Red);
    assert_eq!(bar.overlay, BossBarOverlay::Notched6);
    assert_eq!(bar.flags.raw, 0);

    let removed = boss(&mut state, boss_packet(id, 1));
    assert!(matches!(
        removed,
        PresentationEvent::BossBarChanged {
            action: BossBarAction::Remove,
            applied: true,
            current: None,
            ..
        }
    ));
}

#[test]
fn out_of_order_boss_bar_updates_are_safe_noops() {
    let mut state = PresentationState::new();
    let mut packet = boss_packet(123, 2);
    packet.health = Some((0.5f32).to_bits());
    let event = boss(&mut state, packet);
    assert!(matches!(
        event,
        PresentationEvent::BossBarChanged {
            applied: false,
            current: None,
            ..
        }
    ));
    assert!(state.boss_bars.is_empty());

    let missing_remove = boss(&mut state, boss_packet(123, 1));
    assert!(matches!(
        missing_remove,
        PresentationEvent::BossBarChanged { applied: false, .. }
    ));
}

#[test]
fn collections_are_bounded() {
    let mut state = PresentationState::new();
    for index in 0..(MAX_CHAT_HISTORY + 5) {
        state.apply(PresentationUpdate::Chat(ChatMessage {
            sequence: 0,
            kind: ChatKind::System,
            content: TextComponent::literal(&index.to_string()),
            sender: None,
            target: None,
            chat_type: None,
            signed: None,
        }));
    }
    assert_eq!(state.chat.len(), MAX_CHAT_HISTORY);
    assert_eq!(state.chat.front().unwrap().sequence, 5);

    for id in 0..(MAX_BOSS_BARS as u128 + 1) {
        state.apply(PresentationUpdate::BossBar(BossBarUpdate::Add(BossBar {
            id,
            title: Arc::new(TextComponent::literal("bar")),
            progress: Single((1.0f32).to_bits()),
            color: BossBarColor::White,
            overlay: BossBarOverlay::Progress,
            flags: BossBarFlags { raw: 0 },
        })));
    }
    assert_eq!(state.boss_bars.len(), MAX_BOSS_BARS);
    assert!(!state.boss_bars.contains(&(MAX_BOSS_BARS as u128)));
}

#[test]
fn disconnect_reason_is_structured_state_and_event() {
    let mut state = PresentationState::new();
    let event = apply_packet(
        &mut state,
        PresentationPacket::KickDisconnect {
            reason: text("Kicked"),
        },
    );
    assert!(matches!(event, PresentationEvent::Disconnected { .. }));
    assert_eq!(
        state.disconnect_reason.as_ref().unwrap().plain_text(),
        "Kicked"
    );
}
