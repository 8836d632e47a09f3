use std::sync::Arc;

use minerider::minecraft::nbt::{Nbt, NbtList};
use minerider::minecraft::settings::{
    brand_payload, client_configuration, nbt_reason_text, vanilla_client_information,
    OpeningPacket, ParticleStatus, BRAND_CHANNEL, DEFAULT_VIEW_DISTANCE,
};
use minerider::minecraft::text::{
    substitute_placeholders, Color, Content, TextComponent, MAX_DEPTH, MAX_NODES, MAX_TEXT_BYTES,
};

fn compound(entries: Vec<(&str, Nbt)>) -> Nbt {
    Nbt::Compound(Arc::new(
        entries.into_iter().map(|(k, v)| (k.to_string(), v)).collect(),
    ))
}

fn string(s: &str) -> Nbt {
    Nbt::String(s.to_string())
}

fn nbt_text(s: &str) -> Nbt {
    compound(vec![("text", string(s))])
}

fn nbt_list(items: Vec<Nbt>) -> Nbt {
    Nbt::List(Arc::new(NbtList { tag: 10, items }))
}

#[test]
fn literal_component() {
    let c = TextComponent::from_nbt(&nbt_text("hello"));
    assert_eq!(c.content, Content::Literal("hello".to_string()));
    assert_eq!(c.plain_text(), "hello");

    // A bare string is also a valid literal component root.
    let bare = TextComponent::from_nbt(&string("bare"));
    assert_eq!(bare.plain_text(), "bare");
}

#[test]
fn styled_component_preserves_every_field() {
    let component = compound(vec![
        ("text", string("warn")),
        ("color", string("red")),
        ("bold", Nbt::Byte(1)),
        ("italic", Nbt::Byte(0)),
        ("obfuscated", Nbt::Byte(1)),
        ("insertion", string("click-fill")),
        (
            "clickEvent",
            compound(vec![
                ("action", string("run_command")),
                ("value", string("/help")),
            ]),
        ),
        (
            "hoverEvent",
            compound(vec![
                ("action", string("show_text")),
                ("contents", nbt_text("more info")),
            ]),
        ),
    ]);
    let c = TextComponent::from_nbt(&component);
    assert_eq!(c.style.color, Some(Color::Named("red".to_string())));
    assert_eq!(c.style.bold, Some(true));
    assert_eq!(c.style.italic, Some(false));
    assert_eq!(c.style.obfuscated, Some(true));
    assert_eq!(c.style.insertion.as_deref(), Some("click-fill"));
    let click = c.style.click_event.expect("click event");
    assert_eq!(click.action, "run_command");
    assert_eq!(click.value, "/help");
    let hover = c.style.hover_event.expect("hover event");
    assert_eq!(hover.action, "show_text");
    assert_eq!(hover.text.expect("hover text").plain_text(), "more info");
}

#[test]
fn hex_color_is_distinguished_from_named() {
    let component = compound(vec![("text", string("x")), ("color", string("#FF00FF"))]);
    let c = TextComponent::from_nbt(&component);
    assert_eq!(c.style.color, Some(Color::Hex("FF00FF".to_string())));
}

#[test]
fn nested_extra_children_render_in_order() {
    let component = compound(vec![
        ("text", string("a")),
        ("extra", nbt_list(vec![nbt_text("b"), string("c")])),
    ]);
    let c = TextComponent::from_nbt(&component);
    assert_eq!(c.plain_text(), "abc");
    assert_eq!(c.extra.len(), 2);
}

#[test]
fn bare_list_root_is_a_component_array() {
    let root = nbt_list(vec![nbt_text("a"), nbt_text("b")]);
    assert_eq!(TextComponent::from_nbt(&root).plain_text(), "ab");
}

#[test]
fn translated_component_with_structured_args() {
    let component = compound(vec![
        ("translate", string("chat.type.text")),
        ("with", nbt_list(vec![nbt_text("Notch"), nbt_text("hi")])),
    ]);
    let c = TextComponent::from_nbt(&component);
    assert!(matches!(&c.content, Content::Translate { key, .. } if key == "chat.type.text"));
    assert_eq!(c.plain_text(), "<Notch> hi");
}

#[test]
fn unknown_translation_key_falls_back_to_key_and_args() {
    let component = compound(vec![
        ("translate", string("some.unknown.key")),
        ("with", nbt_list(vec![nbt_text("x")])),
    ]);
    assert_eq!(
        TextComponent::from_nbt(&component).plain_text(),
        "some.unknown.key{x}"
    );
}

#[test]
fn unknown_content_kind_is_preserved_not_dropped() {
    // A score component: neither `text` nor `translate`.
    let component = compound(vec![(
        "score",
        compound(vec![
            ("name", string("Notch")),
            ("objective", string("kills")),
        ]),
    )]);
    let c = TextComponent::from_nbt(&component);
    assert_eq!(c.plain_text(), "", "nothing sensible to show as plain text");
    match c.content {
        Content::Unknown { raw } => assert!(raw.get("score").is_some()),
        other => panic!("expected Unknown, got {other:?}"),
    }
}

#[test]
fn malformed_extra_type_is_ignored_not_a_panic() {
    // `extra` is a Compound instead of a List: must be ignored, not panic.
    let component = compound(vec![("text", string("a")), ("extra", compound(vec![]))]);
    let c = TextComponent::from_nbt(&component);
    assert_eq!(c.plain_text(), "a");
    assert!(c.extra.is_empty());
}

#[test]
fn deeply_nested_extra_does_not_overflow_the_stack() {
    let mut root = nbt_text("bottom");
    for i in 0..(MAX_DEPTH * 4) {
        root = compound(vec![
            ("text", Nbt::String(format!("{i}."))),
            ("extra", nbt_list(vec![root])),
        ]);
    }
    // Must return without panicking; depth past the limit degrades to
    // an empty component rather than being fully rendered.
    let c = TextComponent::from_nbt(&root);
    let _ = c.plain_text();
}

#[test]
fn oversized_sibling_list_is_truncated_by_the_node_budget() {
    let items: Vec<Nbt> = (0..(MAX_NODES * 2))
        .map(|i| nbt_text(&i.to_string()))
        .collect();
    let root = compound(vec![("text", string("root")), ("extra", nbt_list(items))]);
    let c = TextComponent::from_nbt(&root);
    // Bounded: nowhere near 2*MAX_NODES siblings actually got parsed.
    assert!(c.extra.len() < MAX_NODES);
}

#[test]
fn oversized_literal_text_is_truncated_by_the_text_budget() {
    let huge = "x".repeat(MAX_TEXT_BYTES * 2);
    let c = TextComponent::from_nbt(&nbt_text(&huge));
    assert!(c.plain_text().len() <= MAX_TEXT_BYTES);
}

#[test]
fn json_literal_and_styled_component() {
    let c = TextComponent::from_json_str(r#"{"text":"hi","bold":true,"color":"gold"}"#);
    assert_eq!(c.content, Content::Literal("hi".to_string()));
    assert_eq!(c.style.bold, Some(true));
    assert_eq!(c.style.color, Some(Color::Named("gold".to_string())));
}

#[test]
fn json_nested_and_translated() {
    let c = TextComponent::from_json_str(
        r#"{"translate":"multiplayer.player.joined","with":[{"text":"Steve"}]}"#,
    );
    assert_eq!(c.plain_text(), "Steve joined the game");
}

#[test]
fn malformed_json_degrades_to_literal_raw_string() {
    let c = TextComponent::from_json_str("{not valid json");
    assert_eq!(c.plain_text(), "{not valid json");
}

#[test]
fn json_array_root_is_a_component_array() {
    let c = TextComponent::from_json_str(r#"[{"text":"a"},"b"]"#);
    assert_eq!(c.plain_text(), "ab");
}

#[test]
fn display_matches_plain_text() {
    let c = TextComponent::literal("hi there");
    assert_eq!(c.plain_text(), "hi there");
}

#[test]
fn substitutes_indexed_placeholders_directly() {
    // Vanilla death messages use indexed args like
    // "%1$s was slain by %2$s"; not in the built-in template table, but
    // the substitution primitive itself is tested directly here.
    let mut out = String::new();
    substitute_placeholders(
        "%1$s was slain by %2$s",
        &vec!["Steve".to_string(), "Zombie".to_string()],
        &mut out,
    );
    assert_eq!(out, "Steve was slain by Zombie");
}

#[test]
fn brand_payload_is_length_prefixed_vanilla() {
    // writeUtf("vanilla") == varint(7) + b"vanilla".
    assert_eq!(brand_payload().unwrap(), b"\x07vanilla");
}

#[test]
fn vanilla_settings_match_default_options() {
    let s = vanilla_client_information(DEFAULT_VIEW_DISTANCE);
    assert_eq!(s.locale, "en_us");
    assert_eq!(s.view_distance, 12);
    assert_eq!(s.chat_flags, 0);
    assert!(s.chat_colors);
    assert_eq!(s.skin_parts, 0x7f);
    assert_eq!(s.main_hand, 1);
    assert!(!s.enable_text_filtering);
    assert!(s.enable_server_listing);
    assert_eq!(s.particle_status, ParticleStatus::All);
}

#[test]
fn the_brand_comes_before_the_settings() {
    let packets = client_configuration(7).unwrap();
    assert_eq!(packets.len(), 2);
    match &packets[0] {
        OpeningPacket::CustomPayload(p) => {
            assert_eq!(p.channel, BRAND_CHANNEL);
            assert_eq!(p.data, b"\x07vanilla");
        }
        other => panic!("expected the brand, got {other:?}"),
    }
    assert!(matches!(&packets[1], OpeningPacket::Settings(s) if s.view_distance == 7));
}

#[test]
fn renders_plain_text_component() {
    assert_eq!(nbt_reason_text(&nbt_text("hello")), "hello");
    assert_eq!(nbt_reason_text(&string("bare")), "bare");
}

#[test]
fn renders_extra_children_in_order() {
    let component = compound(vec![
        ("text", string("a")),
        ("extra", nbt_list(vec![nbt_text("b"), string("c")])),
    ]);
    assert_eq!(nbt_reason_text(&component), "abc");
}

#[test]
fn renders_known_translation_with_args() {
    // "<Notch> hi", the standard player-chat system format.
    let component = compound(vec![
        ("translate", string("chat.type.text")),
        ("with", nbt_list(vec![nbt_text("Notch"), nbt_text("hi")])),
    ]);
    assert_eq!(nbt_reason_text(&component), "<Notch> hi");
}

#[test]
fn renders_join_message() {
    let component = compound(vec![
        ("translate", string("multiplayer.player.joined")),
        ("with", nbt_list(vec![nbt_text("Steve")])),
    ]);
    assert_eq!(nbt_reason_text(&component), "Steve joined the game");
}

#[test]
fn unknown_translation_falls_back_to_key_and_args() {
    let component = compound(vec![
        ("translate", string("some.unknown.key")),
        ("with", nbt_list(vec![nbt_text("x")])),
    ]);
    assert_eq!(nbt_reason_text(&component), "some.unknown.key{x}");
}

#[test]
fn an_oversized_bare_list_is_cut_in_length() {
    let items = (0..8192).map(|_| Nbt::String("x".into())).collect();
    let component = TextComponent::from_nbt(&Nbt::List(Arc::new(NbtList { tag: 8, items })));
    assert_eq!(component.extra.len(), MAX_NODES - 2);
    assert!(component.extra.iter().all(|c| c.plain_text() == "x"));
}
