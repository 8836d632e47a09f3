use std::sync::Arc;

use minerider::minecraft::nbt::Nbt;
use minerider::minecraft::scoreboard::{
    decode_update, CollisionRule, DisplaySlot, FriendlyFire, NameTagVisibility, NumberFormat,
    ObjectiveAction, ObjectiveDefinition, ObjectiveRenderType, PacketResetScore,
    PacketScoreboardDisplayObjective, PacketScoreboardObjective, PacketScoreboardScore,
    PacketTeams, PacketTeamsPlayers, Score, ScoreKey, ScoreboardEvent, ScoreboardPacket,
    ScoreboardState, ScoreboardUpdate, Styling, Switched, TeamAction, TeamColor, TeamDefinition,
    TeamUpdate, MAX_DISPLAY_SLOTS, MAX_OBJECTIVES, MAX_SCORES, MAX_TEAMS, MAX_TEAM_MEMBERS,
};
use minerider::minecraft::text::TextComponent;

fn text(value: &str) -> Nbt {
    Nbt::Compound(Arc::new(vec![(
        "text".to_string(),
        Nbt::String(value.to_string()),
    )]))
}

fn apply_packet(state: &mut ScoreboardState, packet: ScoreboardPacket) -> ScoreboardEvent {
    state.apply(decode_update(packet))
}

fn objective_packet(name: &str, action: i8) -> PacketScoreboardObjective {
    PacketScoreboardObjective {
        name: name.into(),
        action,
        display_text: Switched::Default,
        kind: Switched::Default,
        number_format: Switched::Default,
        styling: Switched::Default,
    }
}

fn create_objective(name: &str, label: &str) -> ScoreboardPacket {
    ScoreboardPacket::Objective(PacketScoreboardObjective {
        name: name.into(),
        action: 0,
        display_text: Switched::V0(text(label)),
        kind: Switched::V0(0),
        number_format: Switched::V0(None),
        styling: Switched::V0(Styling::Default),
    })
}

fn team_packet(name: &str, mode: i8) -> PacketTeams {
    PacketTeams {
        team: name.into(),
        mode,
        name: Switched::Default,
        friendly_fire: Switched::Default,
        name_tag_visibility: Switched::Default,
        collision_rule: Switched::Default,
        formatting: Switched::Default,
        prefix: Switched::Default,
        suffix: Switched::Default,
        players: PacketTeamsPlayers::Default,
    }
}

fn create_team(name: &str, members: Vec<String>, color: i32) -> ScoreboardPacket {
    ScoreboardPacket::Teams(PacketTeams {
        team: name.into(),
        mode: 0,
        name: Switched::V0(text(name)),
        friendly_fire: Switched::V0(0x03),
        name_tag_visibility: Switched::V0("always".into()),
        collision_rule: Switched::V0("pushOtherTeams".into()),
        formatting: Switched::V0(color),
        prefix: Switched::V0(text("[")),
        suffix: Switched::V0(text("]")),
        players: PacketTeamsPlayers::V0(members),
    })
}

fn key(s: &str) -> String {
    s.to_string()
}

#[test]
fn objective_display_score_and_removal_have_complete_lifecycle() {
    let mut state = ScoreboardState::new();
    apply_packet(&mut state, create_objective("kills", "Kills"));
    apply_packet(
        &mut state,
        ScoreboardPacket::DisplayObjective(PacketScoreboardDisplayObjective {
            position: 1,
            name: "kills".into(),
        }),
    );
    apply_packet(
        &mut state,
        ScoreboardPacket::Score(PacketScoreboardScore {
            item_name: "Alice".into(),
            score_name: "kills".into(),
            value: 7,
            display_name: Some(text("Alice the Brave")),
            number_format: Some(2),
            styling: Styling::V2(text("seven")),
        }),
    );

    assert_eq!(state.display_slots.get(&DisplaySlot::Sidebar).unwrap(), "kills");
    let score = state
        .scores
        .get(&ScoreKey::new("Alice".into(), "kills".into()))
        .unwrap();
    assert_eq!(score.value, 7);
    assert!(matches!(
        score.number_format.as_ref(),
        Some(NumberFormat::Fixed(_))
    ));

    let mut update = objective_packet("kills", 2);
    update.display_text = Switched::V2(text("Eliminations"));
    update.kind = Switched::V2(1);
    update.number_format = Switched::V2(Some(0));
    update.styling = Switched::V2(Styling::Default);
    apply_packet(&mut state, ScoreboardPacket::Objective(update));
    let objective = state.objectives.get(&key("kills")).unwrap();
    assert_eq!(objective.render_type, ObjectiveRenderType::Hearts);
    assert_eq!(objective.number_format, Some(NumberFormat::Blank));

    let removed = apply_packet(
        &mut state,
        ScoreboardPacket::Objective(objective_packet("kills", 1)),
    );
    assert!(matches!(
        removed,
        ScoreboardEvent::ObjectiveChanged {
            detached_slots: 1,
            removed_scores: 1,
            applied: true,
            ..
        }
    ));
    assert!(state.objectives.is_empty());
    assert!(state.display_slots.is_empty());
    assert!(state.scores.is_empty());
}

#[test]
fn score_reset_can_target_one_objective_or_every_objective() {
    let mut state = ScoreboardState::new();
    for objective in ["a", "b"] {
        apply_packet(&mut state, create_objective(objective, objective));
        apply_packet(
            &mut state,
            ScoreboardPacket::Score(PacketScoreboardScore {
                item_name: "Alice".into(),
                score_name: objective.into(),
                value: 1,
                display_name: None,
                number_format: None,
                styling: Styling::Default,
            }),
        );
    }
    apply_packet(
        &mut state,
        ScoreboardPacket::ResetScore(PacketResetScore {
            entity_name: "Alice".into(),
            objective_name: Some("a".into()),
        }),
    );
    assert_eq!(state.scores.len(), 1);
    let event = apply_packet(
        &mut state,
        ScoreboardPacket::ResetScore(PacketResetScore {
            entity_name: "Alice".into(),
            objective_name: None,
        }),
    );
    assert!(matches!(
        event,
        ScoreboardEvent::ScoreChanged { affected: 1, .. }
    ));
    assert!(state.scores.is_empty());
}

#[test]
fn team_lifecycle_preserves_options_and_moves_members_atomically() {
    let mut state = ScoreboardState::new();
    apply_packet(
        &mut state,
        create_team("red", vec!["Alice".into(), "Bob".into()], 99),
    );
    let red = state.teams.get(&key("red")).unwrap();
    assert_eq!(red.color, TeamColor::Unknown(99));
    assert!(red.friendly_fire.allows_friendly_fire());
    assert!(red.friendly_fire.see_friendly_invisibles());
    assert_eq!(red.name_tag_visibility, NameTagVisibility::Always);
    assert_eq!(red.collision_rule, CollisionRule::PushOtherTeams);

    apply_packet(&mut state, create_team("blue", vec!["Alice".into()], 9));
    assert_eq!(state.team_for_member("Alice"), Some("blue"));
    let members = |state: &ScoreboardState, name: &str| {
        state
            .teams
            .get(&key("red"))
            .unwrap()
            .members
            .contains(&key(name))
    };
    assert!(!members(&state, "Alice"));

    let mut update = team_packet("red", 2);
    update.name = Switched::V2(text("Updated Red"));
    update.friendly_fire = Switched::V2(0);
    update.name_tag_visibility = Switched::V2("future_visibility".into());
    update.collision_rule = Switched::V2("never".into());
    update.formatting = Switched::V2(12);
    update.prefix = Switched::V2(text("<"));
    update.suffix = Switched::V2(text(">"));
    apply_packet(&mut state, ScoreboardPacket::Teams(update));
    assert!(matches!(
        &state.teams.get(&key("red")).unwrap().name_tag_visibility,
        NameTagVisibility::Unknown(_)
    ));
    assert!(members(&state, "Bob"));

    let mut add = team_packet("red", 3);
    add.players = PacketTeamsPlayers::V3(vec!["Cara".into()]);
    apply_packet(&mut state, ScoreboardPacket::Teams(add));
    let mut remove_members = team_packet("red", 4);
    remove_members.players = PacketTeamsPlayers::V4(vec!["Bob".into()]);
    apply_packet(&mut state, ScoreboardPacket::Teams(remove_members));
    assert!(members(&state, "Cara"));
    assert!(!members(&state, "Bob"));

    apply_packet(&mut state, ScoreboardPacket::Teams(team_packet("red", 1)));
    assert!(!state.teams.contains(&key("red")));
    assert_eq!(state.team_for_member("Cara"), None);
}

#[test]
fn out_of_order_and_unknown_actions_are_safe_noops() {
    let mut state = ScoreboardState::new();
    let event = apply_packet(
        &mut state,
        ScoreboardPacket::DisplayObjective(PacketScoreboardDisplayObjective {
            position: 50,
            name: "missing".into(),
        }),
    );
    assert!(matches!(
        event,
        ScoreboardEvent::DisplaySlotChanged {
            slot: DisplaySlot::Unknown(50),
            applied: false,
            ..
        }
    ));
    apply_packet(
        &mut state,
        ScoreboardPacket::Objective(objective_packet("missing", 2)),
    );
    apply_packet(
        &mut state,
        ScoreboardPacket::Score(PacketScoreboardScore {
            item_name: "Alice".into(),
            score_name: "missing".into(),
            value: 1,
            display_name: None,
            number_format: Some(77),
            styling: Styling::Default,
        }),
    );
    let team_event = apply_packet(
        &mut state,
        ScoreboardPacket::Teams(team_packet("ghost", 99)),
    );
    assert!(matches!(
        team_event,
        ScoreboardEvent::TeamChanged {
            action: TeamAction::Unknown(99),
            applied: false,
            ..
        }
    ));
    assert!(state.objectives.is_empty());
    assert!(state.scores.is_empty());
    assert!(state.teams.is_empty());
}

#[test]
fn unknown_number_format_is_preserved() {
    let mut state = ScoreboardState::new();
    apply_packet(&mut state, create_objective("o", "O"));
    apply_packet(
        &mut state,
        ScoreboardPacket::Score(PacketScoreboardScore {
            item_name: "Alice".into(),
            score_name: "o".into(),
            value: 1,
            display_name: None,
            number_format: Some(77),
            styling: Styling::Default,
        }),
    );
    assert!(matches!(
        state.scores.entry(0).1.number_format.as_ref(),
        Some(NumberFormat::Unknown {
            kind: 77,
            styling: None
        })
    ));
}

#[test]
fn collections_are_bounded_and_ordered() {
    let mut state = ScoreboardState::new();
    for index in (0..MAX_OBJECTIVES + 1).rev() {
        state.apply(ScoreboardUpdate::Objective {
            name: format!("o{index:04}"),
            action: ObjectiveAction::Create,
            definition: Some(ObjectiveDefinition {
                display_name: Arc::new(TextComponent::literal(&index.to_string())),
                render_type: ObjectiveRenderType::Integer,
                number_format: None,
            }),
        });
    }
    assert_eq!(state.objectives.len(), MAX_OBJECTIVES);
    for i in 1..MAX_OBJECTIVES {
        assert!(state.objectives.entry(i - 1).0 < state.objectives.entry(i).0);
    }

    let objective = state.objectives.entry(0).0.clone();
    for index in 0..=MAX_SCORES {
        state.apply(ScoreboardUpdate::SetScore(Score {
            owner: format!("p{index:05}"),
            objective: objective.clone(),
            value: index as i32,
            display_name: None,
            number_format: None,
        }));
    }
    assert_eq!(state.scores.len(), MAX_SCORES);

    for slot in 100..=(100 + MAX_DISPLAY_SLOTS as i32) {
        state.apply(ScoreboardUpdate::DisplaySlot {
            slot: DisplaySlot::Unknown(slot),
            objective: Some(objective.clone()),
        });
    }
    assert_eq!(state.display_slots.len(), MAX_DISPLAY_SLOTS);
}

#[test]
fn team_and_member_collections_are_bounded() {
    let mut state = ScoreboardState::new();
    let definition = || TeamDefinition {
        display_name: Arc::new(TextComponent::literal("team")),
        friendly_fire: FriendlyFire { raw: 0 },
        name_tag_visibility: NameTagVisibility::Always,
        collision_rule: CollisionRule::Always,
        color: TeamColor::Reset,
        prefix: Arc::new(TextComponent::literal("")),
        suffix: Arc::new(TextComponent::literal("")),
    };
    for index in 0..=MAX_TEAMS {
        state.apply(ScoreboardUpdate::Team(TeamUpdate::Create {
            name: format!("t{index:04}"),
            definition: definition(),
            members: Vec::new(),
        }));
    }
    assert_eq!(state.teams.len(), MAX_TEAMS);

    let members = (0..=MAX_TEAM_MEMBERS)
        .map(|index| format!("m{index:05}"))
        .collect();
    let event = state.apply(ScoreboardUpdate::Team(TeamUpdate::AddMembers {
        name: "t0000".into(),
        members,
    }));
    assert_eq!(
        state.teams.get(&key("t0000")).unwrap().members.len(),
        MAX_TEAM_MEMBERS
    );
    assert!(matches!(
        event,
        ScoreboardEvent::TeamChanged {
            rejected_members: 1,
            ..
        }
    ));
}
