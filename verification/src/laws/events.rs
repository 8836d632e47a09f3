//! What is reported of each change.
use crate::error::MineRiderError;
use crate::laws::play::{news, only_added};
use crate::minecraft::event::BotEvent;
use crate::minecraft::hud::{HudEvent, HudState, HudUpdate};
use crate::minecraft::inventory::InventoryEvent;
use crate::minecraft::play::PlayState;
use crate::minecraft::players::PacketPlayerInfo;
use crate::minecraft::presentation::{
    BossBarUpdate, PresentationEvent, PresentationState, PresentationUpdate,
};
use crate::minecraft::scoreboard::{
    ScoreAction, ScoreboardEvent, ScoreboardState, ScoreboardUpdate, TeamUpdate,
};
use crate::minecraft::world::PacketMultiBlockChange;
use vstd::prelude::*;

verus! {

/// Changes of the scoreboard and of the HUD are applied to them alone, and reported
/// once, or not at all where nothing of the HUD changed.
pub proof fn law_changes_are_reported_once(
    s: &mut PlayState,
    scoreboard: ScoreboardUpdate,
    h: &mut PlayState,
    hud: HudUpdate,
)
    requires
        call_ensures(PlayState::apply_scoreboard, (s, scoreboard), ()),
        call_ensures(PlayState::apply_hud, (h, hud), ()),
    ensures
        news(*old(s), *final(s)).len() == 1,
        news(*old(s), *final(s))[0] is Scoreboard,
        only_added(*old(s), *final(s)),
        *final(s) == (PlayState {
            scoreboard: final(s).scoreboard,
            outbox: final(s).outbox,
            ..*old(s)
        }),
        news(*old(h), *final(h)).len() <= 1,
        news(*old(h), *final(h)).len() == 1 ==> news(*old(h), *final(h))[0] is Hud,
        final(h).hud@ != old(h).hud@ ==> news(*old(h), *final(h)).len() == 1,
        *final(h) == (PlayState { hud: final(h).hud, outbox: final(h).outbox, ..*old(h) }),
{
    let event = choose|event: ScoreboardEvent|
        #[trigger] crate::minecraft::scoreboard::scoreboard_outcome(
            old(s).scoreboard@,
            final(s).scoreboard,
            event,
            scoreboard,
        ) && final(s).emitted(seq![BotEvent::Scoreboard(event)], *old(s));
    assert(news(*old(s), *final(s)) =~= seq![BotEvent::Scoreboard(event)]);
    let shown = old(h).hud@.applied(hud).1;
    assert(news(*old(h), *final(h)) =~= crate::minecraft::play::hud_reports(shown));
}

/// New players with a name are reported as joined, and the list after them.
pub proof fn law_joining_players_are_reported(s: &mut PlayState, p: &PacketPlayerInfo)
    requires
        call_ensures(PlayState::apply_player_info, (s, p), ()),
    ensures
        ({
            let events = news(*old(s), *final(s));
            &&& only_added(*old(s), *final(s))
            &&& events.len() > 0
            &&& events.last() is Hud
            &&& forall|i: int|
                0 <= i < events.len() - 1 ==> #[trigger] events[i] is PlayerJoined
        }),
        final(s).player == old(s).player,
{
    let result = crate::minecraft::players::unchanged(old(s).players@).after_all(
        p.action,
        p.data@,
    );
    let (joins, list) = choose|joins: Seq<BotEvent>, list: BotEvent|
        #![trigger final(s).emitted(joins.push(list), *old(s))]
        crate::minecraft::play::join_reports(result.joined, joins)
            && crate::minecraft::play::list_report(
            list,
            result.updated,
            Seq::empty(),
            result.rejected,
        ) && final(s).emitted(joins.push(list), *old(s));
    let events = news(*old(s), *final(s));
    assert(events =~= joins.push(list));
    assert forall|i: int| 0 <= i < events.len() - 1 implies #[trigger] events[i]
        is PlayerJoined by {
        assert(events[i] == joins[i]);
        assert(crate::minecraft::play::is_join(joins[i], result.joined[i]));
    }
}

/// Changes of several blocks change the world alone, and before a dimension is entered
/// nothing.
pub proof fn law_block_changes_change_the_world_alone(
    s: &mut PlayState,
    p: &PacketMultiBlockChange,
    res: Result<(), MineRiderError>,
    x: int,
    y: int,
    z: int,
)
    requires
        old(s).valid(),
        call_ensures(PlayState::apply_blocks, (s, p), res),
    ensures
        old(s).world is None ==> res is Ok && *final(s) == *old(s),
        *final(s) == (PlayState { world: final(s).world, ..*old(s) }),
        ({
            let at = p.chunk_coordinates;
            old(s).world is Some && !(16 * at.x <= x < 16 * at.x + 16 && 16 * at.y <= y < 16 * at.y
                + 16 && 16 * at.z <= z < 16 * at.z + 16) ==> final(s).world is Some
                && final(s).world->0@.block(x, y, z) == old(s).world->0@.block(x, y, z)
        }),
{
    let at = p.chunk_coordinates;
    if let Some(w) = old(s).world {
        if !(16 * at.x <= x < 16 * at.x + 16 && 16 * at.y <= y < 16 * at.y + 16 && 16 * at.z <= z
            < 16 * at.z + 16) {
            crate::laws::blocks::law_multi_block_changes_stay_in_their_section(
                w@,
                at,
                p.records@,
                0,
                x,
                y,
                z,
            );
        }
    }
}

/// A click that was sent and a hotbar slot that was chosen are noted in the inventory
/// and reported.
pub proof fn law_clicks_and_slots_are_noted(
    s: &mut PlayState,
    id: u64,
    h: &mut PlayState,
    slot: i16,
)
    requires
        call_ensures(PlayState::click_was_sent, (s, id), ()),
        call_ensures(PlayState::select_hotbar_slot, (h, slot), ()),
    ensures
        *final(s) == (PlayState {
            inventory: final(s).inventory,
            outbox: final(s).outbox,
            ..*old(s)
        }),
        final(s).inventory@.player == old(s).inventory@.player,
        final(s).inventory@.open == old(s).inventory@.open,
        0 <= slot <= 8 ==> final(h).inventory@.selected == slot,
        !(0 <= slot <= 8) ==> final(h).inventory@.selected == old(h).inventory@.selected,
        news(*old(h), *final(h)).len() == 1,
        news(*old(h), *final(h))[0] == BotEvent::Inventory(
            InventoryEvent::SelectedHotbarChanged {
                slot: final(h).inventory@.selected,
                applied: 0 <= slot <= 8,
            },
        ),
{
    let event = InventoryEvent::SelectedHotbarChanged {
        slot: final(h).inventory@.selected,
        applied: 0 <= slot <= 8,
    };
    assert(final(h).emitted(seq![BotEvent::Inventory(event)], *old(h)));
    assert(news(*old(h), *final(h)) =~= seq![BotEvent::Inventory(event)]);
}

/// A change of an objective says which, what is there now and how many slots and
/// scores went with it.
pub proof fn law_objective_reports_count_what_went(
    s: &mut ScoreboardState,
    update: ScoreboardUpdate,
    event: ScoreboardEvent,
)
    requires
        call_ensures(ScoreboardState::apply, (s, update), event),
    ensures
        update matches ScoreboardUpdate::Objective { name, action, .. } ==> (event matches
            ScoreboardEvent::ObjectiveChanged {
                name: n,
                action: a,
                current,
                detached_slots,
                removed_scores,
                ..
            } && n == name && a == action && (current is Some <==> final(s)@.objectives.contains_key(
            name@,
        )) && detached_slots == (old(s)@.slots.len() - final(s)@.slots.len()) as usize
            && removed_scores == (old(s)@.scores.len() - final(s)@.scores.len()) as usize),
        update matches ScoreboardUpdate::SetScore(score) ==> (event matches
            ScoreboardEvent::ScoreChanged { owner, objective, action, applied, affected, .. }
            && owner == score.owner && objective == Some(score.objective) && action
            == ScoreAction::Assign && affected == (if applied { 1int } else { 0 })),
        update matches ScoreboardUpdate::ResetScore { owner: o, objective: b } ==> (event matches
            ScoreboardEvent::ScoreChanged { owner, objective, action, current, applied, affected }
            && owner == o && objective == b && action == ScoreAction::Reset && current is None
            && affected == (old(s)@.scores.len() - final(s)@.scores.len()) as usize),
        update matches ScoreboardUpdate::DisplaySlot { slot, .. } ==> (event matches
            ScoreboardEvent::DisplaySlotChanged { slot: t, objective, .. } && t == slot && (
        objective is Some <==> final(s)@.slots.contains_key(slot))),
{
}

/// A change of a team names it and counts who moved and who was turned away.
pub proof fn law_team_reports_name_the_team(
    s: &mut ScoreboardState,
    update: TeamUpdate,
    event: ScoreboardEvent,
)
    requires
        call_ensures(ScoreboardState::apply_team, (s, update), event),
    ensures
        event matches ScoreboardEvent::TeamChanged { name, current, applied, affected_members, .. }
            && (update matches TeamUpdate::Create { name: n, .. } ==> name == n) && (update matches
            TeamUpdate::Remove { name: n } ==> name == n && (applied <==> old(
            s,
        )@.teams.contains_key(n@))) && (update matches TeamUpdate::Update { name: n, .. } ==> name
            == n && affected_members == 0 && (applied <==> old(s)@.teams.contains_key(n@))) && (
        update matches TeamUpdate::AddMembers { name: n, .. } ==> name == n && (applied
            <==> affected_members != 0)) && (update matches TeamUpdate::RemoveMembers {
            name: n,
            ..
        } ==> name == n && (applied <==> affected_members != 0)) && (current is Some
            <==> final(s)@.teams.contains_key(name@)),
{
}

/// A change of a boss bar names it and says what is there now and whether it applied.
pub proof fn law_bar_reports_say_what_is_there(
    s: &mut PresentationState,
    update: BossBarUpdate,
    event: PresentationEvent,
)
    requires
        call_ensures(PresentationState::apply, (s, PresentationUpdate::BossBar(update)), event),
    ensures
        event matches PresentationEvent::BossBarChanged { id, action, current, applied } && (
        current is Some <==> final(s)@.boss_bars.contains_key(id as int)) && (current matches Some(
            b,
        ) ==> final(s)@.boss_bars[id as int] == b) && (update matches BossBarUpdate::Add(bar) ==> id
            == bar.id && action is Add && (applied ==> current == Some(bar))) && (update matches
            BossBarUpdate::Remove { id: i } ==> id == i && action is Remove && (applied <==> old(
            s,
        )@.boss_bars.contains_key(i as int))) && (update matches BossBarUpdate::Progress {
            id: i,
            ..
        } ==> id == i && action is UpdateProgress) && (update matches BossBarUpdate::Title {
            id: i,
            ..
        } ==> id == i && action is UpdateTitle) && (update matches BossBarUpdate::Style {
            id: i,
            ..
        } ==> id == i && action is UpdateStyle) && (update matches BossBarUpdate::Flags {
            id: i,
            ..
        } ==> id == i && action is UpdateFlags) && (update is Progress || update is Title || update
            is Style || update is Flags ==> (applied <==> old(s)@.boss_bars.contains_key(
            id as int,
        ))),
{
}

/// Changes of the HUD say what they changed.
pub proof fn law_hud_reports_say_what_changed(
    s: &mut HudState,
    update: HudUpdate,
    event: Option<HudEvent>,
)
    requires
        call_ensures(HudState::apply, (s, update), event),
    ensures
        update matches HudUpdate::Abilities(a) ==> event == Some(
            HudEvent::AbilitiesChanged { abilities: a },
        ),
        update matches HudUpdate::Difficulty(d) ==> event == Some(
            HudEvent::DifficultyChanged { difficulty: d },
        ),
        update matches HudUpdate::SpawnPosition(p) ==> event == Some(
            HudEvent::SpawnPositionChanged { position: p },
        ),
        update matches HudUpdate::Cooldown { group, ticks } ==> (event matches Some(
            HudEvent::CooldownChanged { group: g, remaining_ticks, applied },
        ) && g == group && (remaining_ticks is Some <==> final(s)@.cooldowns.contains_key(group@))
            && (remaining_ticks matches Some(t) ==> final(s)@.cooldowns[group@] == t) && (ticks <= 0
            ==> (applied <==> old(s)@.cooldowns.contains_key(group@)))),
        update matches HudUpdate::SetEffect { entity_id, effect } ==> old(s)@.entity_id == Some(
            entity_id,
        ) ==> (event matches Some(HudEvent::EffectChanged { effect_id, current, applied })
            && effect_id == effect.id && (applied ==> current == Some(effect))),
        update matches HudUpdate::RemoveEffect { entity_id, effect_id } ==> old(s)@.entity_id
            == Some(entity_id) ==> event == Some(
            HudEvent::EffectChanged {
                effect_id,
                current: None,
                applied: old(s)@.effects.contains_key(effect_id as int),
            },
        ),
        update matches HudUpdate::Attributes { entity_id, .. } ==> old(s)@.entity_id != Some(
            entity_id,
        ) ==> event is None && final(s)@ == old(s)@,
        update matches HudUpdate::Attributes { entity_id, attributes } ==> old(s)@.entity_id
            == Some(entity_id) && old(s)@.valid() && old(s)@.attributes.len() + attributes@.len()
            <= 128 ==> event == Some(
            HudEvent::AttributesChanged { applied: attributes@.len() as usize, rejected: 0 },
        ),
{
    if let HudUpdate::Attributes { entity_id, attributes } = update {
        if old(s)@.valid() && old(s)@.attributes.len() + attributes@.len() <= 128 {
            crate::laws::hud::law_attributes_take_their_last_value(
                old(s)@.attributes,
                attributes@,
                crate::minecraft::hud::AttributeKey::Armor,
            );
        }
    }
}

/// A fresh state knows nothing: no windows, no players, no chat.
pub proof fn law_states_start_empty(s: PlayState)
    requires
        call_ensures(PlayState::new, (), s),
    ensures
        s.inventory@.open is None && s.inventory@.pending.len() == 0 && s.inventory@.selected == 0,
        s.players@.dom() =~= Set::empty(),
        s.entities@.dom() =~= Set::empty(),
        s.presentation@.chat.len() == 0 && s.presentation@.boss_bars.dom() =~= Set::empty(),
        s.presentation@.titles.timing.fade_in == 10 && s.presentation@.titles.timing.stay == 70
            && s.presentation@.titles.timing.fade_out == 20,
        s.scoreboard@.objectives.dom() =~= Set::empty(),
        s.hud@.entity_id is None && s.hud@.vitals.food == 20 && s.hud@.border is None,
        s.hud@.vitals.health == 0x41A0_0000 && s.hud@.vitals.saturation == 0x40A0_0000,
        s.world is None && s.dimension is None,
        s.was_alive && !s.respawn_pending && !s.received_position && !s.raining,
        s.tick == 0 && s.next_action_sequence == 0 && s.last_player_input == 0,
        s.controller.goal is None && s.controller.random_look is None,
        s.outbox@.len() == 0,
{
    assert(s.controller.keys() == crate::minecraft::control::KeysModel::idle());
}

} // verus!
