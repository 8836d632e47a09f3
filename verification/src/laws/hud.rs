//! What the HUD shows.
use crate::float_bits::{halved, whole_i32};
use crate::minecraft::hud::{
    attribute, attribute_key, attributes_set, day_time, decode_update, lemma_flags, modifier_of,
    Abilities, Attribute, AttributeKey, EffectFlags, GameMode, HudEvent, HudModel, HudPacket,
    HudState, HudUpdate, PacketGameStateChange, PacketLogin, PacketRespawn, PacketUpdateHealth,
    PacketUpdateTime, RespawnState, StatusEffect, WireAttribute, WireAttributeKey,
    WorldBorderAction, WorldBorderState,
};
use crate::minecraft::inventory::{PacketHeldItemSlot, PacketSetPlayerInventory};
use crate::minecraft::nbt::Nbt;
use crate::minecraft::text::TextComponent;
use vstd::arithmetic::power2::{lemma2_to64, lemma_pow2_unfold, pow2};
use vstd::prelude::*;

verus! {

/// Game modes are numbered from nought: survival, creative, adventure, spectator. Any
/// other number is kept as it is.
pub proof fn law_game_modes_are_numbered(value: i32, mode: GameMode)
    requires
        call_ensures(GameMode::from_i32, (value,), mode),
    ensures
        mode is Survival <==> value == 0,
        mode is Creative <==> value == 1,
        mode is Adventure <==> value == 2,
        mode is Spectator <==> value == 3,
        value < 0 || value > 3 ==> mode == GameMode::Unknown(value),
{
}

/// A game mode sent as a fraction counts where it is whole: nought, one, two and
/// three by their bits. What is no whole number is kept by its bits.
pub proof fn law_game_modes_are_sent_as_fractions(bits: u32, mode: GameMode)
    requires
        call_ensures(GameMode::from_wire_float, (bits,), mode),
    ensures
        mode is Survival <==> bits == 0 || bits == 0x8000_0000,
        bits == 0x3F80_0000 ==> mode is Creative,
        bits == 0x4000_0000 ==> mode is Adventure,
        bits == 0x4040_0000 ==> mode is Spectator,
        0 < bits < 0x3F80_0000 ==> mode == GameMode::Unknown(bits as i32),
        0x8000_0000 < bits < 0xBF80_0000 ==> mode == GameMode::Unknown(bits as i32),
        bits % 0x8000_0000 >= 0x7F80_0000 ==> mode == GameMode::Unknown(bits as i32),
{
    lemma_small_wholes(bits);
}

/// The first whole numbers by their bits.
proof fn lemma_small_wholes(bits: u32)
    ensures
        whole_i32(0x3F80_0000) == Some(1i32),
        whole_i32(0x4000_0000) == Some(2i32),
        whole_i32(0x4040_0000) == Some(3i32),
        whole_i32(bits) == Some(0i32) <==> bits == 0 || bits == 0x8000_0000,
{
    lemma2_to64();
    lemma_halved_back(1, 23);
    lemma_halved_back(2, 22);
    lemma_halved_back(3, 22);
    let magnitude = bits as nat % 0x8000_0000;
    let exponent = magnitude / 0x80_0000;
    let fraction = magnitude % 0x80_0000;
    if magnitude > 0 && 127 <= exponent < 150 {
        lemma_halved_is_not_nought((0x80_0000 + fraction) as nat, (150 - exponent) as nat);
    } else if magnitude > 0 && 150 <= exponent < 255 {
        crate::float_bits::lemma_doubled_grows(
            (0x80_0000 + fraction) as nat,
            (exponent - 150) as nat,
        );
    }
}

/// A number doubled so often is halved back to itself.
proof fn lemma_halved_back(m: nat, k: nat)
    ensures
        halved(m * pow2(k), k) == Some(m),
    decreases k,
{
    lemma2_to64();
    if k > 0 {
        lemma_pow2_unfold(k);
        let (a, half) = (m as int, pow2((k - 1) as nat) as int);
        assert(a * (2 * half) == 2 * (a * half)) by (nonlinear_arith);
        assert(m * pow2(k) == 2 * (a * half));
        assert(m * pow2((k - 1) as nat) == a * half);
        assert((m * pow2(k)) % 2 == 0);
        assert((m * pow2(k)) / 2 == m * pow2((k - 1) as nat));
        lemma_halved_back(m, (k - 1) as nat);
    } else {
        assert(m * pow2(0) == m);
    }
}

/// Halving whole numbers never ends at nought.
proof fn lemma_halved_is_not_nought(m: nat, k: nat)
    requires
        m > 0,
    ensures
        halved(m, k) matches Some(h) ==> h > 0,
    decreases k,
{
    if k > 0 && m % 2 == 0 {
        lemma_halved_is_not_nought(m / 2, (k - 1) as nat);
    }
}

/// Abilities and effects have one bit for each flag, from the low end.
pub proof fn law_flags_are_bits(
    a: Abilities,
    e: EffectFlags,
    invulnerable: bool,
    flying: bool,
    may_fly: bool,
    instant_build: bool,
    ambient: bool,
    particles: bool,
    icon: bool,
    blend: bool,
)
    requires
        call_ensures(Abilities::invulnerable, (a,), invulnerable),
        call_ensures(Abilities::flying, (a,), flying),
        call_ensures(Abilities::may_fly, (a,), may_fly),
        call_ensures(Abilities::instant_build, (a,), instant_build),
        call_ensures(EffectFlags::ambient, (e,), ambient),
        call_ensures(EffectFlags::show_particles, (e,), particles),
        call_ensures(EffectFlags::show_icon, (e,), icon),
        call_ensures(EffectFlags::blend, (e,), blend),
    ensures
        invulnerable <==> a.raw_flags & 0x01 != 0,
        flying <==> a.raw_flags & 0x02 != 0,
        may_fly <==> a.raw_flags & 0x04 != 0,
        instant_build <==> a.raw_flags & 0x08 != 0,
        ambient <==> e.raw & 0x01 != 0,
        particles <==> e.raw & 0x02 != 0,
        icon <==> e.raw & 0x04 != 0,
        blend <==> e.raw & 0x08 != 0,
{
    lemma_flags(a.raw_flags);
    lemma_flags(e.raw);
}

/// Each key on the wire stands for the attribute of its name.
pub proof fn law_attributes_are_named(wire: WireAttributeKey, key: AttributeKey)
    requires
        call_ensures(attribute_key, (wire,), key),
    ensures
        wire is GenericArmor <==> key is Armor,
        wire is GenericArmorToughness <==> key is ArmorToughness,
        wire is GenericAttackDamage <==> key is AttackDamage,
        wire is GenericAttackKnockback <==> key is AttackKnockback,
        wire is GenericAttackSpeed <==> key is AttackSpeed,
        wire is PlayerBlockBreakSpeed <==> key is BlockBreakSpeed,
        wire is PlayerBlockInteractionRange <==> key is BlockInteractionRange,
        wire is PlayerEntityInteractionRange <==> key is EntityInteractionRange,
        wire is GenericFallDamageMultiplier <==> key is FallDamageMultiplier,
        wire is GenericFlyingSpeed <==> key is FlyingSpeed,
        wire is GenericFollowRange <==> key is FollowRange,
        wire is GenericGravity <==> key is Gravity,
        wire is GenericJumpStrength <==> key is JumpStrength,
        wire is GenericKnockbackResistance <==> key is KnockbackResistance,
        wire is GenericLuck <==> key is Luck,
        wire is GenericMaxAbsorption <==> key is MaxAbsorption,
        wire is GenericMaxHealth <==> key is MaxHealth,
        wire is GenericMovementSpeed <==> key is MovementSpeed,
        wire is GenericSafeFallDistance <==> key is SafeFallDistance,
        wire is GenericScale <==> key is Scale,
        wire is ZombieSpawnReinforcements <==> key is SpawnReinforcements,
        wire is GenericStepHeight <==> key is StepHeight,
{
}

/// An attribute keeps its key and its value, and its modifiers in order, up to 64 of
/// them, each with its name, its amount and its operation.
pub proof fn law_attributes_keep_their_modifiers(
    wire: &WireAttribute,
    kept: Attribute,
    key: AttributeKey,
    i: int,
)
    requires
        call_ensures(attribute, (wire,), kept),
        call_ensures(attribute_key, (wire.key,), key),
    ensures
        kept.key == key,
        kept.base_value.0 == wire.value,
        wire.modifiers@.len() <= 64 ==> kept.modifiers@.len() == wire.modifiers@.len()
            && !kept.modifiers_truncated,
        wire.modifiers@.len() > 64 ==> kept.modifiers@.len() == 64 && kept.modifiers_truncated,
        0 <= i < kept.modifiers@.len() ==> {
            let (from, to) = (wire.modifiers@[i], kept.modifiers@[i]);
            &&& to.id@ == from.uuid@
            &&& to.amount.0 == from.amount
            &&& to.operation is AddValue <==> from.operation == 0
            &&& to.operation is AddMultipliedBase <==> from.operation == 1
            &&& to.operation is AddMultipliedTotal <==> from.operation == 2
        },
{
    if 0 <= i < kept.modifiers@.len() {
        assert(modifier_of(wire.modifiers@[i], kept.modifiers@[i]));
    }
}

/// While there is room every attribute takes the value that was sent last for it.
pub proof fn law_attributes_take_their_last_value(
    m: Map<AttributeKey, Attribute>,
    s: Seq<Attribute>,
    k: AttributeKey,
)
    requires
        m.dom().finite(),
        m.len() + s.len() <= 128,
    ensures
        attributes_set(m, s).1 == 0,
        attributes_set(m, s).0.dom().finite(),
        attributes_set(m, s).0.len() <= m.len() + s.len(),
        s.len() > 0 ==> attributes_set(m, s).0.contains_key(s.last().key) && attributes_set(
            m,
            s,
        ).0[s.last().key] == s.last(),
        (forall|i: int| 0 <= i < s.len() ==> (#[trigger] s[i]).key != k) ==> attributes_set(
            m,
            s,
        ).0.contains_key(k) == m.contains_key(k) && (m.contains_key(k) ==> attributes_set(
            m,
            s,
        ).0[k] == m[k]),
    decreases s.len(),
{
    if s.len() > 0 {
        let front = s.drop_last();
        law_attributes_take_their_last_value(m, front, k);
        assert(forall|i: int| 0 <= i < front.len() ==> #[trigger] front[i] == s[i]);
        let before = attributes_set(m, front).0;
        assert(before.insert(s.last().key, s.last()).dom() =~= before.dom().insert(s.last().key));
        assert(s[s.len() - 1] == s.last());
    }
}

/// The time of day is the remainder of the clock by a day, never below zero.
pub proof fn law_day_time_is_a_remainder(time: i64, t: i64)
    requires
        call_ensures(day_time, (time,), t),
    ensures
        0 <= t < 24_000,
        (time - t) % 24_000 == 0,
        0 <= time < 24_000 ==> t == time,
{
}

/// What packets set, each number in its place: vitals, experience and the clock. The
/// event says the same, and nothing else of the HUD changes.
pub proof fn law_hud_numbers_are_what_was_sent(
    v: &mut HudState,
    e: &mut HudState,
    t: &mut HudState,
    health: &PacketUpdateHealth,
    bar: u32,
    level: i32,
    total: i32,
    time: &PacketUpdateTime,
    ve: HudEvent,
    ee: HudEvent,
    te: HudEvent,
)
    requires
        call_ensures(HudState::on_health, (v, health), ve),
        call_ensures(HudState::on_experience, (e, bar, level, total), ee),
        call_ensures(HudState::on_time, (t, time), te),
    ensures
        final(v)@.vitals.health == health.health,
        final(v)@.vitals.food == health.food,
        final(v)@.vitals.saturation == health.food_saturation,
        final(v)@ == (HudModel { vitals: final(v)@.vitals, ..old(v)@ }),
        ve == (HudEvent::VitalsChanged { vitals: final(v)@.vitals }),
        final(e)@.experience.bar == bar,
        final(e)@.experience.level == level,
        final(e)@.experience.total == total,
        final(e)@ == (HudModel { experience: final(e)@.experience, ..old(e)@ }),
        ee == (HudEvent::ExperienceChanged { experience: final(e)@.experience }),
        final(t)@.time.age == time.age,
        final(t)@.time.raw_day_time == time.time,
        0 <= final(t)@.time.day_time < 24_000,
        (time.time - final(t)@.time.day_time) % 24_000 == 0,
        final(t)@.time.ticking == time.tick_day_time,
        final(t)@ == (HudModel { time: final(t)@.time, ..old(t)@ }),
        te == (HudEvent::TimeChanged { time: final(t)@.time }),
{
}

/// What is known of a spawn is what its packet says, each part in its place.
pub open spec fn spawn_taken(
    after: HudModel,
    info: crate::minecraft::hud::SpawnInfo,
) -> bool {
    &&& after.game_mode == info.gamemode
    &&& after.respawn.game_mode == info.gamemode
    &&& info.previous_gamemode == 255 ==> after.previous_game_mode is None
    &&& info.previous_gamemode == 0 ==> after.previous_game_mode == Some(GameMode::Survival)
    &&& info.previous_gamemode == 1 ==> after.previous_game_mode == Some(GameMode::Creative)
    &&& info.previous_gamemode == 2 ==> after.previous_game_mode == Some(GameMode::Adventure)
    &&& info.previous_gamemode == 3 ==> after.previous_game_mode == Some(GameMode::Spectator)
    &&& 3 < info.previous_gamemode < 255 ==> after.previous_game_mode == Some(
        GameMode::Unknown(info.previous_gamemode as i32),
    )
    &&& after.respawn.previous_game_mode == after.previous_game_mode
    &&& after.respawn.dimension_name == info.name
    &&& after.respawn.portal_cooldown == info.portal_cooldown
    &&& after.respawn.sea_level == info.sea_level
    &&& info.death is None ==> after.respawn.last_death_location is None
    &&& info.death matches Some(d) ==> (after.respawn.last_death_location matches Some(l)
        && l.dimension_name == info.death->0.dimension_name && l.position == info.death->0.location)
}

/// Logging in and respawning take over the spawn. A respawn is counted, and tells what
/// was kept; a login names the entity and says whether life is hardcore.
pub proof fn law_spawns_are_taken_over(
    a: &mut HudState,
    b: &mut HudState,
    login: &PacketLogin,
    respawn: &PacketRespawn,
    event: HudEvent,
)
    requires
        call_ensures(HudState::on_login, (a, login), ()),
        call_ensures(HudState::on_respawn, (b, respawn), event),
    ensures
        spawn_taken(final(a)@, login.world_state),
        final(a)@.entity_id == Some(login.entity_id),
        final(a)@.hardcore == login.is_hardcore,
        final(a)@.respawn.count == old(a)@.respawn.count,
        final(a)@.respawn.copy_metadata == 0,
        final(a)@.vitals == old(a)@.vitals && final(a)@.hotbar == old(a)@.hotbar,
        spawn_taken(final(b)@, respawn.world_state),
        final(b)@.entity_id == old(b)@.entity_id,
        final(b)@.hardcore == old(b)@.hardcore,
        old(b)@.respawn.count < u64::MAX ==> final(b)@.respawn.count == old(b)@.respawn.count + 1,
        final(b)@.respawn.copy_metadata == respawn.copy_metadata,
        event == (HudEvent::Respawned { state: final(b)@.respawn }),
        final(b)@ == (HudModel {
            game_mode: final(b)@.game_mode,
            previous_game_mode: final(b)@.previous_game_mode,
            respawn: final(b)@.respawn,
            ..old(b)@
        }),
{
}

/// The selected slot is the one of nine that was chosen, and the held item is what
/// that slot of the hotbar holds.
pub proof fn law_the_held_item_is_the_selected_one(
    a: &mut HudState,
    b: &mut HudState,
    select: &PacketHeldItemSlot,
    set: &PacketSetPlayerInventory,
    ae: HudEvent,
    be: HudEvent,
)
    requires
        call_ensures(HudState::on_selected_hotbar, (a, select), ae),
        call_ensures(HudState::on_player_inventory, (b, set), be),
    ensures
        0 <= select.slot < 9 ==> final(a)@.selected == select.slot && (old(
            a,
        )@.hotbar.contains_key(select.slot as int) ==> final(a)@.held_item == old(
            a,
        )@.hotbar[select.slot as int]) && (!old(a)@.hotbar.contains_key(select.slot as int)
            ==> final(a)@.held_item.item_count == 0),
        !(0 <= select.slot < 9) ==> final(a)@ == old(a)@,
        ae == (HudEvent::HotbarChanged {
            selected_slot: final(a)@.selected,
            held_item: final(a)@.held_item,
            applied: 0 <= select.slot < 9,
        }),
        final(a)@.hotbar == old(a)@.hotbar,
        0 <= set.slot_id < 9 ==> final(b)@.hotbar.contains_key(set.slot_id as int)
            && final(b)@.hotbar[set.slot_id as int] == set.contents,
        0 <= set.slot_id < 9 && set.slot_id == old(b)@.selected ==> final(b)@.held_item
            == set.contents,
        set.slot_id != old(b)@.selected ==> final(b)@.held_item == old(b)@.held_item,
        !(0 <= set.slot_id < 9) ==> final(b)@ == old(b)@,
        final(b)@.selected == old(b)@.selected,
        be == (HudEvent::HotbarChanged {
            selected_slot: final(b)@.selected,
            held_item: final(b)@.held_item,
            applied: 0 <= set.slot_id < 9,
        }),
{
}

/// Game events: one and two start and end the rain, three sets the game mode, seven
/// and eight the strength of rain and thunder. No other has an effect.
pub proof fn law_game_events_have_their_numbers(
    s: &mut HudState,
    p: &PacketGameStateChange,
    event: Option<HudEvent>,
    mode: GameMode,
)
    requires
        call_ensures(HudState::on_game_state, (s, p), event),
        call_ensures(GameMode::from_wire_float, (p.game_mode,), mode),
    ensures
        ({
            let (a, b) = (old(s)@, final(s)@);
            &&& p.reason == 1 ==> b.weather.raining && b.weather.rain_level == a.weather.rain_level
                && b.weather.thunder_level == a.weather.thunder_level
            &&& p.reason == 2 ==> !b.weather.raining && b.weather.rain_level == a.weather.rain_level
                && b.weather.thunder_level == a.weather.thunder_level
            &&& p.reason == 7 ==> b.weather.rain_level == p.game_mode && b.weather.raining
                == a.weather.raining && b.weather.thunder_level == a.weather.thunder_level
            &&& p.reason == 8 ==> b.weather.thunder_level == p.game_mode && b.weather.raining
                == a.weather.raining && b.weather.rain_level == a.weather.rain_level
            &&& p.reason == 3 ==> b.game_mode == mode && b.respawn.game_mode == mode && event
                == Some(HudEvent::GameModeChanged { game_mode: mode }) && b == (HudModel {
                game_mode: mode,
                respawn: RespawnState { game_mode: mode, ..a.respawn },
                ..a
            })
            &&& p.reason == 1 || p.reason == 2 || p.reason == 7 || p.reason == 8 ==> event == Some(
                HudEvent::WeatherChanged { weather: b.weather },
            ) && b == (HudModel { weather: b.weather, ..a })
            &&& p.reason != 1 && p.reason != 2 && p.reason != 3 && p.reason != 7 && p.reason != 8
                ==> event is None && b == a
        }),
{
}

/// Cooldowns: one above zero is kept under its group while there is room, one of zero
/// or less ends it. Other groups stay.
pub proof fn law_cooldowns_are_kept_by_group(
    s: &mut HudState,
    group: String,
    ticks: i32,
    event: Option<HudEvent>,
    other: Seq<char>,
)
    requires
        call_ensures(HudState::apply, (s, HudUpdate::Cooldown { group, ticks }), event),
    ensures
        ({
            let (a, b) = (old(s)@.cooldowns, final(s)@.cooldowns);
            &&& ticks > 0 && (a.contains_key(group@) || a.len() < 1024) ==> b.contains_key(group@)
                && b[group@] == ticks
            &&& ticks <= 0 ==> !b.contains_key(group@)
            &&& other != group@ ==> b.contains_key(other) == a.contains_key(other) && (
            a.contains_key(other) ==> b[other] == a[other])
        }),
        final(s)@ == (HudModel { cooldowns: final(s)@.cooldowns, ..old(s)@ }),
{
}

/// Effects of the own entity are kept by their number until they are removed; those of
/// other entities are not.
pub proof fn law_effects_are_kept_by_number(
    a: &mut HudState,
    b: &mut HudState,
    entity_id: i32,
    effect: StatusEffect,
    effect_id: i32,
    ae: Option<HudEvent>,
    be: Option<HudEvent>,
    other: int,
)
    requires
        call_ensures(HudState::apply, (a, HudUpdate::SetEffect { entity_id, effect }), ae),
        call_ensures(HudState::apply, (b, HudUpdate::RemoveEffect { entity_id, effect_id }), be),
    ensures
        old(a)@.entity_id != Some(entity_id) ==> final(a)@ == old(a)@ && ae is None,
        old(b)@.entity_id != Some(entity_id) ==> final(b)@ == old(b)@ && be is None,
        old(a)@.entity_id == Some(entity_id) && effect.id >= 0 && old(a)@.effects.len() < 256
            ==> final(a)@.effects.contains_key(effect.id as int)
            && final(a)@.effects[effect.id as int] == effect,
        other != effect.id ==> final(a)@.effects.contains_key(other) == old(
            a,
        )@.effects.contains_key(other),
        old(b)@.entity_id == Some(entity_id) ==> !final(b)@.effects.contains_key(effect_id as int),
        other != effect_id ==> final(b)@.effects.contains_key(other) == old(
            b,
        )@.effects.contains_key(other),
        final(a)@ == (HudModel { effects: final(a)@.effects, ..old(a)@ }),
        final(b)@ == (HudModel { effects: final(b)@.effects, ..old(b)@ }),
{
}

/// The border takes what is sent of it, part by part, once it is known.
pub proof fn law_border_parts_are_set_alone(
    a: &mut HudState,
    b: &mut HudState,
    c: &mut HudState,
    d: &mut HudState,
    e: &mut HudState,
    x: u64,
    z: u64,
    from: u64,
    to: u64,
    speed: i32,
    events: (
        Option<HudEvent>,
        Option<HudEvent>,
        Option<HudEvent>,
        Option<HudEvent>,
        Option<HudEvent>,
    ),
)
    requires
        call_ensures(HudState::apply, (a, HudUpdate::BorderCenter { x, z }), events.0),
        call_ensures(
            HudState::apply,
            (b, HudUpdate::BorderLerp { old_diameter: from, new_diameter: to, speed }),
            events.1,
        ),
        call_ensures(HudState::apply, (c, HudUpdate::BorderSize { diameter: to }), events.2),
        call_ensures(
            HudState::apply,
            (d, HudUpdate::BorderWarningTime { warning_time: speed }),
            events.3,
        ),
        call_ensures(
            HudState::apply,
            (e, HudUpdate::BorderWarningBlocks { warning_blocks: speed }),
            events.4,
        ),
    ensures
        old(a)@.border matches Some(w) ==> final(a)@.border == Some(
            WorldBorderState { center_x: x, center_z: z, ..w },
        ),
        old(b)@.border matches Some(w) ==> final(b)@.border == Some(
            WorldBorderState { old_diameter: from, new_diameter: to, lerp_millis: speed, ..w },
        ),
        old(c)@.border matches Some(w) ==> final(c)@.border == Some(
            WorldBorderState { old_diameter: to, new_diameter: to, lerp_millis: 0, ..w },
        ),
        old(d)@.border matches Some(w) ==> final(d)@.border == Some(
            WorldBorderState { warning_time: speed, ..w },
        ),
        old(e)@.border matches Some(w) ==> final(e)@.border == Some(
            WorldBorderState { warning_blocks: speed, ..w },
        ),
        old(a)@.border is None ==> final(a)@.border is None,
        old(b)@.border is None ==> final(b)@.border is None,
        old(c)@.border is None ==> final(c)@.border is None,
        old(d)@.border is None ==> final(d)@.border is None,
        old(e)@.border is None ==> final(e)@.border is None,
        events.0 == Some(
            HudEvent::WorldBorderChanged {
                action: WorldBorderAction::Center,
                current: final(a)@.border,
                applied: old(a)@.border is Some,
            },
        ),
        final(a)@ == (HudModel { border: final(a)@.border, ..old(a)@ }),
        final(b)@ == (HudModel { border: final(b)@.border, ..old(b)@ }),
        final(c)@ == (HudModel { border: final(c)@.border, ..old(c)@ }),
        final(d)@ == (HudModel { border: final(d)@.border, ..old(d)@ }),
        final(e)@ == (HudModel { border: final(e)@.border, ..old(e)@ }),
{
}

/// Abilities, the whole border, the difficulty, the spawn and a death of the own
/// player show as they came, and nothing else changes.
pub proof fn law_whole_updates_show_as_they_came(
    s: &mut HudState,
    update: HudUpdate,
    event: Option<HudEvent>,
)
    requires
        call_ensures(HudState::apply, (s, update), event),
    ensures
        ({
            let (a, b) = (old(s)@, final(s)@);
            &&& update matches HudUpdate::Abilities(x) ==> b == (HudModel { abilities: x, ..a })
            &&& update matches HudUpdate::InitializeBorder(x) ==> b == (HudModel {
                border: Some(x),
                ..a
            })
            &&& update matches HudUpdate::Difficulty(x) ==> b == (HudModel { difficulty: x, ..a })
            &&& update matches HudUpdate::SpawnPosition(x) ==> b == (HudModel {
                spawn: Some(x),
                ..a
            })
            &&& update matches HudUpdate::Death { player_id, information } ==> (if a.entity_id
                == Some(player_id) {
                b == (HudModel { death: Some(information), ..a }) && event == Some(
                    HudEvent::Death { information },
                )
            } else {
                b == a && event is None
            })
        }),
{
}

/// Packets ask for what they hold, field by field.
pub proof fn law_hud_packets_ask_for_what_they_hold(packet: HudPacket, update: HudUpdate)
    requires
        call_ensures(decode_update, (packet,), update),
    ensures
        packet is Abilities ==> (update matches HudUpdate::Abilities(a) && a.raw_flags
            == packet->Abilities_flags as u8 && a.flying_speed == packet->flying_speed
            && a.walking_speed == packet->walking_speed),
        packet is SetCooldown ==> (update matches HudUpdate::Cooldown { group, ticks } && group
            == packet->cooldown_group && ticks == packet->cooldown_ticks),
        packet is EntityEffect ==> (update matches HudUpdate::SetEffect { entity_id, effect }
            && entity_id == packet->EntityEffect_entity_id && effect.id
            == packet->EntityEffect_effect_id && effect.amplifier == packet->amplifier
            && effect.duration_ticks == packet->duration && effect.flags.raw
            == packet->EntityEffect_flags),
        packet is RemoveEntityEffect ==> (update matches HudUpdate::RemoveEffect {
            entity_id,
            effect_id,
        } && entity_id == packet->RemoveEntityEffect_entity_id && effect_id
            == packet->RemoveEntityEffect_effect_id),
        packet is EntityUpdateAttributes ==> (update matches HudUpdate::Attributes {
            entity_id,
            attributes,
        } && entity_id == packet->EntityUpdateAttributes_entity_id && attributes@.len()
            == packet->properties@.len()),
        packet is DeathCombatEvent ==> (update matches HudUpdate::Death { player_id, information }
            && player_id == packet->player_id && information.player_id == player_id),
        packet is InitializeWorldBorder ==> (update matches HudUpdate::InitializeBorder(w)
            && w.center_x == packet->InitializeWorldBorder_x && w.center_z
            == packet->InitializeWorldBorder_z && w.old_diameter
            == packet->InitializeWorldBorder_old_diameter && w.new_diameter
            == packet->InitializeWorldBorder_new_diameter && w.lerp_millis
            == packet->InitializeWorldBorder_speed && w.portal_teleport_boundary
            == packet->portal_teleport_boundary && w.warning_blocks
            == packet->InitializeWorldBorder_warning_blocks && w.warning_time
            == packet->InitializeWorldBorder_warning_time),
        packet is WorldBorderCenter ==> (update matches HudUpdate::BorderCenter { x, z } && x
            == packet->WorldBorderCenter_x && z == packet->WorldBorderCenter_z),
        packet is WorldBorderLerpSize ==> (update matches HudUpdate::BorderLerp {
            old_diameter,
            new_diameter,
            speed,
        } && old_diameter == packet->WorldBorderLerpSize_old_diameter && new_diameter
            == packet->WorldBorderLerpSize_new_diameter && speed
            == packet->WorldBorderLerpSize_speed),
        packet is WorldBorderSize ==> (update matches HudUpdate::BorderSize { diameter } && diameter
            == packet->diameter),
        packet is WorldBorderWarningDelay ==> (update matches HudUpdate::BorderWarningTime {
            warning_time,
        } && warning_time == packet->WorldBorderWarningDelay_warning_time),
        packet is WorldBorderWarningReach ==> (update matches HudUpdate::BorderWarningBlocks {
            warning_blocks,
        } && warning_blocks == packet->WorldBorderWarningReach_warning_blocks),
        packet is Difficulty ==> (update matches HudUpdate::Difficulty(d) && d.locked
            == packet->difficulty_locked && (d.difficulty is Peaceful <==> packet->difficulty == 0)
            && (d.difficulty is Easy <==> packet->difficulty == 1) && (d.difficulty is Normal
            <==> packet->difficulty == 2) && (d.difficulty is Hard <==> packet->difficulty == 3)),
        packet is SpawnPosition ==> (update matches HudUpdate::SpawnPosition(p) && p.position
            == packet->location && p.angle == packet->angle),
{
}

/// Attributes of a packet are kept one by one, in order, and a death with its message.
pub proof fn law_attributes_and_deaths_are_kept(
    packet: HudPacket,
    update: HudUpdate,
    i: int,
    wire: WireAttribute,
    kept: Attribute,
    tag: Nbt,
    text: TextComponent,
)
    requires
        call_ensures(decode_update, (packet,), update),
        call_ensures(attribute, (&wire,), kept),
        call_ensures(TextComponent::from_nbt, (&tag,), text),
    ensures
        packet is EntityUpdateAttributes && 0 <= i < packet->properties@.len()
            && packet->properties@[i] == wire ==> (update matches HudUpdate::Attributes {
            attributes,
            ..
        } && attributes@[i].key == kept.key && attributes@[i].base_value == kept.base_value
            && attributes@[i].modifiers@.len() == kept.modifiers@.len()),
        packet is DeathCombatEvent && packet->message == tag ==> (update matches HudUpdate::Death {
            information,
            ..
        } && information.message@ == text@),
{
    if packet is EntityUpdateAttributes && 0 <= i < packet->properties@.len() {
        if let HudUpdate::Attributes { attributes, .. } = update {
            assert(crate::minecraft::hud::attribute_of(packet->properties@[i], attributes@[i]));
        }
    }
}

} // verus!
