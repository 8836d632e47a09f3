//! Headless player-facing HUD state.
//!
//! This module complements the local-player, inventory and player-list stores
//! with one snapshot-readable projection of every remaining HUD datum.
use std::sync::Arc;
use vstd::prelude::*;
use vstd::std_specs::cmp::PartialEqSpecImpl;

use crate::float_bits::{
    doubles_equal, same_double, same_single, singles_equal, whole_i32, whole_number, Double,
};
use crate::minecraft::inventory::{PacketHeldItemSlot, PacketSetPlayerInventory};
use crate::minecraft::item::{empty_slot, no_item, Slot};
use crate::minecraft::nbt::Nbt;
use crate::minecraft::text::{fresh_budget, TextComponent};
use crate::minecraft::text_nbt::nbt_component;
use crate::sharing::share;
use crate::sorted_map::{MapKey, Order, SortedMap};

verus! {

pub const MAX_COOLDOWNS: usize = 1_024;

pub const MAX_EFFECTS: usize = 256;

pub const MAX_ATTRIBUTES: usize = 128;

pub const MAX_ATTRIBUTE_MODIFIERS: usize = 64;

/// Bits of twenty, full health.
pub const FULL_HEALTH: u32 = 0x41A0_0000;

/// Bits of five, the starting saturation.
pub const START_SATURATION: u32 = 0x40A0_0000;

/// Health and saturation are the bits of single-precision numbers.
#[derive(Debug, Clone, Copy)]
pub struct Vitals {
    pub health: u32,
    pub food: i32,
    pub saturation: u32,
}

impl PartialEq for Vitals {
    fn eq(&self, other: &Self) -> (r: bool) {
        same_single(self.health, other.health)
            && self.food == other.food
            && same_single(self.saturation, other.saturation)
    }
}

impl PartialEqSpecImpl for Vitals {
    open spec fn obeys_eq_spec() -> bool {
        true
    }

    open spec fn eq_spec(&self, other: &Self) -> bool {
        &&& singles_equal(self.health, other.health)
        &&& self.food == other.food
        &&& singles_equal(self.saturation, other.saturation)
    }
}

/// The bar holds the bits of a single-precision number.
#[derive(Debug, Clone, Copy)]
pub struct Experience {
    pub bar: u32,
    pub level: i32,
    pub total: i32,
}

impl PartialEq for Experience {
    fn eq(&self, other: &Self) -> (r: bool) {
        same_single(self.bar, other.bar)
            && self.level == other.level
            && self.total == other.total
    }
}

impl PartialEqSpecImpl for Experience {
    open spec fn obeys_eq_spec() -> bool {
        true
    }

    open spec fn eq_spec(&self, other: &Self) -> bool {
        &&& singles_equal(self.bar, other.bar)
        &&& self.level == other.level
        &&& self.total == other.total
    }
}

#[derive(Debug, Clone, Copy, PartialEq, Eq, Structural)]
pub enum GameMode {
    Survival,
    Creative,
    Adventure,
    Spectator,
    /// Raw protocol integer, or raw float bits for a non-integral game event.
    Unknown(i32),
}

/// The game mode with this number.
pub open spec fn mode_numbered(value: i32) -> GameMode {
    if value == 0 {
        GameMode::Survival
    } else if value == 1 {
        GameMode::Creative
    } else if value == 2 {
        GameMode::Adventure
    } else if value == 3 {
        GameMode::Spectator
    } else {
        GameMode::Unknown(value)
    }
}

/// The game mode that a game event's floating-point value stands for.
pub open spec fn mode_of_bits(bits: u32) -> GameMode {
    match whole_i32(bits) {
        Some(value) => mode_numbered(value),
        None => GameMode::Unknown(bits as i32),
    }
}

impl GameMode {
    pub fn from_i32(value: i32) -> (m: Self)
        ensures
            m == mode_numbered(value),
    {
        match value {
            0 => GameMode::Survival,
            1 => GameMode::Creative,
            2 => GameMode::Adventure,
            3 => GameMode::Spectator,
            other => GameMode::Unknown(other),
        }
    }

    /// The game mode that a game event's floating-point value stands for.
    pub fn from_wire_float(bits: u32) -> (m: Self)
        ensures
            m == mode_of_bits(bits),
    {
        match whole_number(bits) {
            Some(value) => GameMode::from_i32(value),
            None => GameMode::Unknown(bits as i32),
        }
    }
}

impl Default for GameMode {
    fn default() -> (m: Self)
        ensures
            m == GameMode::Unknown(-1i32),
    {
        GameMode::Unknown(-1)
    }
}

/// Speeds are the bits of single-precision numbers.
#[derive(Debug, Clone, Copy)]
pub struct Abilities {
    pub raw_flags: u8,
    pub flying_speed: u32,
    pub walking_speed: u32,
}

impl PartialEq for Abilities {
    fn eq(&self, other: &Self) -> (r: bool) {
        self.raw_flags == other.raw_flags
            && same_single(self.flying_speed, other.flying_speed)
            && same_single(self.walking_speed, other.walking_speed)
    }
}

impl PartialEqSpecImpl for Abilities {
    open spec fn obeys_eq_spec() -> bool {
        true
    }

    open spec fn eq_spec(&self, other: &Self) -> bool {
        &&& self.raw_flags == other.raw_flags
        &&& singles_equal(self.flying_speed, other.flying_speed)
        &&& singles_equal(self.walking_speed, other.walking_speed)
    }
}

/// Whether bit `n` is set.
pub open spec fn flag(raw: u8, n: u8) -> bool {
    (raw >> n) & 1 == 1
}

/// Testing a mask of one bit.
pub proof fn lemma_flags(raw: u8)
    ensures
        (raw & 0x01 != 0) == flag(raw, 0),
        (raw & 0x02 != 0) == flag(raw, 1),
        (raw & 0x04 != 0) == flag(raw, 2),
        (raw & 0x08 != 0) == flag(raw, 3),
{
    assert((raw & 0x01 != 0) == ((raw >> 0u8) & 1 == 1) && (raw & 0x02 != 0) == ((raw >> 1u8) & 1
        == 1) && (raw & 0x04 != 0) == ((raw >> 2u8) & 1 == 1) && (raw & 0x08 != 0) == ((raw >> 3u8)
        & 1 == 1)) by (bit_vector);
}

impl Abilities {
    pub fn invulnerable(self) -> (b: bool)
        ensures
            b == flag(self.raw_flags, 0),
    {
        proof {
            lemma_flags(self.raw_flags);
        }
        self.raw_flags & 0x01 != 0
    }

    pub fn flying(self) -> (b: bool)
        ensures
            b == flag(self.raw_flags, 1),
    {
        proof {
            lemma_flags(self.raw_flags);
        }
        self.raw_flags & 0x02 != 0
    }

    pub fn may_fly(self) -> (b: bool)
        ensures
            b == flag(self.raw_flags, 2),
    {
        proof {
            lemma_flags(self.raw_flags);
        }
        self.raw_flags & 0x04 != 0
    }

    pub fn instant_build(self) -> (b: bool)
        ensures
            b == flag(self.raw_flags, 3),
    {
        proof {
            lemma_flags(self.raw_flags);
        }
        self.raw_flags & 0x08 != 0
    }
}

#[derive(Debug, Clone, Copy, PartialEq, Eq)]
pub struct StatusEffect {
    pub id: i32,
    pub amplifier: i32,
    pub duration_ticks: i32,
    pub flags: EffectFlags,
}

#[derive(Debug, Clone, Copy, PartialEq, Eq)]
pub struct EffectFlags {
    pub raw: u8,
}

impl EffectFlags {
    pub fn ambient(self) -> (b: bool)
        ensures
            b == flag(self.raw, 0),
    {
        proof {
            lemma_flags(self.raw);
        }
        self.raw & 0x01 != 0
    }

    pub fn show_particles(self) -> (b: bool)
        ensures
            b == flag(self.raw, 1),
    {
        proof {
            lemma_flags(self.raw);
        }
        self.raw & 0x02 != 0
    }

    pub fn show_icon(self) -> (b: bool)
        ensures
            b == flag(self.raw, 2),
    {
        proof {
            lemma_flags(self.raw);
        }
        self.raw & 0x04 != 0
    }

    pub fn blend(self) -> (b: bool)
        ensures
            b == flag(self.raw, 3),
    {
        proof {
            lemma_flags(self.raw);
        }
        self.raw & 0x08 != 0
    }
}

#[derive(Debug, Clone, Copy, PartialEq, Eq, PartialOrd, Ord)]
pub enum AttributeKey {
    Armor,
    ArmorToughness,
    AttackDamage,
    AttackKnockback,
    AttackSpeed,
    BlockBreakSpeed,
    BlockInteractionRange,
    EntityInteractionRange,
    FallDamageMultiplier,
    FlyingSpeed,
    FollowRange,
    Gravity,
    JumpStrength,
    KnockbackResistance,
    Luck,
    MaxAbsorption,
    MaxHealth,
    MovementSpeed,
    SafeFallDistance,
    Scale,
    SpawnReinforcements,
    StepHeight,
}

/// Where an attribute stands in the order of attributes.
pub open spec fn attribute_rank(key: AttributeKey) -> int {
    match key {
        AttributeKey::Armor => 0,
        AttributeKey::ArmorToughness => 1,
        AttributeKey::AttackDamage => 2,
        AttributeKey::AttackKnockback => 3,
        AttributeKey::AttackSpeed => 4,
        AttributeKey::BlockBreakSpeed => 5,
        AttributeKey::BlockInteractionRange => 6,
        AttributeKey::EntityInteractionRange => 7,
        AttributeKey::FallDamageMultiplier => 8,
        AttributeKey::FlyingSpeed => 9,
        AttributeKey::FollowRange => 10,
        AttributeKey::Gravity => 11,
        AttributeKey::JumpStrength => 12,
        AttributeKey::KnockbackResistance => 13,
        AttributeKey::Luck => 14,
        AttributeKey::MaxAbsorption => 15,
        AttributeKey::MaxHealth => 16,
        AttributeKey::MovementSpeed => 17,
        AttributeKey::SafeFallDistance => 18,
        AttributeKey::Scale => 19,
        AttributeKey::SpawnReinforcements => 20,
        AttributeKey::StepHeight => 21,
    }
}

fn attribute_place(key: &AttributeKey) -> (r: u8)
    ensures
        r == attribute_rank(*key),
{
    match key {
        AttributeKey::Armor => 0,
        AttributeKey::ArmorToughness => 1,
        AttributeKey::AttackDamage => 2,
        AttributeKey::AttackKnockback => 3,
        AttributeKey::AttackSpeed => 4,
        AttributeKey::BlockBreakSpeed => 5,
        AttributeKey::BlockInteractionRange => 6,
        AttributeKey::EntityInteractionRange => 7,
        AttributeKey::FallDamageMultiplier => 8,
        AttributeKey::FlyingSpeed => 9,
        AttributeKey::FollowRange => 10,
        AttributeKey::Gravity => 11,
        AttributeKey::JumpStrength => 12,
        AttributeKey::KnockbackResistance => 13,
        AttributeKey::Luck => 14,
        AttributeKey::MaxAbsorption => 15,
        AttributeKey::MaxHealth => 16,
        AttributeKey::MovementSpeed => 17,
        AttributeKey::SafeFallDistance => 18,
        AttributeKey::Scale => 19,
        AttributeKey::SpawnReinforcements => 20,
        AttributeKey::StepHeight => 21,
    }
}

impl MapKey for AttributeKey {
    type Key = AttributeKey;

    open spec fn key(&self) -> AttributeKey {
        *self
    }

    open spec fn less(a: AttributeKey, b: AttributeKey) -> bool {
        attribute_rank(a) < attribute_rank(b)
    }

    proof fn irreflexive(a: AttributeKey) {
    }

    proof fn transitive(a: AttributeKey, b: AttributeKey, c: AttributeKey) {
    }

    fn compare(&self, other: &Self) -> (o: Order) {
        let a: u8 = attribute_place(self);
        let b: u8 = attribute_place(other);
        if a < b {
            Order::Less
        } else if a > b {
            Order::Greater
        } else {
            Order::Equal
        }
    }

    fn duplicate(&self) -> (k: Self)
        ensures
            k == *self,
    {
        *self
    }
}

/// The base value holds the bits of a double-precision number.
#[derive(Debug, PartialEq)]
pub struct Attribute {
    pub key: AttributeKey,
    pub base_value: Double,
    pub modifiers: Arc<Vec<AttributeModifier>>,
    pub modifiers_truncated: bool,
}

/// The amount holds the bits of a double-precision number.
#[derive(Debug, PartialEq)]
pub struct AttributeModifier {
    pub id: String,
    pub amount: Double,
    pub operation: AttributeOperation,
}

#[derive(Debug, Clone, Copy, PartialEq, Eq)]
pub enum AttributeOperation {
    AddValue,
    AddMultipliedBase,
    AddMultipliedTotal,
    Unknown(i8),
}

/// The operation with this number.
pub open spec fn operation_numbered(value: i8) -> AttributeOperation {
    if value == 0 {
        AttributeOperation::AddValue
    } else if value == 1 {
        AttributeOperation::AddMultipliedBase
    } else if value == 2 {
        AttributeOperation::AddMultipliedTotal
    } else {
        AttributeOperation::Unknown(value)
    }
}

impl From<i8> for AttributeOperation {
    fn from(value: i8) -> (o: Self) {
        match value {
            0 => AttributeOperation::AddValue,
            1 => AttributeOperation::AddMultipliedBase,
            2 => AttributeOperation::AddMultipliedTotal,
            other => AttributeOperation::Unknown(other),
        }
    }
}

impl vstd::std_specs::convert::FromSpecImpl<i8> for AttributeOperation {
    open spec fn obeys_from_spec() -> bool {
        true
    }

    open spec fn from_spec(value: i8) -> Self {
        operation_numbered(value)
    }
}

#[derive(Debug, PartialEq)]
pub struct DeathInformation {
    pub player_id: i32,
    pub message: TextComponent,
}

#[derive(Debug, PartialEq)]
pub struct RespawnState {
    pub count: u64,
    pub game_mode: GameMode,
    pub previous_game_mode: Option<GameMode>,
    pub dimension_name: String,
    pub last_death_location: Option<GlobalPosition>,
    pub portal_cooldown: i32,
    pub sea_level: i32,
    pub copy_metadata: u8,
}

impl Clone for RespawnState {
    fn clone(&self) -> (r: Self)
        ensures
            r == *self,
    {
        RespawnState {
            count: self.count,
            game_mode: self.game_mode,
            previous_game_mode: self.previous_game_mode,
            dimension_name: self.dimension_name.clone(),
            last_death_location: match &self.last_death_location {
                Some(p) => Some(p.clone()),
                None => None,
            },
            portal_cooldown: self.portal_cooldown,
            sea_level: self.sea_level,
            copy_metadata: self.copy_metadata,
        }
    }
}

impl RespawnState {
    /// No spawn is known yet.
    pub open spec fn is_unset(self) -> bool {
        &&& self.count == 0
        &&& self.game_mode == GameMode::Unknown(-1i32)
        &&& self.previous_game_mode is None
        &&& self.dimension_name@ == Seq::<char>::empty()
        &&& self.last_death_location is None
        &&& self.portal_cooldown == 0
        &&& self.sea_level == 0
        &&& self.copy_metadata == 0
    }
}

impl Default for RespawnState {
    fn default() -> (r: Self)
        ensures
            r.is_unset(),
    {
        RespawnState {
            count: 0,
            game_mode: GameMode::Unknown(-1),
            previous_game_mode: None,
            dimension_name: String::new(),
            last_death_location: None,
            portal_cooldown: 0,
            sea_level: 0,
            copy_metadata: 0,
        }
    }
}

#[derive(Debug, PartialEq)]
pub struct GlobalPosition {
    pub dimension_name: String,
    pub position: BlockPosition,
}

impl Clone for GlobalPosition {
    fn clone(&self) -> (r: Self)
        ensures
            r == *self,
    {
        GlobalPosition {
            dimension_name: self.dimension_name.clone(),
            position: self.position,
        }
    }
}

#[derive(Debug, Clone, Copy, PartialEq, Eq)]
pub struct BlockPosition {
    pub x: i32,
    pub y: i16,
    pub z: i32,
}

/// Coordinates and diameters are the bits of double-precision numbers.
#[derive(Debug, Clone, Copy)]
pub struct WorldBorderState {
    pub center_x: u64,
    pub center_z: u64,
    pub old_diameter: u64,
    pub new_diameter: u64,
    pub lerp_millis: i32,
    pub portal_teleport_boundary: i32,
    pub warning_blocks: i32,
    pub warning_time: i32,
}

impl PartialEq for WorldBorderState {
    fn eq(&self, other: &Self) -> (r: bool) {
        same_double(self.center_x, other.center_x)
            && same_double(self.center_z, other.center_z)
            && same_double(self.old_diameter, other.old_diameter)
            && same_double(self.new_diameter, other.new_diameter)
            && self.lerp_millis == other.lerp_millis
            && self.portal_teleport_boundary == other.portal_teleport_boundary
            && self.warning_blocks == other.warning_blocks
            && self.warning_time == other.warning_time
    }
}

impl PartialEqSpecImpl for WorldBorderState {
    open spec fn obeys_eq_spec() -> bool {
        true
    }

    open spec fn eq_spec(&self, other: &Self) -> bool {
        &&& doubles_equal(self.center_x, other.center_x)
        &&& doubles_equal(self.center_z, other.center_z)
        &&& doubles_equal(self.old_diameter, other.old_diameter)
        &&& doubles_equal(self.new_diameter, other.new_diameter)
        &&& self.lerp_millis == other.lerp_millis
        &&& self.portal_teleport_boundary == other.portal_teleport_boundary
        &&& self.warning_blocks == other.warning_blocks
        &&& self.warning_time == other.warning_time
    }
}

#[derive(Debug, Clone, Copy, PartialEq, Eq)]
pub enum WorldBorderAction {
    Initialize,
    Center,
    LerpSize,
    Size,
    WarningTime,
    WarningBlocks,
}

#[derive(Debug, Clone, Copy, PartialEq, Eq)]
pub struct WorldTime {
    pub age: i64,
    pub raw_day_time: i64,
    pub day_time: i64,
    pub ticking: bool,
}

/// Levels are the bits of single-precision numbers.
#[derive(Debug, Clone, Copy)]
pub struct WeatherState {
    pub raining: bool,
    pub rain_level: u32,
    pub thunder_level: u32,
}

impl PartialEq for WeatherState {
    fn eq(&self, other: &Self) -> (r: bool) {
        self.raining == other.raining
            && same_single(self.rain_level, other.rain_level)
            && same_single(self.thunder_level, other.thunder_level)
    }
}

impl PartialEqSpecImpl for WeatherState {
    open spec fn obeys_eq_spec() -> bool {
        true
    }

    open spec fn eq_spec(&self, other: &Self) -> bool {
        &&& self.raining == other.raining
        &&& singles_equal(self.rain_level, other.rain_level)
        &&& singles_equal(self.thunder_level, other.thunder_level)
    }
}

#[derive(Debug, Clone, Copy, PartialEq, Eq)]
pub enum Difficulty {
    Peaceful,
    Easy,
    Normal,
    Hard,
    Unknown(u8),
}

/// The difficulty with this number.
pub open spec fn difficulty_numbered(value: u8) -> Difficulty {
    if value == 0 {
        Difficulty::Peaceful
    } else if value == 1 {
        Difficulty::Easy
    } else if value == 2 {
        Difficulty::Normal
    } else if value == 3 {
        Difficulty::Hard
    } else {
        Difficulty::Unknown(value)
    }
}

impl From<u8> for Difficulty {
    fn from(value: u8) -> (d: Self) {
        match value {
            0 => Difficulty::Peaceful,
            1 => Difficulty::Easy,
            2 => Difficulty::Normal,
            3 => Difficulty::Hard,
            other => Difficulty::Unknown(other),
        }
    }
}

impl vstd::std_specs::convert::FromSpecImpl<u8> for Difficulty {
    open spec fn obeys_from_spec() -> bool {
        true
    }

    open spec fn from_spec(value: u8) -> Self {
        difficulty_numbered(value)
    }
}

#[derive(Debug, Clone, Copy, PartialEq, Eq)]
pub struct DifficultyState {
    pub difficulty: Difficulty,
    pub locked: bool,
}

/// The angle holds the bits of a single-precision number.
#[derive(Debug, Clone, Copy)]
pub struct SpawnPosition {
    pub position: BlockPosition,
    pub angle: u32,
}

impl PartialEq for SpawnPosition {
    fn eq(&self, other: &Self) -> (r: bool) {
        self.position.x == other.position.x
            && self.position.y == other.position.y
            && self.position.z == other.position.z
            && same_single(self.angle, other.angle)
    }
}

impl PartialEqSpecImpl for SpawnPosition {
    open spec fn obeys_eq_spec() -> bool {
        true
    }

    open spec fn eq_spec(&self, other: &Self) -> bool {
        &&& self.position.x == other.position.x
        &&& self.position.y == other.position.y
        &&& self.position.z == other.position.z
        &&& singles_equal(self.angle, other.angle)
    }
}

#[derive(Debug, PartialEq)]
pub enum HudEvent {
    VitalsChanged { vitals: Vitals },
    ExperienceChanged { experience: Experience },
    GameModeChanged { game_mode: GameMode },
    AbilitiesChanged { abilities: Abilities },
    HotbarChanged { selected_slot: i32, held_item: Slot, applied: bool },
    CooldownChanged { group: String, remaining_ticks: Option<i32>, applied: bool },
    EffectChanged { effect_id: i32, current: Option<StatusEffect>, applied: bool },
    AttributesChanged { applied: usize, rejected: usize },
    Death { information: Arc<DeathInformation> },
    Respawned { state: RespawnState },
    WorldBorderChanged {
        action: WorldBorderAction,
        current: Option<WorldBorderState>,
        applied: bool,
    },
    TimeChanged { time: WorldTime },
    WeatherChanged { weather: WeatherState },
    DifficultyChanged { difficulty: DifficultyState },
    SpawnPositionChanged { position: SpawnPosition },
    PlayerListChanged { updated: Vec<u128>, removed: Vec<u128>, rejected: usize },
}

/// A change to the HUD, out of one packet.
#[derive(Debug)]
pub enum HudUpdate {
    Abilities(Abilities),
    Cooldown { group: String, ticks: i32 },
    SetEffect { entity_id: i32, effect: StatusEffect },
    RemoveEffect { entity_id: i32, effect_id: i32 },
    Attributes { entity_id: i32, attributes: Vec<Attribute> },
    Death { player_id: i32, information: Arc<DeathInformation> },
    InitializeBorder(WorldBorderState),
    BorderCenter { x: u64, z: u64 },
    BorderLerp { old_diameter: u64, new_diameter: u64, speed: i32 },
    BorderSize { diameter: u64 },
    BorderWarningTime { warning_time: i32 },
    BorderWarningBlocks { warning_blocks: i32 },
    Difficulty(DifficultyState),
    SpawnPosition(SpawnPosition),
}

/// Where a player died.
pub struct DeathLocation {
    pub dimension_name: String,
    pub location: BlockPosition,
}

/// Spawn data of `login` and `respawn`.
pub struct SpawnInfo {
    pub name: String,
    pub gamemode: GameMode,
    pub previous_gamemode: u8,
    pub death: Option<DeathLocation>,
    pub portal_cooldown: i32,
    pub sea_level: i32,
    /// Index into the dimension types of the configuration.
    pub dimension: i32,
}

/// Entered the play state.
pub struct PacketLogin {
    pub entity_id: i32,
    pub is_hardcore: bool,
    pub world_state: SpawnInfo,
}

/// Respawned or changed dimension.
pub struct PacketRespawn {
    pub world_state: SpawnInfo,
    pub copy_metadata: u8,
}

/// Vital signs; floating-point fields are bits.
pub struct PacketUpdateHealth {
    pub health: u32,
    pub food: i32,
    pub food_saturation: u32,
}

/// World clock.
pub struct PacketUpdateTime {
    pub age: i64,
    pub time: i64,
    pub tick_day_time: bool,
}

/// A game event; its value is the bits of a single-precision number.
pub struct PacketGameStateChange {
    pub reason: u8,
    pub game_mode: u32,
}

/// The attributes a server may send.
#[derive(Debug, Clone, Copy, PartialEq, Eq)]
pub enum WireAttributeKey {
    GenericArmor,
    GenericArmorToughness,
    GenericAttackDamage,
    GenericAttackKnockback,
    GenericAttackSpeed,
    PlayerBlockBreakSpeed,
    PlayerBlockInteractionRange,
    PlayerEntityInteractionRange,
    GenericFallDamageMultiplier,
    GenericFlyingSpeed,
    GenericFollowRange,
    GenericGravity,
    GenericJumpStrength,
    GenericKnockbackResistance,
    GenericLuck,
    GenericMaxAbsorption,
    GenericMaxHealth,
    GenericMovementSpeed,
    GenericSafeFallDistance,
    GenericScale,
    ZombieSpawnReinforcements,
    GenericStepHeight,
}

/// One modifier of an attribute, as sent.
pub struct WireModifier {
    pub uuid: String,
    pub amount: u64,
    pub operation: i8,
}

/// One attribute, as sent.
pub struct WireAttribute {
    pub key: WireAttributeKey,
    pub value: u64,
    pub modifiers: Vec<WireModifier>,
}

/// The packets that carry HUD data only, as sent.
pub enum HudPacket {
    Abilities { flags: i8, flying_speed: u32, walking_speed: u32 },
    SetCooldown { cooldown_group: String, cooldown_ticks: i32 },
    EntityEffect { entity_id: i32, effect_id: i32, amplifier: i32, duration: i32, flags: u8 },
    RemoveEntityEffect { entity_id: i32, effect_id: i32 },
    EntityUpdateAttributes { entity_id: i32, properties: Vec<WireAttribute> },
    DeathCombatEvent { player_id: i32, message: Nbt },
    InitializeWorldBorder {
        x: u64,
        z: u64,
        old_diameter: u64,
        new_diameter: u64,
        speed: i32,
        portal_teleport_boundary: i32,
        warning_blocks: i32,
        warning_time: i32,
    },
    WorldBorderCenter { x: u64, z: u64 },
    WorldBorderLerpSize { old_diameter: u64, new_diameter: u64, speed: i32 },
    WorldBorderSize { diameter: u64 },
    WorldBorderWarningDelay { warning_time: i32 },
    WorldBorderWarningReach { warning_blocks: i32 },
    Difficulty { difficulty: u8, difficulty_locked: bool },
    SpawnPosition { location: BlockPosition, angle: u32 },
}

pub struct HudState {
    pub entity_id: Option<i32>,
    pub vitals: Vitals,
    pub experience: Experience,
    pub game_mode: GameMode,
    pub previous_game_mode: Option<GameMode>,
    pub hardcore: bool,
    pub abilities: Abilities,
    pub selected_hotbar_slot: i32,
    pub held_item: Slot,
    pub hotbar: SortedMap<i32, Slot>,
    pub cooldowns: SortedMap<String, i32>,
    pub active_effects: SortedMap<i32, StatusEffect>,
    pub attributes: SortedMap<AttributeKey, Attribute>,
    pub death: Option<Arc<DeathInformation>>,
    pub respawn: RespawnState,
    pub world_border: Option<WorldBorderState>,
    pub time: WorldTime,
    pub weather: WeatherState,
    pub difficulty: DifficultyState,
    pub spawn_position: Option<SpawnPosition>,
}

/// What the HUD shows.
#[verifier::ext_equal]
pub struct HudModel {
    pub entity_id: Option<i32>,
    pub vitals: Vitals,
    pub experience: Experience,
    pub game_mode: GameMode,
    pub previous_game_mode: Option<GameMode>,
    pub hardcore: bool,
    pub abilities: Abilities,
    pub selected: i32,
    pub held_item: Slot,
    pub hotbar: Map<int, Slot>,
    pub cooldowns: Map<Seq<char>, i32>,
    pub effects: Map<int, StatusEffect>,
    pub attributes: Map<AttributeKey, Attribute>,
    pub death: Option<Arc<DeathInformation>>,
    pub respawn: RespawnState,
    pub border: Option<WorldBorderState>,
    pub time: WorldTime,
    pub weather: WeatherState,
    pub difficulty: DifficultyState,
    pub spawn: Option<SpawnPosition>,
}

impl View for HudState {
    type V = HudModel;

    open spec fn view(&self) -> HudModel {
        HudModel {
            entity_id: self.entity_id,
            vitals: self.vitals,
            experience: self.experience,
            game_mode: self.game_mode,
            previous_game_mode: self.previous_game_mode,
            hardcore: self.hardcore,
            abilities: self.abilities,
            selected: self.selected_hotbar_slot,
            held_item: self.held_item,
            hotbar: self.hotbar@,
            cooldowns: self.cooldowns@,
            effects: self.active_effects@,
            attributes: self.attributes@,
            death: self.death,
            respawn: self.respawn,
            border: self.world_border,
            time: self.time,
            weather: self.weather,
            difficulty: self.difficulty,
            spawn: self.spawn_position,
        }
    }
}

/// Whether a key may be set in a map of limited size.
pub open spec fn has_place<K, V>(m: Map<K, V>, k: K, max: usize) -> bool {
    m.contains_key(k) || m.len() < max
}

/// The attributes set in order, each where it has a place; with the number that
/// had none.
pub open spec fn attributes_set(m: Map<AttributeKey, Attribute>, s: Seq<Attribute>) -> (
    Map<AttributeKey, Attribute>,
    nat,
)
    decreases s.len(),
{
    if s.len() == 0 {
        (m, 0)
    } else {
        let (before, rejected) = attributes_set(m, s.drop_last());
        if has_place(before, s.last().key, MAX_ATTRIBUTES) {
            (before.insert(s.last().key, s.last()), rejected)
        } else {
            (before, rejected + 1)
        }
    }
}

/// The value of a key, where it has one.
pub open spec fn value_of<K, V>(m: Map<K, V>, k: K) -> Option<V> {
    if m.contains_key(k) {
        Some(m[k])
    } else {
        None
    }
}

impl HudModel {
    /// The maps keep within their bounds, and the selection within the hotbar.
    pub open spec fn valid(self) -> bool {
        &&& self.hotbar.dom().finite()
        &&& forall|k: int| #[trigger] self.hotbar.contains_key(k) ==> 0 <= k <= 8
        &&& self.cooldowns.dom().finite()
        &&& self.cooldowns.len() <= MAX_COOLDOWNS
        &&& self.effects.dom().finite()
        &&& self.effects.len() <= MAX_EFFECTS
        &&& self.attributes.dom().finite()
        &&& self.attributes.len() <= MAX_ATTRIBUTES
        &&& 0 <= self.selected <= 8
    }

    /// The HUD after one part of the world border changed; before the border
    /// is known nothing changes.
    pub open spec fn with_border(self, border: WorldBorderState) -> HudModel {
        match self.border {
            Some(_) => HudModel { border: Some(border), ..self },
            None => self,
        }
    }

    /// The event of such a change.
    pub open spec fn border_report(self, action: WorldBorderAction, border: WorldBorderState) -> Option<
        HudEvent,
    > {
        Some(
            HudEvent::WorldBorderChanged {
                action,
                current: self.with_border(border).border,
                applied: self.border is Some,
            },
        )
    }

    /// What an update does, and what it reports. Updates about other entities
    /// than the bot do nothing.
    pub open spec fn applied(self, update: HudUpdate) -> (HudModel, Option<HudEvent>) {
        match update {
            HudUpdate::Abilities(abilities) => (
                HudModel { abilities, ..self },
                Some(HudEvent::AbilitiesChanged { abilities }),
            ),
            HudUpdate::Cooldown { group, ticks } => {
                let applied = if ticks <= 0 {
                    self.cooldowns.contains_key(group@)
                } else {
                    has_place(self.cooldowns, group@, MAX_COOLDOWNS)
                };
                let cooldowns = if !applied {
                    self.cooldowns
                } else if ticks <= 0 {
                    self.cooldowns.remove(group@)
                } else {
                    self.cooldowns.insert(group@, ticks)
                };
                (
                    HudModel { cooldowns, ..self },
                    Some(
                        HudEvent::CooldownChanged {
                            group,
                            remaining_ticks: value_of(cooldowns, group@),
                            applied,
                        },
                    ),
                )
            },
            HudUpdate::SetEffect { entity_id, effect } => if Some(entity_id) != self.entity_id {
                (self, None)
            } else {
                let id = effect.id;
                let applied = id >= 0 && has_place(self.effects, id as int, MAX_EFFECTS);
                let effects = if applied {
                    self.effects.insert(id as int, effect)
                } else {
                    self.effects
                };
                (
                    HudModel { effects, ..self },
                    Some(
                        HudEvent::EffectChanged {
                            effect_id: id,
                            current: value_of(effects, id as int),
                            applied,
                        },
                    ),
                )
            },
            HudUpdate::RemoveEffect { entity_id, effect_id } => if Some(entity_id)
                != self.entity_id {
                (self, None)
            } else {
                (
                    HudModel { effects: self.effects.remove(effect_id as int), ..self },
                    Some(
                        HudEvent::EffectChanged {
                            effect_id,
                            current: None,
                            applied: self.effects.contains_key(effect_id as int),
                        },
                    ),
                )
            },
            HudUpdate::Attributes { entity_id, attributes } => if Some(entity_id)
                != self.entity_id {
                (self, None)
            } else {
                let (set, rejected) = attributes_set(self.attributes, attributes@);
                (
                    HudModel { attributes: set, ..self },
                    Some(
                        HudEvent::AttributesChanged {
                            applied: (attributes@.len() - rejected) as usize,
                            rejected: rejected as usize,
                        },
                    ),
                )
            },
            HudUpdate::Death { player_id, information } => if Some(player_id) != self.entity_id {
                (self, None)
            } else {
                (
                    HudModel { death: Some(information), ..self },
                    Some(HudEvent::Death { information }),
                )
            },
            HudUpdate::InitializeBorder(border) => (
                HudModel { border: Some(border), ..self },
                Some(
                    HudEvent::WorldBorderChanged {
                        action: WorldBorderAction::Initialize,
                        current: Some(border),
                        applied: true,
                    },
                ),
            ),
            HudUpdate::BorderCenter { x, z } => {
                let border = WorldBorderState {
                    center_x: x,
                    center_z: z,
                    ..self.border->0
                };
                (self.with_border(border), self.border_report(WorldBorderAction::Center, border))
            },
            HudUpdate::BorderLerp { old_diameter, new_diameter, speed } => {
                let border = WorldBorderState {
                    old_diameter,
                    new_diameter,
                    lerp_millis: speed,
                    ..self.border->0
                };
                (self.with_border(border), self.border_report(WorldBorderAction::LerpSize, border))
            },
            HudUpdate::BorderSize { diameter } => {
                let border = WorldBorderState {
                    old_diameter: diameter,
                    new_diameter: diameter,
                    lerp_millis: 0,
                    ..self.border->0
                };
                (self.with_border(border), self.border_report(WorldBorderAction::Size, border))
            },
            HudUpdate::BorderWarningTime { warning_time } => {
                let border = WorldBorderState { warning_time, ..self.border->0 };
                (
                    self.with_border(border),
                    self.border_report(WorldBorderAction::WarningTime, border),
                )
            },
            HudUpdate::BorderWarningBlocks { warning_blocks } => {
                let border = WorldBorderState { warning_blocks, ..self.border->0 };
                (
                    self.with_border(border),
                    self.border_report(WorldBorderAction::WarningBlocks, border),
                )
            },
            HudUpdate::Difficulty(difficulty) => (
                HudModel { difficulty, ..self },
                Some(HudEvent::DifficultyChanged { difficulty }),
            ),
            HudUpdate::SpawnPosition(position) => (
                HudModel { spawn: Some(position), ..self },
                Some(HudEvent::SpawnPositionChanged { position }),
            ),
        }
    }

    /// The HUD after the server described where the player spawns.
    pub open spec fn spawned(self, spawn: SpawnInfo, count: u64, copy_metadata: u8) -> HudModel {
        let previous = if spawn.previous_gamemode == u8::MAX {
            None
        } else {
            Some(mode_numbered(spawn.previous_gamemode as i32))
        };
        HudModel {
            game_mode: spawn.gamemode,
            previous_game_mode: previous,
            respawn: RespawnState {
                count,
                game_mode: spawn.gamemode,
                previous_game_mode: previous,
                dimension_name: spawn.name,
                last_death_location: match spawn.death {
                    Some(death) => Some(
                        GlobalPosition {
                            dimension_name: death.dimension_name,
                            position: death.location,
                        },
                    ),
                    None => None,
                },
                portal_cooldown: spawn.portal_cooldown,
                sea_level: spawn.sea_level,
                copy_metadata,
            },
            ..self
        }
    }

    /// What a game event does, and what it reports.
    pub open spec fn game_state(self, reason: u8, bits: u32) -> (HudModel, Option<HudEvent>) {
        let weather = if reason == 1 {
            Some(WeatherState { raining: true, ..self.weather })
        } else if reason == 2 {
            Some(WeatherState { raining: false, ..self.weather })
        } else if reason == 7 {
            Some(WeatherState { rain_level: bits, ..self.weather })
        } else if reason == 8 {
            Some(WeatherState { thunder_level: bits, ..self.weather })
        } else {
            None
        };
        if reason == 3 {
            let game_mode = mode_of_bits(bits);
            (
                HudModel {
                    game_mode,
                    respawn: RespawnState { game_mode, ..self.respawn },
                    ..self
                },
                Some(HudEvent::GameModeChanged { game_mode }),
            )
        } else {
            match weather {
                Some(weather) => (
                    HudModel { weather, ..self },
                    Some(HudEvent::WeatherChanged { weather }),
                ),
                None => (self, None),
            }
        }
    }

    /// The report of the current hotbar.
    pub open spec fn hotbar_report(self, applied: bool) -> HudEvent {
        HudEvent::HotbarChanged {
            selected_slot: self.selected,
            held_item: self.held_item,
            applied,
        }
    }
}

/// Setting attributes keeps their bound, and rejects no more than there are.
proof fn lemma_attributes_set(m: Map<AttributeKey, Attribute>, s: Seq<Attribute>)
    requires
        m.dom().finite(),
        m.len() <= MAX_ATTRIBUTES,
    ensures
        attributes_set(m, s).0.dom().finite(),
        attributes_set(m, s).0.len() <= MAX_ATTRIBUTES,
        attributes_set(m, s).1 <= s.len(),
    decreases s.len(),
{
    if s.len() > 0 {
        lemma_attributes_set(m, s.drop_last());
        let (before, _) = attributes_set(m, s.drop_last());
        assert(before.insert(s.last().key, s.last()).dom() =~= before.dom().insert(s.last().key));
    }
}

impl HudModel {
    /// Nothing is known yet: the vitals of a spawn, and nothing else.
    pub open spec fn is_fresh(self) -> bool {
        &&& self == (HudModel {
            entity_id: None,
            vitals: Vitals { health: FULL_HEALTH, food: 20, saturation: START_SATURATION },
            experience: Experience { bar: 0, level: 0, total: 0 },
            game_mode: GameMode::Unknown(-1i32),
            previous_game_mode: None,
            hardcore: false,
            abilities: Abilities { raw_flags: 0, flying_speed: 0, walking_speed: 0 },
            selected: 0,
            held_item: no_item(),
            hotbar: Map::empty(),
            cooldowns: Map::empty(),
            effects: Map::empty(),
            attributes: Map::empty(),
            death: None,
            respawn: self.respawn,
            border: None,
            time: WorldTime { age: 0, raw_day_time: 0, day_time: 0, ticking: false },
            weather: WeatherState { raining: false, rain_level: 0, thunder_level: 0 },
            difficulty: DifficultyState {
                difficulty: Difficulty::Unknown(u8::MAX),
                locked: false,
            },
            spawn: None,
        })
        &&& self.respawn.is_unset()
    }
}

impl HudState {
    /// The maps keep within their bounds, and the selection within the hotbar.
    pub open spec fn valid(&self) -> bool {
        self@.valid()
    }

    /// The HUD before anything is known.
    pub fn new() -> (s: Self)
        ensures
            s.valid(),
            s@.is_fresh(),
    {
        HudState {
            entity_id: None,
            vitals: Vitals { health: FULL_HEALTH, food: 20, saturation: START_SATURATION },
            experience: Experience { bar: 0, level: 0, total: 0 },
            game_mode: GameMode::Unknown(-1),
            previous_game_mode: None,
            hardcore: false,
            abilities: Abilities { raw_flags: 0, flying_speed: 0, walking_speed: 0 },
            selected_hotbar_slot: 0,
            held_item: empty_slot(),
            hotbar: SortedMap::new(),
            cooldowns: SortedMap::new(),
            active_effects: SortedMap::new(),
            attributes: SortedMap::new(),
            death: None,
            respawn: RespawnState::default(),
            world_border: None,
            time: WorldTime { age: 0, raw_day_time: 0, day_time: 0, ticking: false },
            weather: WeatherState { raining: false, rain_level: 0, thunder_level: 0 },
            difficulty: DifficultyState {
                difficulty: Difficulty::Unknown(u8::MAX),
                locked: false,
            },
            spawn_position: None,
        }
    }

    pub fn on_login(&mut self, packet: &PacketLogin)
        requires
            old(self).valid(),
        ensures
            final(self).valid(),
            final(self)@ == (HudModel {
                entity_id: Some(packet.entity_id),
                hardcore: packet.is_hardcore,
                ..old(self)@.spawned(packet.world_state, old(self)@.respawn.count, 0)
            }),
    {
        self.entity_id = Some(packet.entity_id);
        self.hardcore = packet.is_hardcore;
        self.apply_spawn_info(&packet.world_state, 0);
    }

    pub fn on_respawn(&mut self, packet: &PacketRespawn) -> (event: HudEvent)
        requires
            old(self).valid(),
        ensures
            final(self).valid(),
            hud_respawned(old(self)@, *packet, final(self)@, event),
    {
        self.respawn.count = self.respawn.count.saturating_add(1);
        self.apply_spawn_info(&packet.world_state, packet.copy_metadata);
        HudEvent::Respawned { state: self.respawn.clone() }
    }

    fn apply_spawn_info(&mut self, spawn: &SpawnInfo, copy_metadata: u8)
        requires
            old(self).valid(),
        ensures
            final(self).valid(),
            final(self)@ == old(self)@.spawned(*spawn, old(self)@.respawn.count, copy_metadata),
    {
        self.game_mode = spawn.gamemode;
        self.previous_game_mode = if spawn.previous_gamemode == u8::MAX {
            None
        } else {
            Some(GameMode::from_i32(spawn.previous_gamemode as i32))
        };
        self.respawn = RespawnState {
            count: self.respawn.count,
            game_mode: self.game_mode,
            previous_game_mode: self.previous_game_mode,
            dimension_name: spawn.name.clone(),
            last_death_location: match &spawn.death {
                Some(death) => Some(
                    GlobalPosition {
                        dimension_name: death.dimension_name.clone(),
                        position: death.location,
                    },
                ),
                None => None,
            },
            portal_cooldown: spawn.portal_cooldown,
            sea_level: spawn.sea_level,
            copy_metadata,
        };
    }

    pub fn on_health(&mut self, packet: &PacketUpdateHealth) -> (event: HudEvent)
        requires
            old(self).valid(),
        ensures
            final(self).valid(),
            hud_healed(old(self)@, *packet, final(self)@, event),
    {
        self.vitals = Vitals {
            health: packet.health,
            food: packet.food,
            saturation: packet.food_saturation,
        };
        HudEvent::VitalsChanged { vitals: self.vitals }
    }

    pub fn on_experience(&mut self, bar: u32, level: i32, total: i32) -> (event: HudEvent)
        requires
            old(self).valid(),
        ensures
            final(self).valid(),
            hud_experienced(old(self)@, bar, level, total, final(self)@, event),
    {
        self.experience = Experience { bar, level, total };
        HudEvent::ExperienceChanged { experience: self.experience }
    }

    pub fn on_selected_hotbar(&mut self, packet: &PacketHeldItemSlot) -> (event: HudEvent)
        requires
            old(self).valid(),
        ensures
            final(self).valid(),
            hud_selected(old(self)@, *packet, final(self)@, event),
    {
        let applied = 0 <= packet.slot && packet.slot <= 8;
        if applied {
            self.selected_hotbar_slot = packet.slot;
            self.held_item = match self.hotbar.get(&packet.slot) {
                Some(item) => item.clone(),
                None => empty_slot(),
            };
        }
        HudEvent::HotbarChanged {
            selected_slot: self.selected_hotbar_slot,
            held_item: self.held_item.clone(),
            applied,
        }
    }

    pub fn on_player_inventory(&mut self, packet: &PacketSetPlayerInventory) -> (event: HudEvent)
        requires
            old(self).valid(),
        ensures
            final(self).valid(),
            hud_own_slot_set(old(self)@, *packet, final(self)@, event),
    {
        let applied = 0 <= packet.slot_id && packet.slot_id <= 8;
        if applied {
            let _ = self.hotbar.insert(packet.slot_id, packet.contents.clone());
            assert(self.hotbar@.dom() =~= old(self)@.hotbar.dom().insert(packet.slot_id as int));
            if packet.slot_id == self.selected_hotbar_slot {
                self.held_item = packet.contents.clone();
            }
        }
        HudEvent::HotbarChanged {
            selected_slot: self.selected_hotbar_slot,
            held_item: self.held_item.clone(),
            applied,
        }
    }

    pub fn on_time(&mut self, packet: &PacketUpdateTime) -> (event: HudEvent)
        requires
            old(self).valid(),
        ensures
            final(self).valid(),
            hud_timed(old(self)@, *packet, final(self)@, event),
    {
        self.time = WorldTime {
            age: packet.age,
            raw_day_time: packet.time,
            day_time: day_time(packet.time),
            ticking: packet.tick_day_time,
        };
        HudEvent::TimeChanged { time: self.time }
    }

    pub fn on_game_state(&mut self, packet: &PacketGameStateChange) -> (event: Option<HudEvent>)
        requires
            old(self).valid(),
        ensures
            final(self).valid(),
            (final(self)@, event) == old(self)@.game_state(packet.reason, packet.game_mode),
    {
        match packet.reason {
            1 => {
                self.weather.raining = true;
                Some(HudEvent::WeatherChanged { weather: self.weather })
            },
            2 => {
                self.weather.raining = false;
                Some(HudEvent::WeatherChanged { weather: self.weather })
            },
            3 => {
                self.game_mode = GameMode::from_wire_float(packet.game_mode);
                self.respawn.game_mode = self.game_mode;
                Some(HudEvent::GameModeChanged { game_mode: self.game_mode })
            },
            7 => {
                self.weather.rain_level = packet.game_mode;
                Some(HudEvent::WeatherChanged { weather: self.weather })
            },
            8 => {
                self.weather.thunder_level = packet.game_mode;
                Some(HudEvent::WeatherChanged { weather: self.weather })
            },
            _ => None,
        }
    }

    /// Applies an update.
    pub fn apply(&mut self, update: HudUpdate) -> (event: Option<HudEvent>)
        requires
            old(self).valid(),
        ensures
            final(self).valid(),
            (final(self)@, event) == old(self)@.applied(update),
    {
        let ghost before = self@;
        match update {
            HudUpdate::Abilities(abilities) => {
                self.abilities = abilities;
                Some(HudEvent::AbilitiesChanged { abilities })
            },
            HudUpdate::Cooldown { group, ticks } => {
                let applied = if ticks <= 0 {
                    proof {
                        assert(before.cooldowns.remove(group@).dom()
                            =~= before.cooldowns.dom().remove(group@));
                        if !before.cooldowns.contains_key(group@) {
                            assert(before.cooldowns.remove(group@) =~= before.cooldowns);
                        }
                    }
                    self.cooldowns.remove(&group).is_some()
                } else if self.cooldowns.contains(&group) || self.cooldowns.len() < MAX_COOLDOWNS {
                    assert(before.cooldowns.insert(group@, ticks).dom()
                        =~= before.cooldowns.dom().insert(group@));
                    let _ = self.cooldowns.insert(group.clone(), ticks);
                    true
                } else {
                    false
                };
                let remaining_ticks = match self.cooldowns.get(&group) {
                    Some(ticks) => Some(*ticks),
                    None => None,
                };
                Some(HudEvent::CooldownChanged { group, remaining_ticks, applied })
            },
            HudUpdate::SetEffect { entity_id, effect } => {
                if !self.is_local(entity_id) {
                    return None;
                }
                let id: i32 = effect.id;
                let applied = if id < 0 {
                    false
                } else if self.active_effects.contains(&id) || self.active_effects.len()
                    < MAX_EFFECTS {
                    let _ = self.active_effects.insert(id, effect);
                    assert(self@.effects.dom() =~= before.effects.dom().insert(id as int));
                    true
                } else {
                    false
                };
                let current = match self.active_effects.get(&id) {
                    Some(effect) => Some(*effect),
                    None => None,
                };
                Some(HudEvent::EffectChanged { effect_id: id, current, applied })
            },
            HudUpdate::RemoveEffect { entity_id, effect_id } => {
                if !self.is_local(entity_id) {
                    return None;
                }
                let applied = self.active_effects.remove(&effect_id).is_some();
                assert(self@.effects.dom() =~= before.effects.dom().remove(effect_id as int));
                Some(HudEvent::EffectChanged { effect_id, current: None, applied })
            },
            HudUpdate::Attributes { entity_id, attributes } => {
                if !self.is_local(entity_id) {
                    return None;
                }
                let (applied, rejected) = self.set_attributes(attributes);
                Some(HudEvent::AttributesChanged { applied, rejected })
            },
            HudUpdate::Death { player_id, information } => {
                if !self.is_local(player_id) {
                    return None;
                }
                self.death = Some(share(&information));
                Some(HudEvent::Death { information })
            },
            HudUpdate::InitializeBorder(border) => {
                self.world_border = Some(border);
                Some(
                    HudEvent::WorldBorderChanged {
                        action: WorldBorderAction::Initialize,
                        current: Some(border),
                        applied: true,
                    },
                )
            },
            HudUpdate::BorderCenter { x, z } => {
                let applied = self.world_border.is_some();
                self.world_border = match self.world_border {
                    Some(border) => Some(
                        WorldBorderState { center_x: x, center_z: z, ..border },
                    ),
                    None => None,
                };
                Some(self.border_event(WorldBorderAction::Center, applied))
            },
            HudUpdate::BorderLerp { old_diameter, new_diameter, speed } => {
                let applied = self.world_border.is_some();
                self.world_border = match self.world_border {
                    Some(border) => Some(
                        WorldBorderState {
                            old_diameter,
                            new_diameter,
                            lerp_millis: speed,
                            ..border
                        },
                    ),
                    None => None,
                };
                Some(self.border_event(WorldBorderAction::LerpSize, applied))
            },
            HudUpdate::BorderSize { diameter } => {
                let applied = self.world_border.is_some();
                self.world_border = match self.world_border {
                    Some(border) => Some(
                        WorldBorderState {
                            old_diameter: diameter,
                            new_diameter: diameter,
                            lerp_millis: 0,
                            ..border
                        },
                    ),
                    None => None,
                };
                Some(self.border_event(WorldBorderAction::Size, applied))
            },
            HudUpdate::BorderWarningTime { warning_time } => {
                let applied = self.world_border.is_some();
                self.world_border = match self.world_border {
                    Some(border) => Some(WorldBorderState { warning_time, ..border }),
                    None => None,
                };
                Some(self.border_event(WorldBorderAction::WarningTime, applied))
            },
            HudUpdate::BorderWarningBlocks { warning_blocks } => {
                let applied = self.world_border.is_some();
                self.world_border = match self.world_border {
                    Some(border) => Some(WorldBorderState { warning_blocks, ..border }),
                    None => None,
                };
                Some(self.border_event(WorldBorderAction::WarningBlocks, applied))
            },
            HudUpdate::Difficulty(difficulty) => {
                self.difficulty = difficulty;
                Some(HudEvent::DifficultyChanged { difficulty })
            },
            HudUpdate::SpawnPosition(position) => {
                self.spawn_position = Some(position);
                Some(HudEvent::SpawnPositionChanged { position })
            },
        }
    }

    /// Whether the entity is the bot itself.
    fn is_local(&self, entity_id: i32) -> (b: bool)
        ensures
            b == (Some(entity_id) == self@.entity_id),
    {
        match self.entity_id {
            Some(id) => id == entity_id,
            None => false,
        }
    }

    /// Sets attributes in order, each where it has a place; counts those that
    /// had one and those that had none.
    fn set_attributes(&mut self, attributes: Vec<Attribute>) -> (counts: (usize, usize))
        requires
            old(self).valid(),
        ensures
            final(self).valid(),
            ({
                let (set, rejected) = attributes_set(old(self)@.attributes, attributes@);
                &&& final(self)@ == (HudModel { attributes: set, ..old(self)@ })
                &&& rejected <= attributes@.len()
                &&& counts.0 == attributes@.len() - rejected
                &&& counts.1 == rejected
            }),
    {
        let ghost before = self@;
        let ghost all = attributes@;
        let total: usize = attributes.len();
        assert(all.len() == total);
        let mut rest = attributes;
        let mut ordered: Vec<Attribute> = Vec::new();
        while rest.len() > 0
            invariant
                rest@.len() + ordered@.len() == all.len(),
                forall|i: int| 0 <= i < rest@.len() ==> rest@[i] == all[i],
                forall|i: int|
                    0 <= i < ordered@.len() ==> #[trigger] ordered@[i] == all[all.len() - 1 - i],
            decreases rest@.len(),
        {
            match rest.pop() {
                Some(attribute) => {
                    ordered.push(attribute);
                },
                None => {},
            }
        }
        let mut applied: usize = 0;
        let mut rejected: usize = 0;
        assert(all.take(0) =~= Seq::<Attribute>::empty());
        while ordered.len() > 0
            invariant
                before.valid(),
                self.valid(),
                applied + rejected + ordered@.len() == all.len(),
                all.len() == total,
                forall|i: int|
                    0 <= i < ordered@.len() ==> #[trigger] ordered@[i] == all[all.len() - 1 - i],
                ({
                    let (set, n) = attributes_set(
                        before.attributes,
                        all.take(applied + rejected),
                    );
                    self@ == (HudModel { attributes: set, ..before }) && rejected == n
                }),
            decreases ordered@.len(),
        {
            let ghost done = applied + rejected;
            match ordered.pop() {
                Some(attribute) => {
                    proof {
                        assert(attribute == all[done]);
                        assert(all.take(done + 1).drop_last() =~= all.take(done));
                        assert(all.take(done + 1).last() == attribute);
                        lemma_attributes_set(before.attributes, all.take(done + 1));
                    }
                    let key: AttributeKey = attribute.key;
                    if self.attributes.contains(&key) || self.attributes.len() < MAX_ATTRIBUTES {
                        let _ = self.attributes.insert(key, attribute);
                        applied += 1;
                    } else {
                        rejected += 1;
                    }
                },
                None => {},
            }
        }
        assert(all.take(all.len() as int) =~= all);
        (applied, rejected)
    }

    fn border_event(&self, action: WorldBorderAction, applied: bool) -> (event: HudEvent)
        ensures
            event == (HudEvent::WorldBorderChanged { action, current: self@.border, applied }),
    {
        HudEvent::WorldBorderChanged { action, current: self.world_border, applied }
    }
}

/// The tick of the day that a world clock shows.
pub fn day_time(time: i64) -> (t: i64)
    ensures
        t == time as int % 24_000,
{
    if time >= 0 {
        time % 24_000
    } else {
        // Shift into the nonnegative range first: -1 is the last tick of a day.
        let up: i64 = -(time + 1);
        let back: i64 = up % 24_000;
        23_999 - back
    }
}

impl Default for HudState {
    fn default() -> (s: Self)
        ensures
            s.valid(),
            s@.is_fresh(),
    {
        HudState::new()
    }
}

/// What a modifier is kept as.
pub open spec fn modifier_of(m: WireModifier, kept: AttributeModifier) -> bool {
    kept.id == m.uuid && kept.amount == Double(m.amount) && kept.operation == operation_numbered(
        m.operation,
    )
}

/// What an attribute is kept as: its modifiers cut to the bound.
pub open spec fn attribute_of(a: WireAttribute, kept: Attribute) -> bool {
    let count = if a.modifiers@.len() > MAX_ATTRIBUTE_MODIFIERS {
        MAX_ATTRIBUTE_MODIFIERS as nat
    } else {
        a.modifiers@.len()
    };
    &&& kept.key == attribute_named(a.key)
    &&& kept.base_value == Double(a.value)
    &&& kept.modifiers_truncated == (a.modifiers@.len() > MAX_ATTRIBUTE_MODIFIERS)
    &&& kept.modifiers@.len() == count
    &&& forall|i: int|
        0 <= i < count ==> #[trigger] modifier_of(a.modifiers@[i], kept.modifiers@[i])
}

/// The attribute that a wire key names.
pub open spec fn attribute_named(value: WireAttributeKey) -> AttributeKey {
    match value {
        WireAttributeKey::GenericArmor => AttributeKey::Armor,
        WireAttributeKey::GenericArmorToughness => AttributeKey::ArmorToughness,
        WireAttributeKey::GenericAttackDamage => AttributeKey::AttackDamage,
        WireAttributeKey::GenericAttackKnockback => AttributeKey::AttackKnockback,
        WireAttributeKey::GenericAttackSpeed => AttributeKey::AttackSpeed,
        WireAttributeKey::PlayerBlockBreakSpeed => AttributeKey::BlockBreakSpeed,
        WireAttributeKey::PlayerBlockInteractionRange => AttributeKey::BlockInteractionRange,
        WireAttributeKey::PlayerEntityInteractionRange => AttributeKey::EntityInteractionRange,
        WireAttributeKey::GenericFallDamageMultiplier => AttributeKey::FallDamageMultiplier,
        WireAttributeKey::GenericFlyingSpeed => AttributeKey::FlyingSpeed,
        WireAttributeKey::GenericFollowRange => AttributeKey::FollowRange,
        WireAttributeKey::GenericGravity => AttributeKey::Gravity,
        WireAttributeKey::GenericJumpStrength => AttributeKey::JumpStrength,
        WireAttributeKey::GenericKnockbackResistance => AttributeKey::KnockbackResistance,
        WireAttributeKey::GenericLuck => AttributeKey::Luck,
        WireAttributeKey::GenericMaxAbsorption => AttributeKey::MaxAbsorption,
        WireAttributeKey::GenericMaxHealth => AttributeKey::MaxHealth,
        WireAttributeKey::GenericMovementSpeed => AttributeKey::MovementSpeed,
        WireAttributeKey::GenericSafeFallDistance => AttributeKey::SafeFallDistance,
        WireAttributeKey::GenericScale => AttributeKey::Scale,
        WireAttributeKey::ZombieSpawnReinforcements => AttributeKey::SpawnReinforcements,
        WireAttributeKey::GenericStepHeight => AttributeKey::StepHeight,
    }
}

/// What a packet asks of the HUD.
pub open spec fn update_of(packet: HudPacket, update: HudUpdate) -> bool {
    match (packet, update) {
        (HudPacket::Abilities { flags, flying_speed, walking_speed }, HudUpdate::Abilities(a)) => a
            == (Abilities { raw_flags: flags as u8, flying_speed, walking_speed }),
        (
            HudPacket::SetCooldown { cooldown_group, cooldown_ticks },
            HudUpdate::Cooldown { group, ticks },
        ) => group == cooldown_group && ticks == cooldown_ticks,
        (
            HudPacket::EntityEffect { entity_id, effect_id, amplifier, duration, flags },
            HudUpdate::SetEffect { entity_id: id, effect },
        ) => id == entity_id && effect == (StatusEffect {
            id: effect_id,
            amplifier,
            duration_ticks: duration,
            flags: EffectFlags { raw: flags },
        }),
        (
            HudPacket::RemoveEntityEffect { entity_id, effect_id },
            HudUpdate::RemoveEffect { entity_id: id, effect_id: effect },
        ) => id == entity_id && effect == effect_id,
        (
            HudPacket::EntityUpdateAttributes { entity_id, properties },
            HudUpdate::Attributes { entity_id: id, attributes },
        ) => {
            &&& id == entity_id
            &&& attributes@.len() == properties@.len()
            &&& forall|i: int|
                0 <= i < properties@.len() ==> #[trigger] attribute_of(
                    properties@[i],
                    attributes@[i],
                )
        },
        (
            HudPacket::DeathCombatEvent { player_id, message },
            HudUpdate::Death { player_id: id, information },
        ) => id == player_id && information.player_id == player_id && information.message@
            == nbt_component(message, fresh_budget(), 0).0,
        (
            HudPacket::InitializeWorldBorder {
                x,
                z,
                old_diameter,
                new_diameter,
                speed,
                portal_teleport_boundary,
                warning_blocks,
                warning_time,
            },
            HudUpdate::InitializeBorder(border),
        ) => border == (WorldBorderState {
            center_x: x,
            center_z: z,
            old_diameter,
            new_diameter,
            lerp_millis: speed,
            portal_teleport_boundary,
            warning_blocks,
            warning_time,
        }),
        (HudPacket::WorldBorderCenter { x, z }, HudUpdate::BorderCenter { x: cx, z: cz }) => cx == x
            && cz == z,
        (
            HudPacket::WorldBorderLerpSize { old_diameter, new_diameter, speed },
            HudUpdate::BorderLerp { old_diameter: o, new_diameter: n, speed: s },
        ) => o == old_diameter && n == new_diameter && s == speed,
        (HudPacket::WorldBorderSize { diameter }, HudUpdate::BorderSize { diameter: d }) => d
            == diameter,
        (
            HudPacket::WorldBorderWarningDelay { warning_time },
            HudUpdate::BorderWarningTime { warning_time: t },
        ) => t == warning_time,
        (
            HudPacket::WorldBorderWarningReach { warning_blocks },
            HudUpdate::BorderWarningBlocks { warning_blocks: b },
        ) => b == warning_blocks,
        (
            HudPacket::Difficulty { difficulty, difficulty_locked },
            HudUpdate::Difficulty(d),
        ) => d == (DifficultyState {
            difficulty: difficulty_numbered(difficulty),
            locked: difficulty_locked,
        }),
        (HudPacket::SpawnPosition { location, angle }, HudUpdate::SpawnPosition(p)) => p == (
        SpawnPosition { position: location, angle }),
        _ => false,
    }
}

/// Turns a packet into the update it asks for.
pub fn decode_update(packet: HudPacket) -> (update: HudUpdate)
    ensures
        update_of(packet, update),
{
    match packet {
        HudPacket::Abilities { flags, flying_speed, walking_speed } => HudUpdate::Abilities(
            Abilities { raw_flags: flags as u8, flying_speed, walking_speed },
        ),
        HudPacket::SetCooldown { cooldown_group, cooldown_ticks } => HudUpdate::Cooldown {
            group: cooldown_group,
            ticks: cooldown_ticks,
        },
        HudPacket::EntityEffect { entity_id, effect_id, amplifier, duration, flags } =>
            HudUpdate::SetEffect {
                entity_id,
                effect: StatusEffect {
                    id: effect_id,
                    amplifier,
                    duration_ticks: duration,
                    flags: EffectFlags { raw: flags },
                },
            },
        HudPacket::RemoveEntityEffect { entity_id, effect_id } => HudUpdate::RemoveEffect {
            entity_id,
            effect_id,
        },
        HudPacket::EntityUpdateAttributes { entity_id, properties } => HudUpdate::Attributes {
            entity_id,
            attributes: attributes(&properties),
        },
        HudPacket::DeathCombatEvent { player_id, message } => HudUpdate::Death {
            player_id,
            information: Arc::new(
                DeathInformation { player_id, message: TextComponent::from_nbt(&message) },
            ),
        },
        HudPacket::InitializeWorldBorder {
            x,
            z,
            old_diameter,
            new_diameter,
            speed,
            portal_teleport_boundary,
            warning_blocks,
            warning_time,
        } => HudUpdate::InitializeBorder(
            WorldBorderState {
                center_x: x,
                center_z: z,
                old_diameter,
                new_diameter,
                lerp_millis: speed,
                portal_teleport_boundary,
                warning_blocks,
                warning_time,
            },
        ),
        HudPacket::WorldBorderCenter { x, z } => HudUpdate::BorderCenter { x, z },
        HudPacket::WorldBorderLerpSize { old_diameter, new_diameter, speed } =>
            HudUpdate::BorderLerp { old_diameter, new_diameter, speed },
        HudPacket::WorldBorderSize { diameter } => HudUpdate::BorderSize { diameter },
        HudPacket::WorldBorderWarningDelay { warning_time } => HudUpdate::BorderWarningTime {
            warning_time,
        },
        HudPacket::WorldBorderWarningReach { warning_blocks } => HudUpdate::BorderWarningBlocks {
            warning_blocks,
        },
        HudPacket::Difficulty { difficulty, difficulty_locked } => HudUpdate::Difficulty(
            DifficultyState { difficulty: Difficulty::from(difficulty), locked: difficulty_locked },
        ),
        HudPacket::SpawnPosition { location, angle } => HudUpdate::SpawnPosition(
            SpawnPosition { position: location, angle },
        ),
    }
}

/// Keeps each attribute.
fn attributes(properties: &Vec<WireAttribute>) -> (out: Vec<Attribute>)
    ensures
        out@.len() == properties@.len(),
        forall|i: int|
            0 <= i < properties@.len() ==> #[trigger] attribute_of(properties@[i], out@[i]),
{
    let mut out: Vec<Attribute> = Vec::new();
    let mut i: usize = 0;
    while i < properties.len()
        invariant
            i <= properties@.len(),
            out@.len() == i,
            forall|j: int| 0 <= j < i ==> #[trigger] attribute_of(properties@[j], out@[j]),
        decreases properties@.len() - i,
    {
        out.push(attribute(&properties[i]));
        i += 1;
    }
    out
}

/// Keeps an attribute, its modifiers cut to the bound.
pub fn attribute(value: &WireAttribute) -> (out: Attribute)
    ensures
        attribute_of(*value, out),
{
    let modifiers_truncated = value.modifiers.len() > MAX_ATTRIBUTE_MODIFIERS;
    let mut modifiers: Vec<AttributeModifier> = Vec::new();
    while modifiers.len() < value.modifiers.len() && modifiers.len() < MAX_ATTRIBUTE_MODIFIERS
        invariant
            modifiers@.len() <= value.modifiers@.len(),
            modifiers@.len() <= MAX_ATTRIBUTE_MODIFIERS,
            forall|j: int|
                0 <= j < modifiers@.len() ==> #[trigger] modifier_of(
                    value.modifiers@[j],
                    modifiers@[j],
                ),
        decreases value.modifiers@.len() - modifiers@.len(),
    {
        let m = &value.modifiers[modifiers.len()];
        modifiers.push(
            AttributeModifier {
                id: m.uuid.clone(),
                amount: Double(m.amount),
                operation: AttributeOperation::from(m.operation),
            },
        );
    }
    Attribute {
        key: attribute_key(value.key),
        base_value: Double(value.value),
        modifiers: Arc::new(modifiers),
        modifiers_truncated,
    }
}

/// The attribute that a wire key names.
pub fn attribute_key(value: WireAttributeKey) -> (key: AttributeKey)
    ensures
        key == attribute_named(value),
{
    match value {
        WireAttributeKey::GenericArmor => AttributeKey::Armor,
        WireAttributeKey::GenericArmorToughness => AttributeKey::ArmorToughness,
        WireAttributeKey::GenericAttackDamage => AttributeKey::AttackDamage,
        WireAttributeKey::GenericAttackKnockback => AttributeKey::AttackKnockback,
        WireAttributeKey::GenericAttackSpeed => AttributeKey::AttackSpeed,
        WireAttributeKey::PlayerBlockBreakSpeed => AttributeKey::BlockBreakSpeed,
        WireAttributeKey::PlayerBlockInteractionRange => AttributeKey::BlockInteractionRange,
        WireAttributeKey::PlayerEntityInteractionRange => AttributeKey::EntityInteractionRange,
        WireAttributeKey::GenericFallDamageMultiplier => AttributeKey::FallDamageMultiplier,
        WireAttributeKey::GenericFlyingSpeed => AttributeKey::FlyingSpeed,
        WireAttributeKey::GenericFollowRange => AttributeKey::FollowRange,
        WireAttributeKey::GenericGravity => AttributeKey::Gravity,
        WireAttributeKey::GenericJumpStrength => AttributeKey::JumpStrength,
        WireAttributeKey::GenericKnockbackResistance => AttributeKey::KnockbackResistance,
        WireAttributeKey::GenericLuck => AttributeKey::Luck,
        WireAttributeKey::GenericMaxAbsorption => AttributeKey::MaxAbsorption,
        WireAttributeKey::GenericMaxHealth => AttributeKey::MaxHealth,
        WireAttributeKey::GenericMovementSpeed => AttributeKey::MovementSpeed,
        WireAttributeKey::GenericSafeFallDistance => AttributeKey::SafeFallDistance,
        WireAttributeKey::GenericScale => AttributeKey::Scale,
        WireAttributeKey::ZombieSpawnReinforcements => AttributeKey::SpawnReinforcements,
        WireAttributeKey::GenericStepHeight => AttributeKey::StepHeight,
    }
}

/// Effects, attributes and deaths of other entities never reach the HUD.
pub proof fn law_other_entities_are_ignored(m: HudModel, update: HudUpdate)
    requires
        match update {
            HudUpdate::SetEffect { entity_id, .. } => m.entity_id != Some(entity_id),
            HudUpdate::RemoveEffect { entity_id, .. } => m.entity_id != Some(entity_id),
            HudUpdate::Attributes { entity_id, .. } => m.entity_id != Some(entity_id),
            HudUpdate::Death { player_id, .. } => m.entity_id != Some(player_id),
            _ => false,
        },
    ensures
        m.applied(update) == (m, None::<HudEvent>),
{
}

/// Until the server has initialized the world border, the updates to its parts
/// change nothing and are reported as not applied.
pub proof fn law_border_updates_wait_for_the_border(m: HudModel, update: HudUpdate)
    requires
        m.border is None,
        update is BorderCenter || update is BorderLerp || update is BorderSize
            || update is BorderWarningTime || update is BorderWarningBlocks,
    ensures
        m.applied(update).0 == m,
        m.applied(update).1 matches Some(HudEvent::WorldBorderChanged { current, applied, .. })
            && current is None && !applied,
{
}

/// A cooldown that is set shows until it is set to zero or less, which ends it.
pub proof fn law_cooldown_lifecycle(m: HudModel, group: String, ticks: i32, end: i32)
    requires
        m.valid(),
        ticks > 0,
        end <= 0,
        has_place(m.cooldowns, group@, MAX_COOLDOWNS),
    ensures
        ({
            let set = m.applied(HudUpdate::Cooldown { group, ticks }).0;
            let ended = set.applied(HudUpdate::Cooldown { group, ticks: end }).0;
            &&& set.cooldowns.contains_key(group@) && set.cooldowns[group@] == ticks
            &&& !ended.cooldowns.contains_key(group@)
        }),
{
}

/// What a respawn does to the HUD.
pub open spec fn hud_respawned(
    before: HudModel,
    packet: PacketRespawn,
    after: HudModel,
    event: HudEvent,
) -> bool {
    &&& (({
        let count = before.respawn.count;
        after == before.spawned(
            packet.world_state,
            if count == u64::MAX {
                count
            } else {
                (count + 1) as u64
            },
            packet.copy_metadata,
        )
    }))
    &&& (event == (HudEvent::Respawned { state: after.respawn }))
}

/// What vitals do to the HUD.
pub open spec fn hud_healed(
    before: HudModel,
    packet: PacketUpdateHealth,
    after: HudModel,
    event: HudEvent,
) -> bool {
    ({
        let vitals = Vitals {
            health: packet.health,
            food: packet.food,
            saturation: packet.food_saturation,
        };
        &&& after == (HudModel { vitals, ..before })
        &&& event == (HudEvent::VitalsChanged { vitals })
    })
}

/// What the selection of a hotbar slot does to the HUD.
pub open spec fn hud_selected(
    before: HudModel,
    packet: PacketHeldItemSlot,
    after: HudModel,
    event: HudEvent,
) -> bool {
    &&& (0 <= packet.slot <= 8 ==> after == (HudModel {
        selected: packet.slot,
        held_item: match value_of(before.hotbar, packet.slot as int) {
            Some(item) => item,
            None => no_item(),
        },
        ..before
    }))
    &&& (!(0 <= packet.slot <= 8) ==> after == before)
    &&& (event == after.hotbar_report(0 <= packet.slot <= 8))
}

/// What the contents of a slot of the player do to the HUD.
pub open spec fn hud_own_slot_set(
    before: HudModel,
    packet: PacketSetPlayerInventory,
    after: HudModel,
    event: HudEvent,
) -> bool {
    &&& (0 <= packet.slot_id <= 8 ==> after == (HudModel {
        hotbar: before.hotbar.insert(packet.slot_id as int, packet.contents),
        held_item: if packet.slot_id == before.selected {
            packet.contents
        } else {
            before.held_item
        },
        ..before
    }))
    &&& (!(0 <= packet.slot_id <= 8) ==> after == before)
    &&& (event == after.hotbar_report(0 <= packet.slot_id <= 8))
}

/// What the world clock does to the HUD.
pub open spec fn hud_timed(
    before: HudModel,
    packet: PacketUpdateTime,
    after: HudModel,
    event: HudEvent,
) -> bool {
    ({
        let time = WorldTime {
            age: packet.age,
            raw_day_time: packet.time,
            day_time: (packet.time as int % 24_000) as i64,
            ticking: packet.tick_day_time,
        };
        &&& after == (HudModel { time, ..before })
        &&& event == (HudEvent::TimeChanged { time })
    })
}

/// What experience does to the HUD.
pub open spec fn hud_experienced(
    before: HudModel,
    bar: u32,
    level: i32,
    total: i32,
    after: HudModel,
    event: HudEvent,
) -> bool {
    ({
        let experience = Experience { bar, level, total };
        &&& after == (HudModel { experience, ..before })
        &&& event == (HudEvent::ExperienceChanged { experience })
    })
}

} // verus!
