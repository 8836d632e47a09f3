//! Bot control surface: commands, their validation, and the per-tick driver
//! that turns high-level goals into vanilla [`MovementInput`].
//!
//! Steering and the draw of random angles are floating-point work: the float
//! layer hands their results over.
use crate::float_bits::{
    finite, is_finite, is_nan, is_negative, is_positive, nan, negative, place, positive, rank,
    same_single, singles_equal,
};
use crate::minecraft::inventory::InventoryClickRequest;
use crate::minecraft::player::{LocalPlayer, MovementInput, PlayerPosition, MINUS_ONE, ONE};
use crate::minecraft::text::to_chars;
use crate::text_build::{decimal, text_around, text_with, text_with_two};
use rand::rngs::{OsRng, StdRng};
use rand::{Rng, SeedableRng};
use vstd::prelude::*;
use vstd::std_specs::cmp::PartialEqSpecImpl;

verus! {

/// The maximum of UTF-16 code units in a chat message or a command.
pub const MAX_CHAT_UTF16_UNITS: usize = 256;

/// Milliseconds of a tick.
pub const TICK_MILLIS: u64 = 50;

/// Nanoseconds of a tick.
pub const TICK_NANOS: u128 = 50_000_000;

/// Which hand an action (held-item use, arm swing) applies to.
#[derive(Debug, Clone, Copy, PartialEq, Eq, Structural)]
pub enum Hand {
    Main,
    Off,
}

impl Hand {
    /// Wire value: `0` main hand, `1` off hand.
    pub fn wire_value(self) -> (v: i32)
        ensures
            v == (match self {
                Hand::Main => 0i32,
                Hand::Off => 1i32,
            }),
    {
        match self {
            Hand::Main => 0,
            Hand::Off => 1,
        }
    }
}

/// A right-click-on-block interaction: where the block is, which face was hit,
/// which hand, and where on the face the cursor landed. `cursor_*` are fractions
/// from zero to one across the hit face, as single-precision bits; `face` is
/// 0..=5 (down, up, north, south, west, east).
#[derive(Debug, Clone, Copy)]
pub struct BlockPlacement {
    pub x: i32,
    pub y: i32,
    pub z: i32,
    pub face: i32,
    pub hand: Hand,
    pub cursor_x: u32,
    pub cursor_y: u32,
    pub cursor_z: u32,
    /// Whether the player's head is inside the target block.
    pub inside_block: bool,
}

impl PartialEq for BlockPlacement {
    fn eq(&self, other: &Self) -> (r: bool) {
        self.x == other.x
            && self.y == other.y
            && self.z == other.z
            && self.face == other.face
            && self.hand == other.hand
            && same_single(self.cursor_x, other.cursor_x)
            && same_single(self.cursor_y, other.cursor_y)
            && same_single(self.cursor_z, other.cursor_z)
            && self.inside_block == other.inside_block
    }
}

impl PartialEqSpecImpl for BlockPlacement {
    open spec fn obeys_eq_spec() -> bool {
        true
    }

    open spec fn eq_spec(&self, other: &Self) -> bool {
        &&& self.x == other.x
        &&& self.y == other.y
        &&& self.z == other.z
        &&& self.face == other.face
        &&& self.hand == other.hand
        &&& singles_equal(self.cursor_x, other.cursor_x)
        &&& singles_equal(self.cursor_y, other.cursor_y)
        &&& singles_equal(self.cursor_z, other.cursor_z)
        &&& self.inside_block == other.inside_block
    }
}

/// Bounded, deterministic-when-seeded random head rotation: a small periodic
/// yaw/pitch change. Angles are single-precision bits.
#[derive(Debug, Clone, Copy)]
pub struct RandomLookConfig {
    /// Shortest delay between two random look changes, in nanoseconds.
    pub min_interval_nanos: u128,
    /// Longest delay between two random look changes, in nanoseconds.
    pub max_interval_nanos: u128,
    /// Maximum yaw change (either direction, degrees) applied on top of the
    /// *current* yaw each time a new look is chosen.
    pub max_yaw_delta: u32,
    /// Absolute pitch lower bound (degrees).
    pub min_pitch: u32,
    /// Absolute pitch upper bound (degrees).
    pub max_pitch: u32,
    /// `Some(seed)` makes every drawn interval/angle reproducible; `None`
    /// seeds from OS entropy.
    pub seed: Option<u64>,
}

impl PartialEq for RandomLookConfig {
    fn eq(&self, other: &Self) -> (r: bool) {
        self.min_interval_nanos == other.min_interval_nanos
            && self.max_interval_nanos == other.max_interval_nanos
            && same_single(self.max_yaw_delta, other.max_yaw_delta)
            && same_single(self.min_pitch, other.min_pitch)
            && same_single(self.max_pitch, other.max_pitch)
            && self.seed == other.seed
    }
}

impl PartialEqSpecImpl for RandomLookConfig {
    open spec fn obeys_eq_spec() -> bool {
        true
    }

    open spec fn eq_spec(&self, other: &Self) -> bool {
        &&& self.min_interval_nanos == other.min_interval_nanos
        &&& self.max_interval_nanos == other.max_interval_nanos
        &&& singles_equal(self.max_yaw_delta, other.max_yaw_delta)
        &&& singles_equal(self.min_pitch, other.min_pitch)
        &&& singles_equal(self.max_pitch, other.max_pitch)
        &&& self.seed == other.seed
    }
}

/// Why an action is refused before it is sent.
#[derive(Debug, Clone, Copy)]
pub enum ActionValidationError {
    EmptyChat,
    EmptyCommand,
    ChatStartsWithSlash,
    CommandStartsWithSlash,
    ChatTooLong { actual: usize, max: usize },
    CommandTooLong { actual: usize, max: usize },
    RandomLookNonFinite,
    RandomLookIntervalOrder,
    RandomLookPitchOrder,
    RandomLookNegativeYawDelta,
    HotbarSlotOutOfRange { slot: i16 },
    BlockFaceOutOfRange { face: i32 },
    /// The value is single-precision bits.
    BlockCursorOutOfRange { value: u32 },
}

impl PartialEq for ActionValidationError {
    fn eq(&self, other: &Self) -> (r: bool) {
        match (self, other) {
            (
                ActionValidationError::ChatTooLong { actual, max },
                ActionValidationError::ChatTooLong { actual: actual2, max: max2 },
            ) => *actual == *actual2 && *max == *max2,
            (
                ActionValidationError::CommandTooLong { actual, max },
                ActionValidationError::CommandTooLong { actual: actual2, max: max2 },
            ) => *actual == *actual2 && *max == *max2,
            (
                ActionValidationError::HotbarSlotOutOfRange { slot },
                ActionValidationError::HotbarSlotOutOfRange { slot: slot2 },
            ) => *slot == *slot2,
            (
                ActionValidationError::BlockFaceOutOfRange { face },
                ActionValidationError::BlockFaceOutOfRange { face: face2 },
            ) => *face == *face2,
            (
                ActionValidationError::BlockCursorOutOfRange { value },
                ActionValidationError::BlockCursorOutOfRange { value: value2 },
            ) => same_single(*value, *value2),
            (ActionValidationError::EmptyChat, ActionValidationError::EmptyChat) => true,
            (ActionValidationError::EmptyCommand, ActionValidationError::EmptyCommand) => true,
            (
                ActionValidationError::ChatStartsWithSlash,
                ActionValidationError::ChatStartsWithSlash,
            ) => true,
            (
                ActionValidationError::CommandStartsWithSlash,
                ActionValidationError::CommandStartsWithSlash,
            ) => true,
            (
                ActionValidationError::RandomLookNonFinite,
                ActionValidationError::RandomLookNonFinite,
            ) => true,
            (
                ActionValidationError::RandomLookIntervalOrder,
                ActionValidationError::RandomLookIntervalOrder,
            ) => true,
            (
                ActionValidationError::RandomLookPitchOrder,
                ActionValidationError::RandomLookPitchOrder,
            ) => true,
            (
                ActionValidationError::RandomLookNegativeYawDelta,
                ActionValidationError::RandomLookNegativeYawDelta,
            ) => true,
            _ => false,
        }
    }
}

impl PartialEqSpecImpl for ActionValidationError {
    open spec fn obeys_eq_spec() -> bool {
        true
    }

    open spec fn eq_spec(&self, other: &Self) -> bool {
        match (*self, *other) {
            (
                ActionValidationError::BlockCursorOutOfRange { value },
                ActionValidationError::BlockCursorOutOfRange { value: value2 },
            ) => singles_equal(value, value2),
            (a, b) => a == b,
        }
    }
}

impl ActionValidationError {
    /// What the error says, where a coordinate that is out of range is written as
    /// `coordinate`.
    pub open spec fn text(self, coordinate: Seq<char>) -> Seq<char> {
        match self {
            ActionValidationError::EmptyChat => "chat messages must not be empty"@,
            ActionValidationError::EmptyCommand => "commands must not be empty"@,
            ActionValidationError::ChatStartsWithSlash =>
                "chat text starts with '/'; use the explicit command action instead"@,
            ActionValidationError::CommandStartsWithSlash =>
                "command text must omit the leading '/'"@,
            ActionValidationError::ChatTooLong { actual, max } => "chat message is "@ + decimal(
                actual as int,
            ) + " UTF-16 units; maximum is "@ + decimal(max as int) + ""@,
            ActionValidationError::CommandTooLong { actual, max } => "command is "@ + decimal(
                actual as int,
            ) + " UTF-16 units; maximum is "@ + decimal(max as int) + ""@,
            ActionValidationError::RandomLookNonFinite =>
                "random-look config has a non-finite yaw/pitch bound"@,
            ActionValidationError::RandomLookIntervalOrder =>
                "random-look min_interval must not exceed max_interval"@,
            ActionValidationError::RandomLookPitchOrder =>
                "random-look min_pitch must not exceed max_pitch"@,
            ActionValidationError::RandomLookNegativeYawDelta =>
                "random-look max_yaw_delta must not be negative"@,
            ActionValidationError::HotbarSlotOutOfRange { slot } => "hotbar slot "@ + decimal(
                slot as int,
            ) + " is out of range; must be 0..=8"@,
            ActionValidationError::BlockFaceOutOfRange { face } => "block face "@ + decimal(
                face as int,
            ) + " is out of range; must be 0..=5"@,
            ActionValidationError::BlockCursorOutOfRange { .. } => "block cursor coordinate "@
                + coordinate + " is out of range; must be 0.0..=1.0"@,
        }
    }

    /// What the error says. A coordinate that is out of range is written as the
    /// float layer gives it.
    pub fn message(&self, coordinate: &str) -> (s: String)
        ensures
            s@ == self.text(coordinate@),
    {
        match self {
            ActionValidationError::EmptyChat => "chat messages must not be empty".to_owned(),
            ActionValidationError::EmptyCommand => "commands must not be empty".to_owned(),
            ActionValidationError::ChatStartsWithSlash =>
                "chat text starts with '/'; use the explicit command action instead".to_owned(),
            ActionValidationError::CommandStartsWithSlash =>
                "command text must omit the leading '/'".to_owned(),
            ActionValidationError::ChatTooLong { actual, max } => text_with_two(
                "chat message is ",
                *actual as i128,
                " UTF-16 units; maximum is ",
                *max as i128,
                "",
            ),
            ActionValidationError::CommandTooLong { actual, max } => text_with_two(
                "command is ",
                *actual as i128,
                " UTF-16 units; maximum is ",
                *max as i128,
                "",
            ),
            ActionValidationError::RandomLookNonFinite =>
                "random-look config has a non-finite yaw/pitch bound".to_owned(),
            ActionValidationError::RandomLookIntervalOrder =>
                "random-look min_interval must not exceed max_interval".to_owned(),
            ActionValidationError::RandomLookPitchOrder =>
                "random-look min_pitch must not exceed max_pitch".to_owned(),
            ActionValidationError::RandomLookNegativeYawDelta =>
                "random-look max_yaw_delta must not be negative".to_owned(),
            ActionValidationError::HotbarSlotOutOfRange { slot } => text_with(
                "hotbar slot ",
                *slot as i128,
                " is out of range; must be 0..=8",
            ),
            ActionValidationError::BlockFaceOutOfRange { face } => text_with(
                "block face ",
                *face as i128,
                " is out of range; must be 0..=5",
            ),
            ActionValidationError::BlockCursorOutOfRange { .. } => text_around(
                "block cursor coordinate ",
                coordinate,
                " is out of range; must be 0.0..=1.0",
            ),
        }
    }
}

/// Straight up, in degrees, as single-precision bits.
pub const LOWEST_PITCH: u32 = 0xC2B4_0000;

/// Straight down, in degrees, as single-precision bits.
pub const HIGHEST_PITCH: u32 = 0x42B4_0000;

/// A pitch within the range of the head; what is no number stays as it is.
pub open spec fn clamped_pitch(bits: u32) -> u32 {
    if is_nan(bits) {
        bits
    } else if rank(bits) < rank(LOWEST_PITCH) {
        LOWEST_PITCH
    } else if rank(bits) > rank(HIGHEST_PITCH) {
        HIGHEST_PITCH
    } else {
        bits
    }
}

/// A pitch within the range of the head.
pub fn clamp_pitch(bits: u32) -> (r: u32)
    ensures
        r == clamped_pitch(bits),
{
    if nan(bits) {
        bits
    } else if place(bits) < place(LOWEST_PITCH) {
        LOWEST_PITCH
    } else if place(bits) > place(HIGHEST_PITCH) {
        HIGHEST_PITCH
    } else {
        bits
    }
}

/// What a random orientation is drawn from.
#[derive(Debug, Clone, Copy)]
pub struct LookBounds {
    /// How far the head turns either way; nothing where it does not turn.
    pub yaw_delta: Option<u32>,
    pub min_pitch: u32,
    /// Not below the lower bound; the lower bound itself where nothing is drawn.
    pub max_pitch: u32,
}

impl RandomLookConfig {
    /// What a random orientation is drawn from.
    pub open spec fn bounds(self) -> LookBounds {
        let low = clamped_pitch(self.min_pitch);
        let high = clamped_pitch(self.max_pitch);
        LookBounds {
            yaw_delta: if is_positive(self.max_yaw_delta) {
                Some(self.max_yaw_delta)
            } else {
                None
            },
            min_pitch: low,
            max_pitch: if !is_nan(low) && !is_nan(high) && rank(high) > rank(low) {
                high
            } else {
                low
            },
        }
    }

    /// What a random orientation is drawn from: bounds are brought within the
    /// range of the head, and an upper bound below the lower one counts as the
    /// lower one.
    pub fn look_bounds(&self) -> (b: LookBounds)
        ensures
            b == self.bounds(),
    {
        let low: u32 = clamp_pitch(self.min_pitch);
        let high: u32 = clamp_pitch(self.max_pitch);
        LookBounds {
            yaw_delta: if positive(self.max_yaw_delta) {
                Some(self.max_yaw_delta)
            } else {
                None
            },
            min_pitch: low,
            max_pitch: if !nan(low) && !nan(high) && place(high) > place(low) {
                high
            } else {
                low
            },
        }
    }
}

/// Whatever an accepted configuration says, a random orientation never tilts the
/// head beyond straight up or straight down.
pub proof fn law_random_looks_stay_within_the_head_range(config: RandomLookConfig)
    requires
        config.fault() is None,
    ensures
        ({
            let b = config.bounds();
            rank(LOWEST_PITCH) <= rank(b.min_pitch) <= rank(b.max_pitch) <= rank(HIGHEST_PITCH)
        }),
{
}

impl RandomLookConfig {
    /// Why the configuration is refused, if it is.
    pub open spec fn fault(self) -> Option<ActionValidationError> {
        if !is_finite(self.max_yaw_delta) || !is_finite(self.min_pitch) || !is_finite(
            self.max_pitch,
        ) {
            Some(ActionValidationError::RandomLookNonFinite)
        } else if self.min_interval_nanos > self.max_interval_nanos {
            Some(ActionValidationError::RandomLookIntervalOrder)
        } else if rank(self.min_pitch) > rank(self.max_pitch) {
            Some(ActionValidationError::RandomLookPitchOrder)
        } else if is_negative(self.max_yaw_delta) {
            Some(ActionValidationError::RandomLookNegativeYawDelta)
        } else {
            None
        }
    }

    /// Checks the bounds.
    pub fn validate(&self) -> (res: Result<(), ActionValidationError>)
        ensures
            verdict(res, self.fault()),
    {
        if !finite(self.max_yaw_delta) || !finite(self.min_pitch) || !finite(self.max_pitch) {
            return Err(ActionValidationError::RandomLookNonFinite);
        }
        if self.min_interval_nanos > self.max_interval_nanos {
            return Err(ActionValidationError::RandomLookIntervalOrder);
        }
        if place(self.min_pitch) > place(self.max_pitch) {
            return Err(ActionValidationError::RandomLookPitchOrder);
        }
        if negative(self.max_yaw_delta) {
            return Err(ActionValidationError::RandomLookNegativeYawDelta);
        }
        Ok(())
    }
}

/// A result that fails exactly with the fault, if there is one.
pub open spec fn verdict(
    res: Result<(), ActionValidationError>,
    fault: Option<ActionValidationError>,
) -> bool {
    match (res, fault) {
        (Ok(_), None) => true,
        (Err(e), Some(f)) => e == f,
        _ => false,
    }
}

/// A command sent from a controller to the running play loop. Coordinates and
/// angles are the bits of floating-point numbers.
#[derive(Debug)]
pub enum BotCommand {
    /// Replace the manual movement overlay (impulses, sprint, sneak, jump).
    SetInput(MovementInput),
    /// Face an absolute yaw/pitch (degrees).
    Look { yaw: u32, pitch: u32 },
    /// Walk to a horizontal target, steering yaw and holding forward until
    /// it is reached. Overrides any manual forward impulse.
    WalkTo { x: u64, z: u64 },
    /// Toggle sprint on the manual overlay.
    Sprint(bool),
    /// Toggle sneak on the manual overlay.
    Sneak(bool),
    /// Toggle the jump key on the manual overlay.
    Jump(bool),
    /// Hold or release the forward key. Independent of [`Self::Backward`]:
    /// holding both cancels out to zero impulse.
    Forward(bool),
    /// Hold or release the backward key. Independent of [`Self::Forward`].
    Backward(bool),
    /// Hold or release the strafe-left key.
    StrafeLeft(bool),
    /// Hold or release the strafe-right key.
    StrafeRight(bool),
    /// Enables (`Some`) or disables (`None`) bounded random head rotation.
    SetRandomLook(Option<RandomLookConfig>),
    /// Send an ordinary unsigned chat message. It is never reinterpreted as
    /// a command from its contents.
    Chat(String),
    /// Run a command. The text excludes the leading slash.
    Command(String),
    /// Submit one typed, state-id-bound inventory transaction.
    InventoryClick(InventoryClickRequest),
    /// Use the item held in `Hand`.
    UseItem(Hand),
    /// Play the arm-swing animation for `Hand` without using the held item.
    Swing(Hand),
    /// Select the active hotbar slot (`0..=8`).
    SelectHotbarSlot(i16),
    /// Right-click a block with the held item.
    UseItemOnBlock(BlockPlacement),
    /// Interact with (right-click) an entity by its id.
    InteractEntity { entity_id: i32, hand: Hand, sneaking: bool },
    /// Attack (left-click) an entity by its id.
    AttackEntity { entity_id: i32, sneaking: bool },
    /// Interact with an entity at a specific point on its hitbox.
    InteractAtEntity { entity_id: i32, hand: Hand, sneaking: bool, x: u32, y: u32, z: u32 },
    /// Release the item currently being used.
    ReleaseItem,
    /// Close the currently open container/window.
    CloseGui,
    /// Clear any walk goal and zero all movement input.
    Stop,
}

/// How many UTF-16 code units a text takes: two for a character beyond the
/// first 65536, one for any other.
pub open spec fn utf16_units(s: Seq<char>) -> nat
    decreases s.len(),
{
    if s.len() == 0 {
        0
    } else {
        utf16_units(s.drop_last()) + if s.last() as u32 > 0xFFFF {
            2nat
        } else {
            1nat
        }
    }
}

/// A text takes no fewer units than characters, and no more than twice as many.
proof fn lemma_utf16_units(s: Seq<char>)
    ensures
        s.len() <= utf16_units(s) <= 2 * s.len(),
    decreases s.len(),
{
    if s.len() > 0 {
        lemma_utf16_units(s.drop_last());
    }
}

/// Why a chat message is refused, if it is.
pub open spec fn chat_fault(message: Seq<char>) -> Option<ActionValidationError> {
    if message.len() == 0 {
        Some(ActionValidationError::EmptyChat)
    } else if message[0] == '/' {
        Some(ActionValidationError::ChatStartsWithSlash)
    } else if utf16_units(message) > MAX_CHAT_UTF16_UNITS {
        Some(
            ActionValidationError::ChatTooLong {
                actual: utf16_units(message) as usize,
                max: MAX_CHAT_UTF16_UNITS,
            },
        )
    } else {
        None
    }
}

/// Why a command is refused, if it is.
pub open spec fn command_fault(command: Seq<char>) -> Option<ActionValidationError> {
    if command.len() == 0 {
        Some(ActionValidationError::EmptyCommand)
    } else if command[0] == '/' {
        Some(ActionValidationError::CommandStartsWithSlash)
    } else if utf16_units(command) > MAX_CHAT_UTF16_UNITS {
        Some(
            ActionValidationError::CommandTooLong {
                actual: utf16_units(command) as usize,
                max: MAX_CHAT_UTF16_UNITS,
            },
        )
    } else {
        None
    }
}

/// Whether single-precision bits denote a number from zero to one.
pub open spec fn is_fraction(bits: u32) -> bool {
    is_finite(bits) && 0 <= rank(bits) <= rank(ONE)
}

/// Why a placement is refused, if it is.
pub open spec fn placement_fault(p: BlockPlacement) -> Option<ActionValidationError> {
    if !(0 <= p.face <= 5) {
        Some(ActionValidationError::BlockFaceOutOfRange { face: p.face })
    } else if !is_fraction(p.cursor_x) {
        Some(ActionValidationError::BlockCursorOutOfRange { value: p.cursor_x })
    } else if !is_fraction(p.cursor_y) {
        Some(ActionValidationError::BlockCursorOutOfRange { value: p.cursor_y })
    } else if !is_fraction(p.cursor_z) {
        Some(ActionValidationError::BlockCursorOutOfRange { value: p.cursor_z })
    } else {
        None
    }
}

impl BotCommand {
    /// Why the command is refused, if it is.
    pub open spec fn fault(self) -> Option<ActionValidationError> {
        match self {
            BotCommand::Chat(message) => chat_fault(message@),
            BotCommand::Command(command) => command_fault(command@),
            BotCommand::SetRandomLook(Some(config)) => config.fault(),
            BotCommand::SelectHotbarSlot(slot) => if 0 <= slot <= 8 {
                None
            } else {
                Some(ActionValidationError::HotbarSlotOutOfRange { slot })
            },
            BotCommand::UseItemOnBlock(placement) => placement_fault(placement),
            _ => None,
        }
    }

    /// Validates outbound text/config before it enters a supervised queue or
    /// packet encoder. Commands with no action-specific constraint pass.
    pub fn validate(&self) -> (res: Result<(), ActionValidationError>)
        ensures
            verdict(res, self.fault()),
    {
        match self {
            BotCommand::Chat(message) => validate_chat(message.as_str()),
            BotCommand::Command(command) => validate_command(command.as_str()),
            BotCommand::SetRandomLook(Some(config)) => config.validate(),
            BotCommand::SelectHotbarSlot(slot) => if 0 <= *slot && *slot <= 8 {
                Ok(())
            } else {
                Err(ActionValidationError::HotbarSlotOutOfRange { slot: *slot })
            },
            BotCommand::UseItemOnBlock(placement) => validate_placement(placement),
            _ => Ok(()),
        }
    }
}

fn fraction(bits: u32) -> (b: bool)
    ensures
        b == is_fraction(bits),
{
    finite(bits) && 0 <= place(bits) && place(bits) <= place(ONE)
}

/// Checks a placement's face and cursor.
pub fn validate_placement(placement: &BlockPlacement) -> (res: Result<(), ActionValidationError>)
    ensures
        verdict(res, placement_fault(*placement)),
{
    if placement.face < 0 || placement.face > 5 {
        return Err(ActionValidationError::BlockFaceOutOfRange { face: placement.face });
    }
    if !fraction(placement.cursor_x) {
        return Err(ActionValidationError::BlockCursorOutOfRange { value: placement.cursor_x });
    }
    if !fraction(placement.cursor_y) {
        return Err(ActionValidationError::BlockCursorOutOfRange { value: placement.cursor_y });
    }
    if !fraction(placement.cursor_z) {
        return Err(ActionValidationError::BlockCursorOutOfRange { value: placement.cursor_z });
    }
    Ok(())
}

fn count_utf16(chars: &Vec<char>) -> (n: u128)
    ensures
        n == utf16_units(chars@),
{
    let mut n: u128 = 0;
    let mut i: usize = 0;
    assert(chars@.take(0) =~= Seq::empty());
    while i < chars.len()
        invariant
            i <= chars@.len(),
            n == utf16_units(chars@.take(i as int)),
        decreases chars@.len() - i,
    {
        proof {
            lemma_utf16_units(chars@.take(i as int));
            assert(chars@.take(i + 1).drop_last() =~= chars@.take(i as int));
        }
        n += if chars[i] as u32 > 0xFFFF {
            2
        } else {
            1
        };
        i += 1;
    }
    assert(chars@.take(i as int) =~= chars@);
    n
}

/// Checks a chat message.
pub fn validate_chat(message: &str) -> (res: Result<(), ActionValidationError>)
    ensures
        verdict(res, chat_fault(message@)),
{
    let chars = to_chars(message);
    if chars.len() == 0 {
        return Err(ActionValidationError::EmptyChat);
    }
    if chars[0] == '/' {
        return Err(ActionValidationError::ChatStartsWithSlash);
    }
    let actual: u128 = count_utf16(&chars);
    if actual > MAX_CHAT_UTF16_UNITS as u128 {
        #[verifier::truncate]
        let actual: usize = actual as usize;
        return Err(ActionValidationError::ChatTooLong { actual, max: MAX_CHAT_UTF16_UNITS });
    }
    Ok(())
}

/// Checks a command.
pub fn validate_command(command: &str) -> (res: Result<(), ActionValidationError>)
    ensures
        verdict(res, command_fault(command@)),
{
    let chars = to_chars(command);
    if chars.len() == 0 {
        return Err(ActionValidationError::EmptyCommand);
    }
    if chars[0] == '/' {
        return Err(ActionValidationError::CommandStartsWithSlash);
    }
    let actual: u128 = count_utf16(&chars);
    if actual > MAX_CHAT_UTF16_UNITS as u128 {
        #[verifier::truncate]
        let actual: usize = actual as usize;
        return Err(ActionValidationError::CommandTooLong { actual, max: MAX_CHAT_UTF16_UNITS });
    }
    Ok(())
}

/// `rand::rngs::StdRng`, a source of random numbers.
#[verifier::external_type_specification]
#[verifier::external_body]
pub struct ExStdRng(rand::rngs::StdRng);

/// The source that `rand::SeedableRng::seed_from_u64` makes out of a number.
pub uninterp spec fn seeded(seed: u64) -> StdRng;

/// The number that `rand::Rng::gen_range` draws from a source for a range, ends
/// included, and the source after it.
pub uninterp spec fn drawn(source: StdRng, low: u64, high: u64) -> (u64, StdRng);

/// `rand::SeedableRng::seed_from_u64` makes a source out of a number: one number
/// always makes the same source.
#[verifier::external_body]
fn source_from_seed(seed: u64) -> (source: StdRng)
    ensures
        source == seeded(seed),
{
    StdRng::seed_from_u64(seed)
}

/// `rand::SeedableRng::from_rng` makes a source out of what the operating system
/// gives, where it gives anything. Nothing is said of the source.
#[verifier::external_body]
fn source_from_entropy() -> Option<StdRng> {
    StdRng::from_rng(OsRng).ok()
}

/// `rand::Rng::gen_range` draws a number of a range, ends included. Which one it
/// is depends on the source and the range alone, and so does the source after
/// it.
#[verifier::external_body]
fn draw(source: &mut StdRng, low: u64, high: u64) -> (n: u64)
    requires
        low <= high,
    ensures
        low <= n <= high,
        (n, *final(source)) == drawn(*old(source), low, high),
{
    source.gen_range(low..=high)
}

/// Live random-look state: the caller's config, its own source of random
/// numbers, and a tick countdown to the next chosen orientation.
#[derive(Debug)]
pub struct RandomLookRuntime {
    pub config: RandomLookConfig,
    pub rng: StdRng,
    pub ticks_until_next: u32,
}

impl RandomLookRuntime {
    /// A random look that starts with a source.
    pub open spec fn started(config: RandomLookConfig, source: StdRng) -> RandomLookRuntime {
        let (ticks_until_next, rng) = interval_drawn(config, source);
        RandomLookRuntime { config, rng, ticks_until_next }
    }

    /// Starts a random look with a source.
    pub fn start(config: RandomLookConfig, source: StdRng) -> (look: Self)
        ensures
            look == RandomLookRuntime::started(config, source),
            fits_interval(config, look.ticks_until_next),
    {
        let mut rng = source;
        let ticks_until_next: u32 = random_interval_ticks(&config, &mut rng);
        RandomLookRuntime { config, rng, ticks_until_next }
    }

    /// A tick later.
    pub open spec fn counted(self) -> RandomLookRuntime {
        RandomLookRuntime {
            ticks_until_next: if self.ticks_until_next > 0 {
                (self.ticks_until_next - 1) as u32
            } else {
                0
            },
            ..self
        }
    }

    /// The countdown to the next orientation.
    pub open spec fn redrawn(self) -> RandomLookRuntime {
        RandomLookRuntime::started(self.config, self.rng)
    }
}

/// What becomes of the random look of a controller that is told to look around
/// or to stop it. One seed always starts it the same way. Without a seed the
/// operating system decides, and it stays off where that gives nothing.
pub open spec fn look_set(config: Option<RandomLookConfig>, look: Option<RandomLookRuntime>) -> bool {
    match config {
        None => look is None,
        Some(config) => {
            &&& look matches Some(look) ==> fits_interval(config, look.ticks_until_next)
            &&& match config.seed {
                Some(seed) => look == Some(RandomLookRuntime::started(config, seeded(seed))),
                None => look matches Some(look) ==> exists|source: StdRng|
                    look == #[trigger] RandomLookRuntime::started(config, source),
            }
        },
    }
}

/// What a command does to the random look.
pub open spec fn look_after(
    before: Option<RandomLookRuntime>,
    command: BotCommand,
    after: Option<RandomLookRuntime>,
) -> bool {
    match command {
        BotCommand::SetRandomLook(config) => look_set(config, after),
        _ => after == before,
    }
}

/// What a tick does to the random look: it counts down.
pub open spec fn look_counted(look: Option<RandomLookRuntime>) -> Option<RandomLookRuntime> {
    match look {
        Some(look) => Some(look.counted()),
        None => None,
    }
}

/// The shortest interval that is drawn, in milliseconds: never less than a
/// tick.
pub open spec fn least_millis(config: RandomLookConfig) -> u64 {
    let ms = (config.min_interval_nanos / 1_000_000) as u64;
    if ms < TICK_MILLIS {
        TICK_MILLIS
    } else {
        ms
    }
}

/// The longest interval that is drawn, in milliseconds.
pub open spec fn most_millis(config: RandomLookConfig) -> u64 {
    let ms = (config.max_interval_nanos / 1_000_000) as u64;
    if ms < least_millis(config) {
        least_millis(config)
    } else {
        ms
    }
}

/// Whole ticks of an interval, at least one.
pub open spec fn whole_ticks(millis: u64) -> u64 {
    if millis / TICK_MILLIS < 1 {
        1
    } else {
        millis / TICK_MILLIS
    }
}

/// The fewest ticks that last no shorter than the configured bound.
pub open spec fn least_ticks(config: RandomLookConfig) -> int {
    (config.min_interval_nanos + TICK_NANOS - 1) / TICK_NANOS as int
}

/// The most ticks that last no longer than the configured bound.
pub open spec fn most_ticks(config: RandomLookConfig) -> int {
    config.max_interval_nanos as int / TICK_NANOS as int
}

/// The countdown for an interval: whole ticks, rounded up to the shortest one
/// where whole ticks fit between the bounds.
pub open spec fn ticks_of(config: RandomLookConfig, millis: u64) -> u32 {
    if whole_ticks(millis) < least_ticks(config) <= most_ticks(config) {
        least_ticks(config) as u32
    } else {
        whole_ticks(millis) as u32
    }
}

/// Whether a countdown comes from an interval within the configured bounds.
pub open spec fn fits_interval(config: RandomLookConfig, ticks: u32) -> bool {
    exists|millis: u64|
        least_millis(config) <= millis <= most_millis(config) && ticks == #[trigger] ticks_of(
            config,
            millis,
        )
}

/// The countdown that is drawn from a source, and the source after it. Nothing
/// is drawn where the bounds leave no choice.
pub open spec fn interval_drawn(config: RandomLookConfig, source: StdRng) -> (u32, StdRng) {
    let (least, most) = (least_millis(config), most_millis(config));
    if most > least {
        let (millis, next) = drawn(source, least, most);
        (ticks_of(config, millis), next)
    } else {
        (ticks_of(config, least), source)
    }
}

/// The countdown for an interval of this many milliseconds.
pub fn interval_ticks(config: &RandomLookConfig, millis: u64) -> (ticks: u32)
    ensures
        ticks == ticks_of(*config, millis),
{
    let whole: u64 = if millis / TICK_MILLIS < 1 {
        1
    } else {
        millis / TICK_MILLIS
    };
    let short: u128 = if config.min_interval_nanos % TICK_NANOS == 0 {
        0
    } else {
        1
    };
    let least: u128 = config.min_interval_nanos / TICK_NANOS + short;
    let most: u128 = config.max_interval_nanos / TICK_NANOS;
    proof {
        let n = config.min_interval_nanos as int;
        assert((n + TICK_NANOS - 1) / TICK_NANOS as int == n / TICK_NANOS as int + short);
    }
    if (whole as u128) < least && least <= most {
        #[verifier::truncate]
        let ticks: u32 = least as u32;
        ticks
    } else {
        #[verifier::truncate]
        let ticks: u32 = whole as u32;
        ticks
    }
}

/// Draws a whole-tick interval within the configured bounds (at least one
/// tick).
pub fn random_interval_ticks(config: &RandomLookConfig, rng: &mut StdRng) -> (ticks: u32)
    ensures
        (ticks, *final(rng)) == interval_drawn(*config, *old(rng)),
        fits_interval(*config, ticks),
{
    #[verifier::truncate]
    let least: u64 = (config.min_interval_nanos / 1_000_000) as u64;
    let least: u64 = if least < TICK_MILLIS {
        TICK_MILLIS
    } else {
        least
    };
    #[verifier::truncate]
    let most: u64 = (config.max_interval_nanos / 1_000_000) as u64;
    let most: u64 = if most < least {
        least
    } else {
        most
    };
    let millis: u64 = if most > least {
        draw(rng, least, most)
    } else {
        least
    };
    let ticks: u32 = interval_ticks(config, millis);
    assert(fits_interval(*config, ticks)) by {
        assert(ticks == ticks_of(*config, millis));
    }
    ticks
}

/// Where whole ticks fit between the bounds of an interval, every countdown
/// lasts no shorter and no longer than they say. The bounds of a countdown of
/// more than thirty-two bits are left out.
pub proof fn law_countdowns_keep_the_bounds(config: RandomLookConfig, ticks: u32)
    requires
        fits_interval(config, ticks),
        least_ticks(config) <= most_ticks(config),
        1 <= most_ticks(config) <= u32::MAX,
    ensures
        ticks >= 1,
        config.min_interval_nanos <= ticks * TICK_NANOS <= config.max_interval_nanos,
{
    let millis = choose|millis: u64|
        least_millis(config) <= millis <= most_millis(config) && ticks == #[trigger] ticks_of(
            config,
            millis,
        );
    let least = least_ticks(config);
    let most = most_ticks(config);
    assert(config.min_interval_nanos <= least * TICK_NANOS);
    assert(most * TICK_NANOS <= config.max_interval_nanos);
    assert(config.min_interval_nanos <= config.max_interval_nanos);
    assert(config.max_interval_nanos < (most + 1) * TICK_NANOS);
    assert(most_millis(config) as int == config.max_interval_nanos / 1_000_000);
    assert(millis * 1_000_000 <= config.max_interval_nanos);
    let whole = whole_ticks(millis) as int;
    assert(whole >= 1 && whole * TICK_MILLIS <= millis);
    assert(whole <= most);
}

/// The play loop's per-tick movement driver.
///
/// Holds a manual input overlay and an optional walk goal; [`drive`](Self::drive)
/// resolves them into the player's `input` and yaw each tick before physics.
#[derive(Debug)]
pub struct Controller {
    pub manual: MovementInput,
    /// Where to walk: x and z, as double-precision bits.
    pub goal: Option<(u64, u64)>,
    /// Keys held, one by one, so that opposite keys held together cancel to
    /// zero instead of one silently overwriting the other.
    pub held_forward: bool,
    pub held_backward: bool,
    pub held_left: bool,
    pub held_right: bool,
    pub random_look: Option<RandomLookRuntime>,
}

/// The impulse of two opposite keys.
pub open spec fn impulse(ahead: bool, back: bool) -> u32 {
    if ahead && !back {
        ONE
    } else if back && !ahead {
        MINUS_ONE
    } else {
        0
    }
}

fn impulse_of(ahead: bool, back: bool) -> (bits: u32)
    ensures
        bits == impulse(ahead, back),
{
    if ahead && !back {
        ONE
    } else if back && !ahead {
        MINUS_ONE
    } else {
        0
    }
}

/// All of a controller but its random look.
#[verifier::ext_equal]
pub struct KeysModel {
    pub manual: MovementInput,
    pub goal: Option<(u64, u64)>,
    pub held_forward: bool,
    pub held_backward: bool,
    pub held_left: bool,
    pub held_right: bool,
}

impl KeysModel {
    /// Nothing is held and nowhere to go.
    pub open spec fn idle() -> KeysModel {
        KeysModel {
            manual: MovementInput::idle(),
            goal: None,
            held_forward: false,
            held_backward: false,
            held_left: false,
            held_right: false,
        }
    }

    /// With the forward and backward keys set.
    pub open spec fn with_forward(self, ahead: bool, back: bool) -> KeysModel {
        KeysModel {
            held_forward: ahead,
            held_backward: back,
            manual: MovementInput { forward: impulse(ahead, back), ..self.manual },
            ..self
        }
    }

    /// With the left and right keys set.
    pub open spec fn with_strafe(self, left: bool, right: bool) -> KeysModel {
        KeysModel {
            held_left: left,
            held_right: right,
            manual: MovementInput { strafe: impulse(left, right), ..self.manual },
            ..self
        }
    }

    /// What a command makes of the keys.
    pub open spec fn after(self, command: BotCommand) -> KeysModel {
        match command {
            BotCommand::SetInput(input) => KeysModel {
                manual: input,
                held_forward: is_positive(input.forward),
                held_backward: is_negative(input.forward),
                held_left: is_positive(input.strafe),
                held_right: is_negative(input.strafe),
                ..self
            },
            BotCommand::WalkTo { x, z } => KeysModel { goal: Some((x, z)), ..self },
            BotCommand::Sprint(on) => KeysModel {
                manual: MovementInput { sprint: on, ..self.manual },
                ..self
            },
            BotCommand::Sneak(on) => KeysModel {
                manual: MovementInput { sneak: on, ..self.manual },
                ..self
            },
            BotCommand::Jump(on) => KeysModel {
                manual: MovementInput { jump: on, ..self.manual },
                ..self
            },
            BotCommand::Forward(on) => self.with_forward(on, self.held_backward),
            BotCommand::Backward(on) => self.with_forward(self.held_forward, on),
            BotCommand::StrafeLeft(on) => self.with_strafe(on, self.held_right),
            BotCommand::StrafeRight(on) => self.with_strafe(self.held_left, on),
            BotCommand::Stop => KeysModel::idle(),
            _ => self,
        }
    }

    /// The input of a tick, given whether the goal is reached.
    pub open spec fn input(self, arrived: bool) -> MovementInput {
        match self.goal {
            None => self.manual,
            Some(_) => MovementInput {
                forward: if arrived {
                    0
                } else {
                    ONE
                },
                strafe: 0,
                ..self.manual
            },
        }
    }
}

impl Controller {
    /// All but the random look.
    pub open spec fn keys(self) -> KeysModel {
        KeysModel {
            manual: self.manual,
            goal: self.goal,
            held_forward: self.held_forward,
            held_backward: self.held_backward,
            held_left: self.held_left,
            held_right: self.held_right,
        }
    }
}

impl Default for Controller {
    fn default() -> (c: Self)
        ensures
            c.keys() == KeysModel::idle(),
            c.random_look is None,
    {
        Controller {
            manual: MovementInput::default(),
            goal: None,
            held_forward: false,
            held_backward: false,
            held_left: false,
            held_right: false,
            random_look: None,
        }
    }
}

impl Controller {
    /// Applies one command to the controller state. A random look that is
    /// switched on starts with an interval within its bounds; a stop leaves it
    /// running.
    pub fn apply(&mut self, command: BotCommand)
        ensures
            final(self).keys() == old(self).keys().after(command),
            look_after(old(self).random_look, command, final(self).random_look),
    {
        match command {
            BotCommand::SetRandomLook(config) => self.set_random_look(config),
            BotCommand::SetInput(input) => self.set_input(input),
            BotCommand::WalkTo { x, z } => self.goal = Some((x, z)),
            BotCommand::Stop => self.release_all(),
            other => self.press(other),
        }
    }

    fn set_input(&mut self, input: MovementInput)
        ensures
            final(self).keys() == old(self).keys().after(BotCommand::SetInput(input)),
            final(self).random_look == old(self).random_look,
    {
        self.manual = input;
        self.held_forward = positive(input.forward);
        self.held_backward = negative(input.forward);
        self.held_left = positive(input.strafe);
        self.held_right = negative(input.strafe);
    }

    fn release_all(&mut self)
        ensures
            final(self).keys() == KeysModel::idle(),
            final(self).random_look == old(self).random_look,
    {
        self.goal = None;
        self.manual = MovementInput::default();
        self.held_forward = false;
        self.held_backward = false;
        self.held_left = false;
        self.held_right = false;
    }

    /// Holds or releases one key; other commands are none of the controller's.
    fn press(&mut self, command: BotCommand)
        requires
            !(command is SetRandomLook),
            !(command is SetInput),
            !(command is WalkTo),
            !(command is Stop),
        ensures
            final(self).keys() == old(self).keys().after(command),
            final(self).random_look == old(self).random_look,
    {
        match command {
            BotCommand::Sprint(on) => self.manual.sprint = on,
            BotCommand::Sneak(on) => self.manual.sneak = on,
            BotCommand::Jump(on) => self.manual.jump = on,
            BotCommand::Forward(on) => {
                self.held_forward = on;
                self.recompute_forward();
            },
            BotCommand::Backward(on) => {
                self.held_backward = on;
                self.recompute_forward();
            },
            BotCommand::StrafeLeft(on) => {
                self.held_left = on;
                self.recompute_strafe();
            },
            BotCommand::StrafeRight(on) => {
                self.held_right = on;
                self.recompute_strafe();
            },
            _ => {},
        }
    }

    fn recompute_forward(&mut self)
        ensures
            final(self).keys() == old(self).keys().with_forward(
                old(self).held_forward,
                old(self).held_backward,
            ),
            final(self).random_look == old(self).random_look,
    {
        self.manual.forward = impulse_of(self.held_forward, self.held_backward);
    }

    fn recompute_strafe(&mut self)
        ensures
            final(self).keys() == old(self).keys().with_strafe(
                old(self).held_left,
                old(self).held_right,
            ),
            final(self).random_look == old(self).random_look,
    {
        self.manual.strafe = impulse_of(self.held_left, self.held_right);
    }

    fn set_random_look(&mut self, config: Option<RandomLookConfig>)
        ensures
            final(self).keys() == old(self).keys(),
            look_set(config, final(self).random_look),
    {
        match config {
            None => self.random_look = None,
            Some(config) => {
                let source = match config.seed {
                    Some(seed) => Some(source_from_seed(seed)),
                    None => source_from_entropy(),
                };
                self.random_look = match source {
                    Some(source) => Some(RandomLookRuntime::start(config, source)),
                    None => None,
                };
            },
        }
    }

    /// Advances the random-look countdown by one tick; true where a new
    /// orientation is due.
    pub fn tick_random_look(&mut self) -> (due: bool)
        ensures
            final(self).keys() == old(self).keys(),
            due == (old(self).random_look matches Some(look) && look.ticks_until_next == 0),
            final(self).random_look == look_counted(old(self).random_look),
    {
        match self.random_look.take() {
            None => false,
            Some(mut look) => {
                let due = look.ticks_until_next == 0;
                if !due {
                    look.ticks_until_next -= 1;
                }
                self.random_look = Some(look);
                due
            },
        }
    }

    /// Faces an orientation that was drawn, and draws the interval to the next.
    /// An active walk goal keeps its own yaw.
    pub fn turn_randomly(&mut self, player: &mut LocalPlayer, yaw: u32, pitch: u32)
        ensures
            final(self).keys() == old(self).keys(),
            match old(self).random_look {
                None => final(self).random_look is None && *final(player) == *old(player),
                Some(look) => {
                    &&& final(self).random_look == Some(look.redrawn())
                    &&& fits_interval(look.config, look.redrawn().ticks_until_next)
                    &&& *final(player) == (LocalPlayer {
                        position: PlayerPosition {
                            yaw: if old(self).goal is Some {
                                old(player).position.yaw
                            } else {
                                yaw
                            },
                            pitch,
                            ..old(player).position
                        },
                        ..*old(player)
                    })
                },
            },
    {
        match self.random_look.take() {
            None => {},
            Some(look) => {
                if self.goal.is_none() {
                    player.position.yaw = yaw;
                }
                player.position.pitch = pitch;
                self.random_look = Some(RandomLookRuntime::start(look.config, look.rng));
            },
        }
    }

    /// Applies an absolute look command directly to the player's facing.
    pub fn apply_look(&self, player: &mut LocalPlayer, yaw: u32, pitch: u32)
        ensures
            *final(player) == (LocalPlayer {
                position: PlayerPosition { yaw, pitch, ..old(player).position },
                ..*old(player)
            }),
    {
        player.position.yaw = yaw;
        player.position.pitch = pitch;
    }

    /// Folds the current goal and manual overlay into the player's `input` and
    /// facing for this tick. `arrived` tells whether the goal is within reach,
    /// `yaw` how to face it. A reached walk goal clears itself and stops. True
    /// where a random orientation is due; it comes last.
    pub fn drive(&mut self, player: &mut LocalPlayer, arrived: bool, yaw: u32) -> (due: bool)
        ensures
            final(self).keys() == (KeysModel {
                goal: if arrived {
                    None
                } else {
                    old(self).goal
                },
                ..old(self).keys()
            }),
            *final(player) == (LocalPlayer {
                input: old(self).keys().input(arrived),
                position: PlayerPosition {
                    yaw: if old(self).goal is Some && !arrived {
                        yaw
                    } else {
                        old(player).position.yaw
                    },
                    ..old(player).position
                },
                ..*old(player)
            }),
            due == (old(self).random_look matches Some(look) && look.ticks_until_next == 0),
            final(self).random_look == look_counted(old(self).random_look),
    {
        self.steer(player, arrived, yaw);
        self.tick_random_look()
    }

    fn steer(&mut self, player: &mut LocalPlayer, arrived: bool, yaw: u32)
        ensures
            final(self).keys() == (KeysModel {
                goal: if arrived {
                    None
                } else {
                    old(self).goal
                },
                ..old(self).keys()
            }),
            final(self).random_look == old(self).random_look,
            *final(player) == (LocalPlayer {
                input: old(self).keys().input(arrived),
                position: PlayerPosition {
                    yaw: if old(self).goal is Some && !arrived {
                        yaw
                    } else {
                        old(player).position.yaw
                    },
                    ..old(player).position
                },
                ..*old(player)
            }),
    {
        let mut input = self.manual;
        if self.goal.is_some() {
            input.strafe = 0;
            if arrived {
                input.forward = 0;
            } else {
                input.forward = ONE;
                player.position.yaw = yaw;
            }
        }
        if arrived {
            self.goal = None;
        }
        player.input = input;
    }

    /// Whether a walk goal is currently active.
    pub fn has_goal(&self) -> (b: bool)
        ensures
            b == (self.goal is Some),
    {
        self.goal.is_some()
    }
}

/// One seed gives one sequence: two controllers that are told to look around by
/// the same seeded configuration count down to the same tick and go on drawing
/// from the same source.
pub proof fn law_a_seed_is_reproducible(
    config: RandomLookConfig,
    a: Option<RandomLookRuntime>,
    b: Option<RandomLookRuntime>,
)
    requires
        config.seed is Some,
        look_set(Some(config), a),
        look_set(Some(config), b),
    ensures
        a is Some,
        a == b,
        look_counted(a) == look_counted(b),
        a->0.redrawn() == b->0.redrawn(),
{
}

/// Opposite keys held together cancel out, in whichever order they were
/// pressed; releasing one leaves the other's full impulse.
pub proof fn law_opposite_keys_cancel(k: KeysModel)
    ensures
        k.after(BotCommand::Forward(true)).after(BotCommand::Backward(true)).manual.forward == 0,
        k.after(BotCommand::Backward(true)).after(BotCommand::Forward(true)).manual.forward == 0,
        k.after(BotCommand::Forward(true)).after(BotCommand::Backward(true)).after(
            BotCommand::Forward(false),
        ).manual.forward == MINUS_ONE,
        k.after(BotCommand::StrafeLeft(true)).after(BotCommand::StrafeRight(true)).manual.strafe
            == 0,
        k.after(BotCommand::StrafeRight(true)).after(BotCommand::StrafeLeft(true)).manual.strafe
            == 0,
        k.after(BotCommand::StrafeLeft(true)).after(BotCommand::StrafeRight(true)).after(
            BotCommand::StrafeLeft(false),
        ).manual.strafe == MINUS_ONE,
{
}

/// Directional keys leave the other axis, sprint, sneak, jump and the goal as
/// they were.
pub proof fn law_directional_keys_touch_one_axis(k: KeysModel, on: bool)
    ensures
        forall|c: BotCommand|
            c == BotCommand::Forward(on) || c == BotCommand::Backward(on) ==> {
                let next = #[trigger] k.after(c);
                &&& next.manual == (MovementInput { forward: next.manual.forward, ..k.manual })
                &&& next.goal == k.goal
                &&& next.held_left == k.held_left
                &&& next.held_right == k.held_right
            },
        forall|c: BotCommand|
            c == BotCommand::StrafeLeft(on) || c == BotCommand::StrafeRight(on) ==> {
                let next = #[trigger] k.after(c);
                &&& next.manual == (MovementInput { strafe: next.manual.strafe, ..k.manual })
                &&& next.goal == k.goal
                &&& next.held_forward == k.held_forward
                &&& next.held_backward == k.held_backward
            },
{
}

/// A stop forgets every key and the goal, whatever came before.
pub proof fn law_stop_forgets_everything(k: KeysModel)
    ensures
        k.after(BotCommand::Stop) == KeysModel::idle(),
        k.after(BotCommand::Stop).after(BotCommand::Backward(true)).manual.forward == MINUS_ONE,
{
}

} // verus!
