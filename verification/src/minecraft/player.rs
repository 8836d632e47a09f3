//! Local player state: position, vitals and experience, updated from the
//! authoritative clientbound play packets.
//!
//! Floating-point numbers are kept as their bits. Where a packet adds to what
//! is known, the float layer hands over the sums.
use crate::float_bits::{
    finite, is_finite, is_positive, place, positive, rank, same_single, singles_equal,
};
use crate::minecraft::geometry::{bit, lemma_bits, Vec3};
use crate::minecraft::hud::{PacketLogin, PacketUpdateHealth};
use vstd::prelude::*;
use vstd::std_specs::cmp::{PartialEqSpec, PartialEqSpecImpl};

verus! {

/// Vanilla's maximum number of eligible ticks between position reports.
pub const POSITION_REMINDER_INTERVAL: u32 = 20;

/// Gravity acceleration for a normal (non-fluid, non-elytra) living entity:
/// eight hundredths, as double-precision bits.
pub const GRAVITY: u64 = 0x3FB4_7AE1_47AE_147B;

/// Vertical drag applied every tick after gravity: ninety-eight hundredths, as
/// double-precision bits.
pub const VERTICAL_DRAG: u64 = 0x3FEF_5C28_F5C2_8F5C;

/// Single-precision twenty.
pub const FULL_HEALTH: u32 = 0x41A0_0000;

/// Single-precision five.
pub const SPAWN_SATURATION: u32 = 0x40A0_0000;

/// Single-precision one.
pub const ONE: u32 = 0x3F80_0000;

/// Single-precision minus one.
pub const MINUS_ONE: u32 = 0xBF80_0000;

/// Per-tick movement intent. Impulses are vanilla key states from minus one to
/// one (forward and left positive), as single-precision bits.
#[derive(Debug, Clone, Copy)]
pub struct MovementInput {
    /// Forward (+1) / backward (-1) impulse.
    pub forward: u32,
    /// Left (+1) / right (-1) impulse, matching vanilla `leftImpulse`.
    pub strafe: u32,
    /// Whether the jump key is held.
    pub jump: bool,
    /// Whether the player is sprinting.
    pub sprint: bool,
    /// Whether the player is sneaking (crouching).
    pub sneak: bool,
}

impl PartialEq for MovementInput {
    fn eq(&self, other: &Self) -> (r: bool) {
        same_single(self.forward, other.forward)
            && same_single(self.strafe, other.strafe)
            && self.jump == other.jump
            && self.sprint == other.sprint
            && self.sneak == other.sneak
    }
}

impl PartialEqSpecImpl for MovementInput {
    open spec fn obeys_eq_spec() -> bool {
        true
    }

    open spec fn eq_spec(&self, other: &Self) -> bool {
        &&& singles_equal(self.forward, other.forward)
        &&& singles_equal(self.strafe, other.strafe)
        &&& self.jump == other.jump
        &&& self.sprint == other.sprint
        &&& self.sneak == other.sneak
    }
}

impl MovementInput {
    /// No key is held.
    pub open spec fn idle() -> MovementInput {
        MovementInput { forward: 0, strafe: 0, jump: false, sprint: false, sneak: false }
    }
}

impl Default for MovementInput {
    fn default() -> (i: Self)
        ensures
            i == MovementInput::idle(),
    {
        MovementInput { forward: 0, strafe: 0, jump: false, sprint: false, sneak: false }
    }
}

/// The client's position and rotation as confirmed by the server.
#[derive(Debug, Clone, Copy)]
pub struct PlayerPosition {
    pub at: Vec3,
    /// Degrees, as single-precision bits.
    pub yaw: u32,
    /// Degrees, as single-precision bits.
    pub pitch: u32,
}

impl PartialEq for PlayerPosition {
    fn eq(&self, other: &Self) -> (r: bool) {
        self.at == other.at
            && same_single(self.yaw, other.yaw)
            && same_single(self.pitch, other.pitch)
    }
}

impl PartialEqSpecImpl for PlayerPosition {
    open spec fn obeys_eq_spec() -> bool {
        true
    }

    open spec fn eq_spec(&self, other: &Self) -> bool {
        &&& PartialEqSpec::eq_spec(&self.at, &other.at)
        &&& singles_equal(self.yaw, other.yaw)
        &&& singles_equal(self.pitch, other.pitch)
    }
}

impl PlayerPosition {
    /// The pre-spawn origin used before the first position sync.
    pub open spec fn origin() -> PlayerPosition {
        PlayerPosition { at: Vec3::zero(), yaw: 0, pitch: 0 }
    }
}

/// The server puts the player somewhere. A field whose flag is set is relative
/// to what is known.
pub struct PacketPosition {
    pub teleport_id: i32,
    pub at: Vec3,
    pub velocity: Vec3,
    pub yaw: u32,
    pub pitch: u32,
    /// One bit each for x, y, z, yaw, pitch and the three parts of the
    /// velocity, from the low end.
    pub flags: u32,
}

/// Relative x.
pub const RELATIVE_X: u32 = 0x01;

/// Relative y.
pub const RELATIVE_Y: u32 = 0x02;

/// Relative z.
pub const RELATIVE_Z: u32 = 0x04;

/// Relative yaw.
pub const RELATIVE_YAW: u32 = 0x08;

/// Relative pitch.
pub const RELATIVE_PITCH: u32 = 0x10;

/// Relative velocity along x.
pub const RELATIVE_DX: u32 = 0x20;

/// Relative velocity along y.
pub const RELATIVE_DY: u32 = 0x40;

/// Relative velocity along z.
pub const RELATIVE_DZ: u32 = 0x80;

/// What is known plus what the packet says, field by field.
#[derive(Debug, Clone, Copy)]
pub struct PositionSums {
    pub at: Vec3,
    pub velocity: Vec3,
    pub yaw: u32,
    pub pitch: u32,
}

/// One of two vectors per part, by three bits of `flags` from `first` on.
pub open spec fn chosen(flags: u32, first: u32, sum: Vec3, plain: Vec3) -> Vec3 {
    Vec3 {
        x: if bit(flags, first) {
            sum.x
        } else {
            plain.x
        },
        y: if bit(flags, (first + 1) as u32) {
            sum.y
        } else {
            plain.y
        },
        z: if bit(flags, (first + 2) as u32) {
            sum.z
        } else {
            plain.z
        },
    }
}

/// Where the player is once the packet is applied.
pub open spec fn placed(packet: PacketPosition, sums: PositionSums) -> PlayerPosition {
    PlayerPosition {
        at: chosen(packet.flags, 0, sums.at, packet.at),
        yaw: if bit(packet.flags, 3) {
            sums.yaw
        } else {
            packet.yaw
        },
        pitch: if bit(packet.flags, 4) {
            sums.pitch
        } else {
            packet.pitch
        },
    }
}

fn pick(relative: bool, sum: u64, plain: u64) -> (v: u64)
    ensures
        v == (if relative {
            sum
        } else {
            plain
        }),
{
    if relative {
        sum
    } else {
        plain
    }
}

impl PlayerPosition {
    /// Applies a `synchronize_player_position` packet, honoring the
    /// relative-flag bitmask.
    pub fn apply(&mut self, packet: &PacketPosition, sums: &PositionSums)
        ensures
            *final(self) == placed(*packet, *sums),
    {
        let flags: u32 = packet.flags;
        proof {
            lemma_bits(flags);
        }
        self.at = Vec3 {
            x: pick(flags & RELATIVE_X != 0, sums.at.x, packet.at.x),
            y: pick(flags & RELATIVE_Y != 0, sums.at.y, packet.at.y),
            z: pick(flags & RELATIVE_Z != 0, sums.at.z, packet.at.z),
        };
        self.yaw = if flags & RELATIVE_YAW != 0 {
            sums.yaw
        } else {
            packet.yaw
        };
        self.pitch = if flags & RELATIVE_PITCH != 0 {
            sums.pitch
        } else {
            packet.pitch
        };
    }
}

/// An `experience` packet.
pub struct PacketExperience {
    /// Single-precision bits.
    pub experience_bar: u32,
    pub level: i32,
    pub total_experience: i32,
}

/// Position, rotation and flags.
#[derive(Debug, Clone, Copy)]
pub struct PacketPositionLook {
    pub at: Vec3,
    pub yaw: u32,
    pub pitch: u32,
    pub flags: u8,
}

impl PartialEq for PacketPositionLook {
    fn eq(&self, other: &Self) -> (r: bool) {
        self.at == other.at
            && same_single(self.yaw, other.yaw)
            && same_single(self.pitch, other.pitch)
            && self.flags == other.flags
    }
}

impl PartialEqSpecImpl for PacketPositionLook {
    open spec fn obeys_eq_spec() -> bool {
        true
    }

    open spec fn eq_spec(&self, other: &Self) -> bool {
        &&& PartialEqSpec::eq_spec(&self.at, &other.at)
        &&& singles_equal(self.yaw, other.yaw)
        &&& singles_equal(self.pitch, other.pitch)
        &&& self.flags == other.flags
    }
}

/// Position and flags.
#[derive(Debug, Clone, Copy, PartialEq)]
pub struct PacketPositionServerbound {
    pub at: Vec3,
    pub flags: u8,
}

/// Rotation and flags.
#[derive(Debug, Clone, Copy)]
pub struct PacketLook {
    pub yaw: u32,
    pub pitch: u32,
    pub flags: u8,
}

impl PartialEq for PacketLook {
    fn eq(&self, other: &Self) -> (r: bool) {
        same_single(self.yaw, other.yaw)
            && same_single(self.pitch, other.pitch)
            && self.flags == other.flags
    }
}

impl PartialEqSpecImpl for PacketLook {
    open spec fn obeys_eq_spec() -> bool {
        true
    }

    open spec fn eq_spec(&self, other: &Self) -> bool {
        &&& singles_equal(self.yaw, other.yaw)
        &&& singles_equal(self.pitch, other.pitch)
        &&& self.flags == other.flags
    }
}

/// Flags only.
#[derive(Debug, Clone, Copy, PartialEq, Eq, Structural)]
pub struct PacketFlying {
    pub flags: u8,
}

/// The movement packet selected by vanilla's `LocalPlayer.sendPosition()`.
#[derive(Debug, Clone, Copy, PartialEq)]
pub enum MovementPacket {
    PositionLook(PacketPositionLook),
    Position(PacketPositionServerbound),
    Look(PacketLook),
    StatusOnly(PacketFlying),
}

/// Movement flag: on the ground.
pub const ON_GROUND: u8 = 0x01;

/// Movement flag: pushed against a wall.
pub const HAS_HORIZONTAL_COLLISION: u8 = 0x02;

/// State of the local (own) player, assembled from clientbound play packets.
///
/// Vitals default to the vanilla spawn values (full health/food) so the
/// struct is meaningful before the first `update_health` arrives.
#[derive(Debug, Clone, Copy)]
pub struct LocalPlayer {
    /// Own entity id, as reported by the play `login` packet.
    pub entity_id: Option<i32>,
    /// Server-confirmed position and rotation.
    pub position: PlayerPosition,
    /// Current health in half-hearts, as single-precision bits.
    pub health: u32,
    /// Food level (0-20).
    pub food: i32,
    /// Food saturation, as single-precision bits.
    pub saturation: u32,
    /// Experience bar fill, as single-precision bits.
    pub xp_bar: u32,
    /// Experience level.
    pub xp_level: i32,
    /// Total accumulated experience points.
    pub total_experience: i32,
    /// Whether vanilla's loading state has declared this world ready.
    pub loaded: bool,
    /// Current ground flag included in every movement packet.
    pub on_ground: bool,
    /// Current horizontal-collision flag included in every movement packet.
    pub horizontal_collision: bool,
    /// Current client-side velocity in blocks per tick.
    pub velocity: Vec3,
    /// Movement intent applied on the next physics tick.
    pub input: MovementInput,
    /// Remaining cooldown ticks before another ground jump is allowed.
    pub jump_delay: u8,
    /// Where the player was when it last reported its position.
    pub last_position: PlayerPosition,
    pub last_on_ground: bool,
    pub last_horizontal_collision: bool,
    /// Reports since the last one that held the position.
    pub position_reminder: u32,
}

impl PartialEq for LocalPlayer {
    fn eq(&self, other: &Self) -> (r: bool) {
        self.entity_id == other.entity_id
            && self.position == other.position
            && same_single(self.health, other.health)
            && self.food == other.food
            && same_single(self.saturation, other.saturation)
            && same_single(self.xp_bar, other.xp_bar)
            && self.xp_level == other.xp_level
            && self.total_experience == other.total_experience
            && self.loaded == other.loaded
            && self.on_ground == other.on_ground
            && self.horizontal_collision == other.horizontal_collision
            && self.velocity == other.velocity
            && self.input == other.input
            && self.jump_delay == other.jump_delay
            && self.last_position == other.last_position
            && self.last_on_ground == other.last_on_ground
            && self.last_horizontal_collision == other.last_horizontal_collision
            && self.position_reminder == other.position_reminder
    }
}

impl PartialEqSpecImpl for LocalPlayer {
    open spec fn obeys_eq_spec() -> bool {
        true
    }

    open spec fn eq_spec(&self, other: &Self) -> bool {
        &&& self.entity_id == other.entity_id
        &&& PartialEqSpec::eq_spec(&self.position, &other.position)
        &&& singles_equal(self.health, other.health)
        &&& self.food == other.food
        &&& singles_equal(self.saturation, other.saturation)
        &&& singles_equal(self.xp_bar, other.xp_bar)
        &&& self.xp_level == other.xp_level
        &&& self.total_experience == other.total_experience
        &&& self.loaded == other.loaded
        &&& self.on_ground == other.on_ground
        &&& self.horizontal_collision == other.horizontal_collision
        &&& PartialEqSpec::eq_spec(&self.velocity, &other.velocity)
        &&& PartialEqSpec::eq_spec(&self.input, &other.input)
        &&& self.jump_delay == other.jump_delay
        &&& PartialEqSpec::eq_spec(&self.last_position, &other.last_position)
        &&& self.last_on_ground == other.last_on_ground
        &&& self.last_horizontal_collision == other.last_horizontal_collision
        &&& self.position_reminder == other.position_reminder
    }
}

/// Whether a turn from one angle to another shows: the two differ as numbers,
/// or one of them is no finite number.
pub open spec fn turned(from: u32, to: u32) -> bool {
    !(is_finite(from) && is_finite(to) && rank(from) == rank(to))
}

impl LocalPlayer {
    /// The position was reported within the interval.
    pub open spec fn valid(self) -> bool {
        self.position_reminder < POSITION_REMINDER_INTERVAL
    }

    /// A freshly-joined player.
    pub open spec fn spawn() -> LocalPlayer {
        LocalPlayer {
            entity_id: None,
            position: PlayerPosition::origin(),
            health: FULL_HEALTH,
            food: 20,
            saturation: SPAWN_SATURATION,
            xp_bar: 0,
            xp_level: 0,
            total_experience: 0,
            loaded: false,
            on_ground: false,
            horizontal_collision: false,
            velocity: Vec3::zero(),
            input: MovementInput::idle(),
            jump_delay: 0,
            last_position: PlayerPosition::origin(),
            last_on_ground: false,
            last_horizontal_collision: false,
            position_reminder: 0,
        }
    }

    /// Alive: there is health left.
    pub open spec fn alive(self) -> bool {
        is_positive(self.health)
    }

    /// The flags of every movement packet.
    pub open spec fn flags(self) -> u8 {
        (if self.on_ground {
            1int
        } else {
            0
        } + if self.horizontal_collision {
            2int
        } else {
            0
        }) as u8
    }

    /// Whether the rotation differs from what was last reported.
    pub open spec fn rotated(self) -> bool {
        turned(self.last_position.yaw, self.position.yaw) || turned(
            self.last_position.pitch,
            self.position.pitch,
        )
    }

    /// The packet that a report sends, given whether the position is due.
    pub open spec fn report_packet(self, due: bool) -> Option<MovementPacket> {
        if due && self.rotated() {
            Some(
                MovementPacket::PositionLook(
                    PacketPositionLook {
                        at: self.position.at,
                        yaw: self.position.yaw,
                        pitch: self.position.pitch,
                        flags: self.flags(),
                    },
                ),
            )
        } else if due {
            Some(
                MovementPacket::Position(
                    PacketPositionServerbound { at: self.position.at, flags: self.flags() },
                ),
            )
        } else if self.rotated() {
            Some(
                MovementPacket::Look(
                    PacketLook {
                        yaw: self.position.yaw,
                        pitch: self.position.pitch,
                        flags: self.flags(),
                    },
                ),
            )
        } else if self.on_ground != self.last_on_ground || self.horizontal_collision
            != self.last_horizontal_collision {
            Some(MovementPacket::StatusOnly(PacketFlying { flags: self.flags() }))
        } else {
            None
        }
    }

    /// Whether the position is due: the player moved far enough, or nothing
    /// was said of it for a whole interval.
    pub open spec fn position_due(self, moved: bool) -> bool {
        moved || self.position_reminder + 1 >= POSITION_REMINDER_INTERVAL
    }

    /// The player after a report: what was said is what was last said.
    pub open spec fn reported(self, moved: bool) -> LocalPlayer {
        let due = self.position_due(moved);
        LocalPlayer {
            last_position: PlayerPosition {
                at: if due {
                    self.position.at
                } else {
                    self.last_position.at
                },
                yaw: if self.rotated() {
                    self.position.yaw
                } else {
                    self.last_position.yaw
                },
                pitch: if self.rotated() {
                    self.position.pitch
                } else {
                    self.last_position.pitch
                },
            },
            last_on_ground: self.on_ground,
            last_horizontal_collision: self.horizontal_collision,
            position_reminder: if due {
                0
            } else {
                (self.position_reminder + 1) as u32
            },
            ..self
        }
    }

    /// The player with the last report set to where it is.
    pub open spec fn settled(self) -> LocalPlayer {
        LocalPlayer {
            last_position: self.position,
            last_on_ground: self.on_ground,
            last_horizontal_collision: self.horizontal_collision,
            position_reminder: 0,
            ..self
        }
    }

    /// A freshly-joined player with vanilla spawn defaults.
    pub fn new() -> (p: Self)
        ensures
            p == LocalPlayer::spawn(),
            p.valid(),
            p.alive(),
    {
        let origin = PlayerPosition { at: Vec3::default(), yaw: 0, pitch: 0 };
        LocalPlayer {
            entity_id: None,
            position: origin,
            health: FULL_HEALTH,
            food: 20,
            saturation: SPAWN_SATURATION,
            xp_bar: 0,
            xp_level: 0,
            total_experience: 0,
            loaded: false,
            on_ground: false,
            horizontal_collision: false,
            velocity: Vec3::default(),
            input: MovementInput::default(),
            jump_delay: 0,
            last_position: origin,
            last_on_ground: false,
            last_horizontal_collision: false,
            position_reminder: 0,
        }
    }

    /// Records the own entity id from the play `login` packet.
    pub fn on_login(&mut self, packet: &PacketLogin)
        ensures
            *final(self) == (LocalPlayer {
                entity_id: Some(packet.entity_id),
                loaded: false,
                ..*old(self)
            }),
    {
        self.entity_id = Some(packet.entity_id);
        self.loaded = false;
    }

    /// Resets transient physics state for a fresh life after a `respawn`
    /// packet, and drops `loaded` so the play loop re-enters the normal
    /// readiness check.
    pub fn on_respawn(&mut self)
        ensures
            *final(self) == (LocalPlayer {
                loaded: false,
                velocity: Vec3::zero(),
                on_ground: false,
                horizontal_collision: false,
                ..*old(self)
            }),
    {
        self.loaded = false;
        self.velocity = Vec3::default();
        self.on_ground = false;
        self.horizontal_collision = false;
    }

    /// Applies a `synchronize_player_position` packet.
    pub fn on_position(&mut self, packet: &PacketPosition, sums: &PositionSums)
        ensures
            *final(self) == (LocalPlayer {
                position: placed(*packet, *sums),
                velocity: chosen(packet.flags, 5, sums.velocity, packet.velocity),
                ..*old(self)
            }),
    {
        self.position.apply(packet, sums);
        let flags: u32 = packet.flags;
        proof {
            lemma_bits(flags);
        }
        self.velocity = Vec3 {
            x: pick(flags & RELATIVE_DX != 0, sums.velocity.x, packet.velocity.x),
            y: pick(flags & RELATIVE_DY != 0, sums.velocity.y, packet.velocity.y),
            z: pick(flags & RELATIVE_DZ != 0, sums.velocity.z, packet.velocity.z),
        };
    }

    /// Applies an `entity_velocity` packet addressed to this player's own
    /// entity id: an absolute velocity, not a change.
    pub fn apply_velocity(&mut self, velocity: Vec3)
        ensures
            *final(self) == (LocalPlayer { velocity, ..*old(self) }),
    {
        self.velocity = velocity;
    }

    /// Applies an `update_health` packet (health, food, saturation).
    pub fn on_health(&mut self, packet: &PacketUpdateHealth)
        ensures
            *final(self) == (LocalPlayer {
                health: packet.health,
                food: packet.food,
                saturation: packet.food_saturation,
                ..*old(self)
            }),
    {
        self.health = packet.health;
        self.food = packet.food;
        self.saturation = packet.food_saturation;
    }

    /// Applies an `experience` packet (bar, level, total).
    pub fn on_experience(&mut self, packet: &PacketExperience)
        ensures
            *final(self) == (LocalPlayer {
                xp_bar: packet.experience_bar,
                xp_level: packet.level,
                total_experience: packet.total_experience,
                ..*old(self)
            }),
    {
        self.xp_bar = packet.experience_bar;
        self.xp_level = packet.level;
        self.total_experience = packet.total_experience;
    }

    /// Marks the initial world load complete and initializes vanilla's last-sent
    /// movement baseline from the current authoritative position.
    pub fn mark_loaded(&mut self)
        ensures
            *final(self) == (LocalPlayer { loaded: true, ..old(self).settled() }),
            final(self).valid(),
    {
        self.loaded = true;
        self.settle();
    }

    fn settle(&mut self)
        ensures
            *final(self) == old(self).settled(),
    {
        self.last_position = self.position;
        self.last_on_ground = self.on_ground;
        self.last_horizontal_collision = self.horizontal_collision;
        self.position_reminder = 0;
    }

    /// The full report that follows the confirmation of a teleport: the
    /// absolute position and rotation, with no flag set. It becomes what was
    /// last reported, so the next tick does not repeat it.
    pub fn teleport_ack_movement(&mut self) -> (packet: PacketPositionLook)
        ensures
            *final(self) == old(self).settled(),
            final(self).valid(),
            packet == (PacketPositionLook {
                at: old(self).position.at,
                yaw: old(self).position.yaw,
                pitch: old(self).position.pitch,
                flags: 0,
            }),
    {
        self.settle();
        PacketPositionLook {
            at: self.position.at,
            yaw: self.position.yaw,
            pitch: self.position.pitch,
            flags: 0,
        }
    }

    fn movement_flags(&self) -> (flags: u8)
        ensures
            flags == self.flags(),
    {
        let ground: u8 = if self.on_ground {
            ON_GROUND
        } else {
            0
        };
        let wall: u8 = if self.horizontal_collision {
            HAS_HORIZONTAL_COLLISION
        } else {
            0
        };
        ground + wall
    }

    fn has_rotated(&self) -> (b: bool)
        ensures
            b == self.rotated(),
    {
        differs(self.last_position.yaw, self.position.yaw) || differs(
            self.last_position.pitch,
            self.position.pitch,
        )
    }

    /// Runs one eligible vanilla `sendPosition` tick. `moved` tells whether the
    /// player is further than two ten-thousandths of a block from where it last
    /// reported to be.
    ///
    /// Packet choice and counter ordering mirror 1.21.4: combined position/look,
    /// position only, look only, then status only. An unchanged position is
    /// reported every 20 eligible ticks.
    pub fn movement_packet(&mut self, moved: bool) -> (packet: Option<MovementPacket>)
        requires
            old(self).valid(),
        ensures
            final(self).valid(),
            !old(self).loaded ==> packet is None && *final(self) == *old(self),
            old(self).loaded ==> packet == old(self).report_packet(old(self).position_due(moved))
                && *final(self) == old(self).reported(moved),
    {
        if !self.loaded {
            return None;
        }
        self.position_reminder += 1;
        let due = moved || self.position_reminder >= POSITION_REMINDER_INTERVAL;
        let rotated = self.has_rotated();
        let flags: u8 = self.movement_flags();
        let packet = if due && rotated {
            Some(
                MovementPacket::PositionLook(
                    PacketPositionLook {
                        at: self.position.at,
                        yaw: self.position.yaw,
                        pitch: self.position.pitch,
                        flags,
                    },
                ),
            )
        } else if due {
            Some(
                MovementPacket::Position(PacketPositionServerbound { at: self.position.at, flags }),
            )
        } else if rotated {
            Some(
                MovementPacket::Look(
                    PacketLook { yaw: self.position.yaw, pitch: self.position.pitch, flags },
                ),
            )
        } else if self.on_ground != self.last_on_ground || self.horizontal_collision
            != self.last_horizontal_collision {
            Some(MovementPacket::StatusOnly(PacketFlying { flags }))
        } else {
            None
        };
        if due {
            self.last_position.at = self.position.at;
            self.position_reminder = 0;
        }
        if rotated {
            self.last_position.yaw = self.position.yaw;
            self.last_position.pitch = self.position.pitch;
        }
        self.last_on_ground = self.on_ground;
        self.last_horizontal_collision = self.horizontal_collision;
        packet
    }

    /// Whether the player currently has any health left.
    pub fn is_alive(&self) -> (b: bool)
        ensures
            b == self.alive(),
    {
        positive(self.health)
    }
}

impl Default for LocalPlayer {
    fn default() -> (p: Self)
        ensures
            p == LocalPlayer::spawn(),
            p.valid(),
    {
        LocalPlayer::new()
    }
}

fn differs(from: u32, to: u32) -> (b: bool)
    ensures
        b == turned(from, to),
{
    !(finite(from) && finite(to) && place(from) == place(to))
}

/// The player after `n` reports without having moved far.
pub open spec fn after_still_reports(p: LocalPlayer, n: nat) -> LocalPlayer
    decreases n,
{
    if n == 0 {
        p
    } else {
        after_still_reports(p, (n - 1) as nat).reported(false)
    }
}

/// A loaded player that stands still says nothing for nineteen ticks, and its
/// position on the twentieth.
pub proof fn law_still_players_report_every_twentieth_tick(p: LocalPlayer, n: nat)
    requires
        p == p.settled(),
        is_finite(p.position.yaw),
        is_finite(p.position.pitch),
        n < POSITION_REMINDER_INTERVAL,
    ensures
        ({
            let now = after_still_reports(p, n);
            let packet = now.report_packet(now.position_due(false));
            &&& now == (LocalPlayer { position_reminder: n as u32, ..p })
            &&& n < POSITION_REMINDER_INTERVAL - 1 ==> packet is None
            &&& n == POSITION_REMINDER_INTERVAL - 1 ==> packet == Some(
                MovementPacket::Position(
                    PacketPositionServerbound { at: p.position.at, flags: p.flags() },
                ),
            ) && now.reported(false) == p
        }),
    decreases n,
{
    if n > 0 {
        law_still_players_report_every_twentieth_tick(p, (n - 1) as nat);
    }
}

/// After a teleport was acknowledged, the next tick has nothing to add.
pub proof fn law_acknowledged_teleports_are_not_repeated(p: LocalPlayer)
    requires
        is_finite(p.position.yaw),
        is_finite(p.position.pitch),
    ensures
        p.settled().report_packet(p.settled().position_due(false)) is None,
{
}

} // verus!
