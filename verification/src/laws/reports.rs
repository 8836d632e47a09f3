//! What the server is told of the player, and what it tells of the player.
use crate::float_bits::{is_finite, rank};
use crate::minecraft::geometry::lemma_bits;
use crate::minecraft::play::input_flags;
use crate::minecraft::player::{
    chosen, placed, LocalPlayer, MovementInput, MovementPacket, PacketPosition, PlayerPosition,
    PositionSums,
};
use vstd::prelude::*;

verus! {

/// Where the server takes the player to be and to look, once it has a packet.
pub open spec fn server_belief(
    before: PlayerPosition,
    packet: Option<MovementPacket>,
) -> PlayerPosition {
    match packet {
        None => before,
        Some(MovementPacket::PositionLook(p)) => PlayerPosition {
            at: p.at,
            yaw: p.yaw,
            pitch: p.pitch,
        },
        Some(MovementPacket::Position(p)) => PlayerPosition { at: p.at, ..before },
        Some(MovementPacket::Look(p)) => PlayerPosition { yaw: p.yaw, pitch: p.pitch, ..before },
        Some(MovementPacket::StatusOnly(_)) => before,
    }
}

/// The flags of a packet, if there is one.
pub open spec fn flags_sent(packet: Option<MovementPacket>) -> Option<u8> {
    match packet {
        None => None,
        Some(MovementPacket::PositionLook(p)) => Some(p.flags),
        Some(MovementPacket::Position(p)) => Some(p.flags),
        Some(MovementPacket::Look(p)) => Some(p.flags),
        Some(MovementPacket::StatusOnly(p)) => Some(p.flags),
    }
}

/// Whether a packet says where the player is.
pub open spec fn tells_position(packet: Option<MovementPacket>) -> bool {
    packet matches Some(p) && (p is PositionLook || p is Position)
}

/// Whether a packet says where the player looks.
pub open spec fn tells_rotation(packet: Option<MovementPacket>) -> bool {
    packet matches Some(p) && (p is PositionLook || p is Look)
}

/// A report tells the truth: what it says of the place and the facing is where the
/// player is and looks now, and the flags are those of now. What the server
/// believes after it is what the player takes to be last reported. Nothing else of
/// the player changes.
pub proof fn law_reports_tell_the_truth(p: LocalPlayer, moved: bool)
    ensures
        ({
            let packet = p.report_packet(p.position_due(moved));
            let after = p.reported(moved);
            let belief = server_belief(p.last_position, packet);
            &&& tells_position(packet) ==> belief.at == p.position.at
            &&& tells_rotation(packet) ==> belief.yaw == p.position.yaw && belief.pitch
                == p.position.pitch
            &&& flags_sent(packet) matches Some(flags) ==> flags < 4 && (flags % 2 == 1
                <==> p.on_ground) && (flags / 2 == 1 <==> p.horizontal_collision)
            &&& after.last_position == belief
            &&& after.last_on_ground == p.on_ground
            &&& after.last_horizontal_collision == p.horizontal_collision
            &&& after == (LocalPlayer {
                last_position: after.last_position,
                last_on_ground: after.last_on_ground,
                last_horizontal_collision: after.last_horizontal_collision,
                position_reminder: after.position_reminder,
                ..p
            })
        }),
{
}

/// A report says what is due and no more: the place where the player moved or
/// nineteen reports went by without it, the facing where it turned, and the flags
/// alone where only they changed. Where nothing changed nothing is sent.
pub proof fn law_reports_say_what_is_due(p: LocalPlayer, moved: bool)
    requires
        p.valid(),
    ensures
        ({
            let packet = p.report_packet(p.position_due(moved));
            let faces = rank(p.last_position.yaw) == rank(p.position.yaw) && rank(
                p.last_position.pitch,
            ) == rank(p.position.pitch) && is_finite(p.position.yaw) && is_finite(p.position.pitch)
                && is_finite(p.last_position.yaw) && is_finite(p.last_position.pitch);
            &&& tells_position(packet) <==> moved || p.position_reminder >= 19
            &&& tells_rotation(packet) <==> !faces
            &&& packet is None <==> !moved && p.position_reminder < 19 && faces && p.on_ground
                == p.last_on_ground && p.horizontal_collision == p.last_horizontal_collision
            &&& p.reported(moved).position_reminder == (if moved || p.position_reminder >= 19 {
                0int
            } else {
                p.position_reminder + 1
            })
        }),
{
}

/// A packet that puts the player somewhere takes each part by its own flag: where
/// the flag is set the part is relative and the sum counts, otherwise the part
/// itself.
pub proof fn law_teleports_take_parts_by_their_flags(packet: PacketPosition, sums: PositionSums)
    ensures
        ({
            let f = packet.flags;
            let to = placed(packet, sums);
            let v = chosen(f, 5, sums.velocity, packet.velocity);
            &&& to.at.x == (if f & 0x01 != 0 { sums.at.x } else { packet.at.x })
            &&& to.at.y == (if f & 0x02 != 0 { sums.at.y } else { packet.at.y })
            &&& to.at.z == (if f & 0x04 != 0 { sums.at.z } else { packet.at.z })
            &&& to.yaw == (if f & 0x08 != 0 { sums.yaw } else { packet.yaw })
            &&& to.pitch == (if f & 0x10 != 0 { sums.pitch } else { packet.pitch })
            &&& v.x == (if f & 0x20 != 0 { sums.velocity.x } else { packet.velocity.x })
            &&& v.y == (if f & 0x40 != 0 { sums.velocity.y } else { packet.velocity.y })
            &&& v.z == (if f & 0x80 != 0 { sums.velocity.z } else { packet.velocity.z })
        }),
{
    lemma_bits(packet.flags);
}

/// Once a teleport is acknowledged, what the server was told last is where the
/// player is, and the count to the next reminder starts anew.
pub proof fn law_acknowledged_places_are_last_reported(p: LocalPlayer)
    ensures
        p.settled().last_position == p.position,
        p.settled().position == p.position,
        p.settled().last_on_ground == p.on_ground,
        p.settled().last_horizontal_collision == p.horizontal_collision,
        p.settled().position_reminder == 0,
{
}

/// The keys are told one bit each: forward, backward, left, right, jump, sneak and
/// sprint from the low end. Impulses count by their sign.
pub proof fn law_keys_are_told_bit_by_bit(input: MovementInput)
    ensures
        ({
            let n = input_flags(input);
            &&& 0 <= n < 128
            &&& n % 2 == 1 <==> 0 < input.forward <= 0x7F80_0000
            &&& n / 2 % 2 == 1 <==> 0x8000_0000 < input.forward <= 0xFF80_0000
            &&& n / 4 % 2 == 1 <==> 0 < input.strafe <= 0x7F80_0000
            &&& n / 8 % 2 == 1 <==> 0x8000_0000 < input.strafe <= 0xFF80_0000
            &&& n / 16 % 2 == 1 <==> input.jump
            &&& n / 32 % 2 == 1 <==> input.sneak
            &&& n / 64 == 1 <==> input.sprint
        }),
{
}

} // verus!
