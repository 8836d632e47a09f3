//! What commands do to the keys, and which of them are refused.
use crate::minecraft::control::{
    clamp_pitch, utf16_units, validate_chat, validate_command, validate_placement,
    ActionValidationError, BlockPlacement, BotCommand, Controller, Hand, LookBounds,
    RandomLookConfig,
};
use crate::minecraft::player::{LocalPlayer, MovementInput};
use vstd::prelude::*;

verus! {

/// The units of a text add up over its parts: one for each character of sixteen bits
/// and two for each beyond them.
pub proof fn law_units_add_up(s: Seq<char>, t: Seq<char>, c: char)
    ensures
        utf16_units(Seq::empty()) == 0,
        utf16_units(s + t) == utf16_units(s) + utf16_units(t),
        c as u32 <= 0xFFFF ==> utf16_units(seq![c]) == 1,
        c as u32 > 0xFFFF ==> utf16_units(seq![c]) == 2,
    decreases t.len(),
{
    reveal_with_fuel(utf16_units, 2);
    assert(seq![c].drop_last() =~= Seq::<char>::empty());
    if t.len() == 0 {
        assert(s + t =~= s);
    } else {
        law_units_add_up(s, t.drop_last(), c);
        assert((s + t).drop_last() =~= s + t.drop_last());
    }
}

/// A chat message passes exactly where it has between one and 256 units and does
/// not start with a slash; emptiness comes before the slash, and the slash before
/// the length.
pub proof fn law_chat_is_short_and_no_command(
    message: &str,
    res: Result<(), ActionValidationError>,
)
    requires
        call_ensures(validate_chat, (message,), res),
    ensures
        res is Ok <==> message@.len() > 0 && message@[0] != '/' && utf16_units(message@) <= 256,
        res == Err::<(), _>(ActionValidationError::EmptyChat) <==> message@.len() == 0,
        res == Err::<(), _>(ActionValidationError::ChatStartsWithSlash) <==> message@.len() > 0
            && message@[0] == '/',
        message@.len() > 0 && message@[0] != '/' && 256 < utf16_units(message@) <= usize::MAX
            ==> res == Err::<(), _>(
            ActionValidationError::ChatTooLong {
                actual: utf16_units(message@) as usize,
                max: 256,
            },
        ),
{
}

/// A command passes exactly where it has between one and 256 units and comes without
/// its slash.
pub proof fn law_commands_are_short_and_bare(
    command: &str,
    res: Result<(), ActionValidationError>,
)
    requires
        call_ensures(validate_command, (command,), res),
    ensures
        res is Ok <==> command@.len() > 0 && command@[0] != '/' && utf16_units(command@) <= 256,
        res == Err::<(), _>(ActionValidationError::EmptyCommand) <==> command@.len() == 0,
        res == Err::<(), _>(ActionValidationError::CommandStartsWithSlash) <==> command@.len() > 0
            && command@[0] == '/',
        command@.len() > 0 && command@[0] != '/' && 256 < utf16_units(command@) <= usize::MAX
            ==> res == Err::<(), _>(
            ActionValidationError::CommandTooLong {
                actual: utf16_units(command@) as usize,
                max: 256,
            },
        ),
{
}

/// Whether bits are those of a number from zero to one: the zero below zero counts.
pub open spec fn zero_to_one(bits: u32) -> bool {
    bits <= 0x3F80_0000 || bits == 0x8000_0000
}

/// A placement passes exactly where the face is one of six and the cursor lies on it.
/// The face is looked at first, then x, y and z.
pub proof fn law_placements_hit_a_face(
    p: &BlockPlacement,
    res: Result<(), ActionValidationError>,
)
    requires
        call_ensures(validate_placement, (p,), res),
    ensures
        res is Ok <==> 0 <= p.face < 6 && zero_to_one(p.cursor_x) && zero_to_one(p.cursor_y)
            && zero_to_one(p.cursor_z),
        !(0 <= p.face < 6) ==> res == Err::<(), _>(
            ActionValidationError::BlockFaceOutOfRange { face: p.face },
        ),
        0 <= p.face < 6 && !zero_to_one(p.cursor_x) ==> res == Err::<(), _>(
            ActionValidationError::BlockCursorOutOfRange { value: p.cursor_x },
        ),
        0 <= p.face < 6 && zero_to_one(p.cursor_x) && !zero_to_one(p.cursor_y) ==> res == Err::<
            (),
            _,
        >(ActionValidationError::BlockCursorOutOfRange { value: p.cursor_y }),
        0 <= p.face < 6 && zero_to_one(p.cursor_x) && zero_to_one(p.cursor_y) && !zero_to_one(
            p.cursor_z,
        ) ==> res == Err::<(), _>(
            ActionValidationError::BlockCursorOutOfRange { value: p.cursor_z },
        ),
{
}

/// The number that finite single-precision bits stand for, in units that keep the
/// order.
pub open spec fn in_order(bits: u32) -> int {
    if bits < 0x8000_0000 {
        bits as int
    } else {
        -(bits - 0x8000_0000)
    }
}

/// A random look passes exactly where its angles are finite, its intervals and its
/// pitches are in order, and the head does not turn by less than nothing.
pub proof fn law_random_looks_have_ordered_bounds(
    c: &RandomLookConfig,
    res: Result<(), ActionValidationError>,
)
    requires
        call_ensures(RandomLookConfig::validate, (c,), res),
    ensures
        ({
            let finite = c.max_yaw_delta % 0x8000_0000 < 0x7F80_0000 && c.min_pitch % 0x8000_0000
                < 0x7F80_0000 && c.max_pitch % 0x8000_0000 < 0x7F80_0000;
            let timed = c.min_interval_nanos <= c.max_interval_nanos;
            let tilted = in_order(c.min_pitch) <= in_order(c.max_pitch);
            let turns = in_order(c.max_yaw_delta) >= 0;
            &&& res is Ok <==> finite && timed && tilted && turns
            &&& res == Err::<(), _>(ActionValidationError::RandomLookNonFinite) <==> !finite
            &&& res == Err::<(), _>(ActionValidationError::RandomLookIntervalOrder) <==> finite
                && !timed
            &&& res == Err::<(), _>(ActionValidationError::RandomLookPitchOrder) <==> finite
                && timed && !tilted
            &&& res == Err::<(), _>(ActionValidationError::RandomLookNegativeYawDelta) <==> finite
                && timed && tilted && !turns
        }),
{
}

/// A pitch is brought between minus ninety and ninety degrees: nothing within them
/// changes, what is past one of them becomes it.
pub proof fn law_pitches_stop_at_ninety_degrees(bits: u32, r: u32)
    requires
        call_ensures(clamp_pitch, (bits,), r),
    ensures
        bits <= 0x42B4_0000 ==> r == bits,
        0x42B4_0000 < bits <= 0x7F80_0000 ==> r == 0x42B4_0000,
        0x8000_0000 <= bits <= 0xC2B4_0000 ==> r == bits,
        0xC2B4_0000 < bits <= 0xFF80_0000 ==> r == 0xC2B4_0000,
        0x7F80_0000 < bits < 0x8000_0000 || 0xFF80_0000 < bits ==> r == bits,
{
}

/// A random orientation is drawn between the two pitches, both brought within the
/// head's range, and turns either way by the yaw where that is above zero.
pub proof fn law_looks_are_drawn_between_their_pitches(
    c: &RandomLookConfig,
    low: u32,
    high: u32,
    b: LookBounds,
    res: Result<(), ActionValidationError>,
)
    requires
        call_ensures(RandomLookConfig::look_bounds, (c,), b),
        call_ensures(RandomLookConfig::validate, (c,), res),
        call_ensures(clamp_pitch, (c.min_pitch,), low),
        call_ensures(clamp_pitch, (c.max_pitch,), high),
    ensures
        b.min_pitch == low,
        res is Ok ==> in_order(b.max_pitch) == in_order(high),
        res is Ok ==> (b.yaw_delta is None <==> in_order(c.max_yaw_delta) == 0),
        b.yaw_delta matches Some(d) ==> d == c.max_yaw_delta,
{
}

/// Whether two checks came to the same end.
pub open spec fn same_verdict(
    a: Result<(), ActionValidationError>,
    b: Result<(), ActionValidationError>,
) -> bool {
    match (a, b) {
        (Ok(_), Ok(_)) => true,
        (Err(e), Err(f)) => e == f,
        _ => false,
    }
}

/// Commands are refused for what they hold and no others: only chat, commands, a
/// random look, a hotbar slot and a placement can be.
pub proof fn law_commands_are_checked_by_what_they_hold(
    command: &BotCommand,
    res: Result<(), ActionValidationError>,
    slot: i16,
    text: &str,
    chat: Result<(), ActionValidationError>,
    bare: Result<(), ActionValidationError>,
    placement: &BlockPlacement,
    placed: Result<(), ActionValidationError>,
    config: &RandomLookConfig,
    drawn: Result<(), ActionValidationError>,
)
    requires
        call_ensures(BotCommand::validate, (command,), res),
        call_ensures(validate_chat, (text,), chat),
        call_ensures(validate_command, (text,), bare),
        call_ensures(validate_placement, (placement,), placed),
        call_ensures(RandomLookConfig::validate, (config,), drawn),
    ensures
        command matches BotCommand::SelectHotbarSlot(s) ==> (res is Ok <==> 0 <= *s < 9),
        *command == BotCommand::SelectHotbarSlot(slot) && !(0 <= slot < 9) ==> res == Err::<
            (),
            _,
        >(ActionValidationError::HotbarSlotOutOfRange { slot }),
        command matches BotCommand::Chat(s) ==> s@ == text@ ==> same_verdict(res, chat),
        command matches BotCommand::Command(s) ==> s@ == text@ ==> same_verdict(res, bare),
        *command == BotCommand::UseItemOnBlock(*placement) ==> same_verdict(res, placed),
        *command == BotCommand::SetRandomLook(Some(*config)) ==> same_verdict(res, drawn),
        *command == BotCommand::SetRandomLook(None) ==> res is Ok,
        !(command is Chat) && !(command is Command) && !(command is SetRandomLook) && !(
        command is SelectHotbarSlot) && !(command is UseItemOnBlock) ==> res is Ok,
{
}

/// The main hand is nought on the wire and the other hand one.
pub proof fn law_hands_have_their_numbers(hand: Hand, v: i32)
    requires
        call_ensures(Hand::wire_value, (hand,), v),
    ensures
        v == 0 <==> hand is Main,
        v == 1 <==> hand is Off,
{
}

/// What a pair of opposite keys gives: one either way where a single one is held,
/// and nothing where both or none are.
pub open spec fn pulls(ahead: bool, back: bool, bits: u32) -> bool {
    &&& ahead && !back ==> bits == 0x3F80_0000
    &&& back && !ahead ==> bits == 0xBF80_0000
    &&& ahead == back ==> bits == 0
}

/// A directional key is held or released alone, and the impulse of its axis follows
/// from the two keys of that axis. Nothing else changes.
pub proof fn law_directional_keys_pull_their_axis(
    f: &mut Controller,
    b: &mut Controller,
    l: &mut Controller,
    r: &mut Controller,
    on: bool,
)
    requires
        call_ensures(Controller::apply, (f, BotCommand::Forward(on)), ()),
        call_ensures(Controller::apply, (b, BotCommand::Backward(on)), ()),
        call_ensures(Controller::apply, (l, BotCommand::StrafeLeft(on)), ()),
        call_ensures(Controller::apply, (r, BotCommand::StrafeRight(on)), ()),
    ensures
        final(f).held_forward == on,
        pulls(on, old(f).held_backward, final(f).manual.forward),
        *final(f) == (Controller {
            held_forward: on,
            manual: MovementInput { forward: final(f).manual.forward, ..old(f).manual },
            ..*old(f)
        }),
        final(b).held_backward == on,
        pulls(old(b).held_forward, on, final(b).manual.forward),
        *final(b) == (Controller {
            held_backward: on,
            manual: MovementInput { forward: final(b).manual.forward, ..old(b).manual },
            ..*old(b)
        }),
        final(l).held_left == on,
        pulls(on, old(l).held_right, final(l).manual.strafe),
        *final(l) == (Controller {
            held_left: on,
            manual: MovementInput { strafe: final(l).manual.strafe, ..old(l).manual },
            ..*old(l)
        }),
        final(r).held_right == on,
        pulls(old(r).held_left, on, final(r).manual.strafe),
        *final(r) == (Controller {
            held_right: on,
            manual: MovementInput { strafe: final(r).manual.strafe, ..old(r).manual },
            ..*old(r)
        }),
{
}

/// Sprint, sneak and jump set their own key, a walk its goal with x and z in their
/// places, and nothing else changes.
pub proof fn law_other_keys_are_set_alone(
    a: &mut Controller,
    b: &mut Controller,
    c: &mut Controller,
    d: &mut Controller,
    on: bool,
    x: u64,
    z: u64,
)
    requires
        call_ensures(Controller::apply, (a, BotCommand::Sprint(on)), ()),
        call_ensures(Controller::apply, (b, BotCommand::Sneak(on)), ()),
        call_ensures(Controller::apply, (c, BotCommand::Jump(on)), ()),
        call_ensures(Controller::apply, (d, BotCommand::WalkTo { x, z }), ()),
    ensures
        *final(a) == (Controller {
            manual: MovementInput { sprint: on, ..old(a).manual },
            ..*old(a)
        }),
        *final(b) == (Controller {
            manual: MovementInput { sneak: on, ..old(b).manual },
            ..*old(b)
        }),
        *final(c) == (Controller { manual: MovementInput { jump: on, ..old(c).manual }, ..*old(c) }),
        *final(d) == (Controller { goal: Some((x, z)), ..*old(d) }),
{
}

/// A whole input replaces the keys, and each directional key counts as held by the
/// sign of its impulse. A stop releases everything and drops the goal. Both leave
/// the random look.
pub proof fn law_whole_inputs_and_stops_replace_the_keys(
    a: &mut Controller,
    b: &mut Controller,
    input: MovementInput,
)
    requires
        call_ensures(Controller::apply, (a, BotCommand::SetInput(input)), ()),
        call_ensures(Controller::apply, (b, BotCommand::Stop), ()),
    ensures
        final(a).manual == input,
        final(a).goal == old(a).goal,
        final(a).held_forward <==> 0 < input.forward <= 0x7F80_0000,
        final(a).held_backward <==> 0x8000_0000 < input.forward <= 0xFF80_0000,
        final(a).held_left <==> 0 < input.strafe <= 0x7F80_0000,
        final(a).held_right <==> 0x8000_0000 < input.strafe <= 0xFF80_0000,
        final(a).random_look == old(a).random_look,
        final(b).goal is None,
        final(b).manual.forward == 0 && final(b).manual.strafe == 0,
        !final(b).manual.jump && !final(b).manual.sprint && !final(b).manual.sneak,
        !final(b).held_forward && !final(b).held_backward,
        !final(b).held_left && !final(b).held_right,
        final(b).random_look == old(b).random_look,
{
}

/// What a command does that is none of the controller's: nothing.
pub proof fn law_other_commands_leave_the_keys(c: &mut Controller, command: BotCommand)
    requires
        call_ensures(Controller::apply, (c, command), ()),
        command is Look || command is Chat || command is Command || command is InventoryClick
            || command is UseItem || command is Swing || command is SelectHotbarSlot
            || command is UseItemOnBlock || command is InteractEntity || command is AttackEntity
            || command is InteractAtEntity || command is ReleaseItem || command is CloseGui,
    ensures
        *final(c) == *old(c),
{
}

/// A tick without a goal plays the keys as they are held. With a goal that is not
/// reached the player faces it and walks straight ahead; where it is reached the
/// goal is dropped and the player stops. Sprint, sneak and jump are as held, and
/// the player keeps its place.
pub proof fn law_ticks_walk_to_the_goal(
    c: &mut Controller,
    p: &mut LocalPlayer,
    arrived: bool,
    yaw: u32,
    due: bool,
)
    requires
        call_ensures(Controller::drive, (c, p, arrived, yaw), due),
    ensures
        old(c).goal is None ==> final(p).input == old(c).manual && final(p).position == old(
            p,
        ).position,
        old(c).goal is Some && !arrived ==> final(p).input.forward == 0x3F80_0000
            && final(p).position.yaw == yaw && final(c).goal == old(c).goal,
        old(c).goal is Some && arrived ==> final(p).input.forward == 0 && final(p).position == old(
            p,
        ).position && final(c).goal is None,
        old(c).goal is Some ==> final(p).input.strafe == 0,
        final(p).input.sprint == old(c).manual.sprint,
        final(p).input.sneak == old(c).manual.sneak,
        final(p).input.jump == old(c).manual.jump,
        final(p).position.at == old(p).position.at,
        final(p).position.pitch == old(p).position.pitch,
        *final(p) == (LocalPlayer {
            input: final(p).input,
            position: final(p).position,
            ..*old(p)
        }),
        final(c).manual == old(c).manual,
        due <==> (old(c).random_look matches Some(look) && look.ticks_until_next == 0),
        old(c).random_look is None ==> final(c).random_look is None,
        old(c).random_look matches Some(look) ==> look.ticks_until_next > 0 ==> (
        final(c).random_look matches Some(next) && next.ticks_until_next == old(
            c,
        ).random_look->0.ticks_until_next - 1),
{
}

/// A look turns the player and leaves its place. A random one leaves the yaw to an
/// active goal, and does nothing where none is on.
pub proof fn law_looks_turn_the_player(
    c: &Controller,
    r: &mut Controller,
    p: &mut LocalPlayer,
    q: &mut LocalPlayer,
    yaw: u32,
    pitch: u32,
)
    requires
        call_ensures(Controller::apply_look, (c, p, yaw, pitch), ()),
        call_ensures(Controller::turn_randomly, (r, q, yaw, pitch), ()),
    ensures
        final(p).position.yaw == yaw,
        final(p).position.pitch == pitch,
        final(p).position.at == old(p).position.at,
        *final(p) == (LocalPlayer { position: final(p).position, ..*old(p) }),
        old(r).random_look is None ==> *final(q) == *old(q),
        old(r).random_look is Some ==> final(q).position.pitch == pitch,
        old(r).random_look is Some && old(r).goal is None ==> final(q).position.yaw == yaw,
        old(r).goal is Some ==> final(q).position.yaw == old(q).position.yaw,
        final(q).position.at == old(q).position.at,
        *final(q) == (LocalPlayer { position: final(q).position, ..*old(q) }),
{
}

} // verus!
