use minerider::minecraft::control::{
    ActionValidationError, BlockPlacement, BotCommand, Controller, Hand, RandomLookConfig,
    interval_ticks,
};
use minerider::minecraft::geometry::Vec3;
use minerider::minecraft::player::{LocalPlayer, MovementInput, PlayerPosition};
use rand::Rng;

const MILLI: u128 = 1_000_000;
const SECOND: u128 = 1_000_000_000;

fn player_at(x: f64, z: f64) -> LocalPlayer {
    let mut p = LocalPlayer::new();
    p.position = PlayerPosition {
        at: Vec3 { x: x.to_bits(), y: (64.0f64).to_bits(), z: z.to_bits() },
        yaw: 0,
        pitch: 0,
    };
    p
}

/// One tick: the distance and the heading to the goal, and the draw of a random
/// orientation where one is due.
fn drive(c: &mut Controller, p: &mut LocalPlayer) {
    let (arrived, yaw) = match c.goal {
        None => (false, 0.0f32),
        Some((x, z)) => {
            let dx = f64::from_bits(x) - f64::from_bits(p.position.at.x);
            let dz = f64::from_bits(z) - f64::from_bits(p.position.at.z);
            (dx * dx + dz * dz <= 0.3 * 0.3, (-dx).atan2(dz).to_degrees() as f32)
        }
    };
    if c.drive(p, arrived, yaw.to_bits()) {
        let look = c.random_look.as_mut().unwrap();
        let bounds = look.config.look_bounds();
        let turn = match bounds.yaw_delta.map(f32::from_bits) {
            Some(delta) => look.rng.gen_range(-delta..=delta),
            None => 0.0,
        };
        let yaw = ((f32::from_bits(p.position.yaw) + turn + 180.0).rem_euclid(360.0)) - 180.0;
        let low = f32::from_bits(bounds.min_pitch);
        let high = f32::from_bits(bounds.max_pitch);
        let pitch = if high > low { look.rng.gen_range(low..=high) } else { low };
        c.turn_randomly(p, yaw.to_bits(), pitch.to_bits());
    }
}

fn yaw(p: &LocalPlayer) -> f32 {
    f32::from_bits(p.position.yaw)
}

fn pitch(p: &LocalPlayer) -> f32 {
    f32::from_bits(p.position.pitch)
}

fn forward(p: &LocalPlayer) -> f32 {
    f32::from_bits(p.input.forward)
}

fn strafe(p: &LocalPlayer) -> f32 {
    f32::from_bits(p.input.strafe)
}

fn walk_to(x: f64, z: f64) -> BotCommand {
    BotCommand::WalkTo { x: x.to_bits(), z: z.to_bits() }
}

fn input(forward: f32) -> MovementInput {
    MovementInput { forward: forward.to_bits(), ..MovementInput::default() }
}

#[test]
fn use_item_on_block_validates_face_and_cursor_ranges() {
    let ok = BlockPlacement {
        x: 1,
        y: 2,
        z: 3,
        face: 3,
        hand: Hand::Main,
        cursor_x: (0.5f32).to_bits(),
        cursor_y: (0.0f32).to_bits(),
        cursor_z: (1.0f32).to_bits(),
        inside_block: false,
    };
    assert!(BotCommand::UseItemOnBlock(ok).validate().is_ok());

    let bad_face = BlockPlacement { face: 6, ..ok };
    assert!(matches!(
        BotCommand::UseItemOnBlock(bad_face).validate(),
        Err(ActionValidationError::BlockFaceOutOfRange { face: 6 })
    ));

    let bad_cursor = BlockPlacement {
        cursor_y: (1.5f32).to_bits(),
        ..ok
    };
    assert!(matches!(
        BotCommand::UseItemOnBlock(bad_cursor).validate(),
        Err(ActionValidationError::BlockCursorOutOfRange { .. })
    ));

    let nan_cursor = BlockPlacement {
        cursor_z: f32::NAN.to_bits(),
        ..ok
    };
    assert!(matches!(
        BotCommand::UseItemOnBlock(nan_cursor).validate(),
        Err(ActionValidationError::BlockCursorOutOfRange { .. })
    ));
}

#[test]
fn select_hotbar_slot_validates_the_zero_to_eight_range() {
    for slot in 0..=8 {
        assert!(BotCommand::SelectHotbarSlot(slot).validate().is_ok());
    }
    for slot in [-1, 9, 100] {
        assert!(matches!(
            BotCommand::SelectHotbarSlot(slot).validate(),
            Err(ActionValidationError::HotbarSlotOutOfRange { slot: s }) if s == slot
        ));
    }
}

#[test]
fn walk_to_steers_and_holds_forward() {
    let mut c = Controller::default();
    c.apply(walk_to(10.0, 0.0));
    let mut p = player_at(0.0, 0.0);
    drive(&mut c, &mut p);
    assert!(c.has_goal());
    assert_eq!(forward(&p), 1.0);
    // Target +X: yaw -90.
    assert!((yaw(&p) + 90.0).abs() < 1.0e-3);
}

#[test]
fn walk_to_stops_within_arrival_radius() {
    let mut c = Controller::default();
    c.apply(walk_to(0.2, 0.0));
    let mut p = player_at(0.0, 0.0);
    drive(&mut c, &mut p);
    assert!(!c.has_goal(), "goal cleared on arrival");
    assert_eq!(forward(&p), 0.0);
}

#[test]
fn manual_overlay_flows_through_without_goal() {
    let mut c = Controller::default();
    c.apply(BotCommand::Sprint(true));
    c.apply(BotCommand::SetInput(MovementInput {
        sprint: true,
        ..input(1.0)
    }));
    let mut p = player_at(0.0, 0.0);
    drive(&mut c, &mut p);
    assert_eq!(forward(&p), 1.0);
    assert!(p.input.sprint);
}

#[test]
fn walk_to_preserves_manual_sprint() {
    let mut c = Controller::default();
    c.apply(BotCommand::Sprint(true));
    c.apply(walk_to(10.0, 0.0));
    let mut p = player_at(0.0, 0.0);
    drive(&mut c, &mut p);
    assert!(p.input.sprint, "sprint carries into an auto-walk");
    assert_eq!(forward(&p), 1.0);
}

#[test]
fn stop_clears_goal_and_input() {
    let mut c = Controller::default();
    c.apply(walk_to(10.0, 0.0));
    c.apply(BotCommand::Sprint(true));
    c.apply(BotCommand::Stop);
    let mut p = player_at(0.0, 0.0);
    drive(&mut c, &mut p);
    assert!(!c.has_goal());
    assert_eq!(p.input, MovementInput::default());
}

#[test]
fn outbound_text_validation_is_explicit_and_uses_utf16_units() {
    assert_eq!(
        BotCommand::Chat(String::new()).validate(),
        Err(ActionValidationError::EmptyChat)
    );
    assert_eq!(
        BotCommand::Command(String::new()).validate(),
        Err(ActionValidationError::EmptyCommand)
    );
    assert_eq!(
        BotCommand::Chat("/help".into()).validate(),
        Err(ActionValidationError::ChatStartsWithSlash)
    );
    assert_eq!(
        BotCommand::Command("/help".into()).validate(),
        Err(ActionValidationError::CommandStartsWithSlash)
    );

    assert!(BotCommand::Chat("a".repeat(256)).validate().is_ok());
    assert_eq!(
        BotCommand::Chat("😀".repeat(129)).validate(),
        Err(ActionValidationError::ChatTooLong {
            actual: 258,
            max: 256,
        })
    );
    assert_eq!(
        BotCommand::Command("a".repeat(257)).validate(),
        Err(ActionValidationError::CommandTooLong {
            actual: 257,
            max: 256,
        })
    );
}

#[test]
fn faults_say_what_is_wrong() {
    let cases = [
        (ActionValidationError::EmptyChat, "chat messages must not be empty"),
        (
            ActionValidationError::ChatTooLong { actual: 258, max: 256 },
            "chat message is 258 UTF-16 units; maximum is 256",
        ),
        (
            ActionValidationError::HotbarSlotOutOfRange { slot: -1 },
            "hotbar slot -1 is out of range; must be 0..=8",
        ),
        (
            ActionValidationError::BlockFaceOutOfRange { face: 6 },
            "block face 6 is out of range; must be 0..=5",
        ),
    ];
    for (fault, text) in cases {
        assert_eq!(fault.message(""), text);
    }
}

#[test]
fn chat_and_command_remain_distinct_actions() {
    assert_ne!(
        format!("{:?}", BotCommand::Chat("say hi".into())),
        format!("{:?}", BotCommand::Command("say hi".into()))
    );
}

#[test]
fn forward_and_backward_are_independent_and_cancel_when_both_held() {
    let mut c = Controller::default();
    c.apply(BotCommand::Forward(true));
    let mut p = player_at(0.0, 0.0);
    drive(&mut c, &mut p);
    assert_eq!(forward(&p), 1.0);

    c.apply(BotCommand::Backward(true));
    drive(&mut c, &mut p);
    assert_eq!(
        forward(&p),
        0.0,
        "holding both forward and backward cancels to zero, like vanilla W+S"
    );

    c.apply(BotCommand::Forward(false));
    drive(&mut c, &mut p);
    assert_eq!(forward(&p), -1.0, "backward alone remains -1.0");
}

#[test]
fn strafe_left_and_right_are_independent_and_cancel_when_both_held() {
    let mut c = Controller::default();
    c.apply(BotCommand::StrafeLeft(true));
    let mut p = player_at(0.0, 0.0);
    drive(&mut c, &mut p);
    assert_eq!(strafe(&p), 1.0);

    c.apply(BotCommand::StrafeRight(true));
    drive(&mut c, &mut p);
    assert_eq!(strafe(&p), 0.0);

    c.apply(BotCommand::StrafeLeft(false));
    drive(&mut c, &mut p);
    assert_eq!(strafe(&p), -1.0);
}

#[test]
fn directional_toggles_do_not_disturb_sprint_sneak_or_jump() {
    let mut c = Controller::default();
    c.apply(BotCommand::Sprint(true));
    c.apply(BotCommand::Sneak(true));
    c.apply(BotCommand::Jump(true));
    c.apply(BotCommand::Forward(true));
    c.apply(BotCommand::StrafeRight(true));
    let mut p = player_at(0.0, 0.0);
    drive(&mut c, &mut p);
    assert!(
        p.input.sprint,
        "forward/strafe must not silently clear sprint"
    );
    assert!(p.input.sneak);
    assert!(
        p.input.jump,
        "forward/strafe must not silently enable/disable jump"
    );
    assert_eq!(forward(&p), 1.0);
    assert_eq!(strafe(&p), -1.0);
}

#[test]
fn disabling_one_directional_key_does_not_disable_the_others() {
    let mut c = Controller::default();
    c.apply(BotCommand::Forward(true));
    c.apply(BotCommand::StrafeLeft(true));
    c.apply(BotCommand::Sprint(true));
    c.apply(BotCommand::StrafeLeft(false));
    let mut p = player_at(0.0, 0.0);
    drive(&mut c, &mut p);
    assert_eq!(
        forward(&p),
        1.0,
        "disabling strafe must not disable forward"
    );
    assert_eq!(strafe(&p), 0.0);
    assert!(p.input.sprint, "disabling strafe must not disable sprint");
}

#[test]
fn stop_zeroes_directional_flags_and_clears_goal() {
    let mut c = Controller::default();
    c.apply(BotCommand::Forward(true));
    c.apply(BotCommand::StrafeRight(true));
    c.apply(walk_to(5.0, 0.0));
    c.apply(BotCommand::Stop);
    let mut p = player_at(0.0, 0.0);
    drive(&mut c, &mut p);
    assert!(!c.has_goal());
    assert_eq!(p.input, MovementInput::default());
    // Directional state was actually cleared, not just the resulting
    // input for this one tick: a later Backward(true) alone must yield
    // exactly -1.0, not "cancelled" by a stale held_forward.
    c.apply(BotCommand::Backward(true));
    drive(&mut c, &mut p);
    assert_eq!(forward(&p), -1.0);
}

#[test]
fn set_input_resyncs_held_flags_for_later_toggles() {
    let mut c = Controller::default();
    c.apply(BotCommand::SetInput(input(-1.0)));
    // The raw SetInput above is inferred as "backward held" for the
    // purpose of later individual toggles. Immediately holding forward
    // too (without releasing backward first) correctly cancels to zero,
    // exactly like real keyboard W+S.
    c.apply(BotCommand::Forward(true));
    let mut p = player_at(0.0, 0.0);
    drive(&mut c, &mut p);
    assert_eq!(forward(&p), 0.0, "forward+backward both held cancels");

    // Releasing backward explicitly is what actually switches direction.
    c.apply(BotCommand::Backward(false));
    drive(&mut c, &mut p);
    assert_eq!(forward(&p), 1.0);
}

fn random_look_config(seed: u64) -> RandomLookConfig {
    RandomLookConfig {
        min_interval_nanos: 50 * MILLI,
        max_interval_nanos: 50 * MILLI,
        max_yaw_delta: (30.0f32).to_bits(),
        min_pitch: (-20.0f32).to_bits(),
        max_pitch: (10.0f32).to_bits(),
        seed: Some(seed),
    }
}

#[test]
fn random_look_config_validates_bounds() {
    assert_eq!(random_look_config(1).validate(), Ok(()));
    let mut bad = random_look_config(1);
    bad.min_interval_nanos = 2 * SECOND;
    bad.max_interval_nanos = SECOND;
    assert_eq!(
        bad.validate(),
        Err(ActionValidationError::RandomLookIntervalOrder)
    );

    let mut bad = random_look_config(1);
    bad.min_pitch = (10.0f32).to_bits();
    bad.max_pitch = (-10.0f32).to_bits();
    assert_eq!(
        bad.validate(),
        Err(ActionValidationError::RandomLookPitchOrder)
    );

    let mut bad = random_look_config(1);
    bad.max_yaw_delta = (-1.0f32).to_bits();
    assert_eq!(
        bad.validate(),
        Err(ActionValidationError::RandomLookNegativeYawDelta)
    );

    let mut bad = random_look_config(1);
    bad.max_yaw_delta = f32::NAN.to_bits();
    assert_eq!(
        bad.validate(),
        Err(ActionValidationError::RandomLookNonFinite)
    );
    let mut bad = random_look_config(1);
    bad.min_pitch = f32::INFINITY.to_bits();
    assert_eq!(
        bad.validate(),
        Err(ActionValidationError::RandomLookNonFinite)
    );
}

#[test]
fn disabled_by_default_and_toggles_cleanly() {
    let mut c = Controller::default();
    let mut p = player_at(0.0, 0.0);
    let (yaw0, pitch0) = (yaw(&p), pitch(&p));
    for _ in 0..40 {
        drive(&mut c, &mut p);
    }
    assert_eq!((yaw(&p), pitch(&p)), (yaw0, pitch0));

    c.apply(BotCommand::SetRandomLook(Some(random_look_config(42))));
    drive(&mut c, &mut p); // the countdown starts at one or more, so this alone must not yet fire
    c.apply(BotCommand::SetRandomLook(None));
    for _ in 0..40 {
        drive(&mut c, &mut p);
    }
    assert_eq!(
        (yaw(&p), pitch(&p)),
        (yaw0, pitch0),
        "disabling random look must stop further changes"
    );
}

#[test]
fn yaw_and_pitch_stay_within_configured_bounds_over_many_ticks() {
    let mut c = Controller::default();
    c.apply(BotCommand::SetRandomLook(Some(RandomLookConfig {
        min_interval_nanos: 50 * MILLI,
        max_interval_nanos: 50 * MILLI,
        max_yaw_delta: (15.0f32).to_bits(),
        min_pitch: (-25.0f32).to_bits(),
        max_pitch: (25.0f32).to_bits(),
        seed: Some(7),
    })));
    let mut p = player_at(0.0, 0.0);
    let mut last_yaw = yaw(&p);
    for _ in 0..400 {
        drive(&mut c, &mut p);
        assert!(yaw(&p).is_finite(), "yaw must never be NaN/infinite");
        assert!(pitch(&p).is_finite(), "pitch must never be NaN/infinite");
        assert!(
            (-25.0..=25.0).contains(&pitch(&p)),
            "pitch {} outside configured bounds",
            pitch(&p)
        );
        assert!((-180.0..=180.0).contains(&yaw(&p)));
        // Each *step* (when it actually changes) stays within the
        // configured per-change delta; wrap-around at +-180 is the one
        // case where the raw difference looks larger than the delta.
        let step = (yaw(&p) - last_yaw).abs();
        let wrapped_step = 360.0 - step;
        assert!(
            step <= 15.0 + 1e-3 || wrapped_step <= 15.0 + 1e-3,
            "yaw step {step} exceeds max_yaw_delta"
        );
        last_yaw = yaw(&p);
    }
}

#[test]
fn deterministic_seed_reproduces_the_same_orientation_sequence() {
    let config = random_look_config(123);
    let mut a = Controller::default();
    a.apply(BotCommand::SetRandomLook(Some(config)));
    let mut pa = player_at(0.0, 0.0);

    let mut b = Controller::default();
    b.apply(BotCommand::SetRandomLook(Some(config)));
    let mut pb = player_at(0.0, 0.0);

    for _ in 0..50 {
        drive(&mut a, &mut pa);
        drive(&mut b, &mut pb);
        assert_eq!(yaw(&pa), yaw(&pb));
        assert_eq!(pitch(&pa), pitch(&pb));
    }
    assert_ne!(yaw(&pa), 0.0, "something was drawn");
}

#[test]
fn interval_bounds_gate_how_often_orientation_changes() {
    // A long, fixed interval (20 ticks = 1s) must not fire before that
    // many ticks have elapsed.
    let mut c = Controller::default();
    c.apply(BotCommand::SetRandomLook(Some(RandomLookConfig {
        min_interval_nanos: SECOND,
        max_interval_nanos: SECOND,
        max_yaw_delta: (45.0f32).to_bits(),
        min_pitch: (-10.0f32).to_bits(),
        max_pitch: (10.0f32).to_bits(),
        seed: Some(9),
    })));
    assert_eq!(c.random_look.as_ref().unwrap().ticks_until_next, 20);
    let mut p = player_at(0.0, 0.0);
    let start_yaw = yaw(&p);
    for _ in 0..19 {
        drive(&mut c, &mut p);
    }
    assert_eq!(
        yaw(&p),
        start_yaw,
        "must not fire before the interval elapses"
    );
    drive(&mut c, &mut p);
}

#[test]
fn intervals_are_drawn_within_their_bounds() {
    let mut config = random_look_config(5);
    config.min_interval_nanos = 120 * MILLI;
    config.max_interval_nanos = 700 * MILLI;
    for seed in 0..50 {
        config.seed = Some(seed);
        let mut c = Controller::default();
        c.apply(BotCommand::SetRandomLook(Some(config)));
        let ticks = c.random_look.unwrap().ticks_until_next;
        assert!((3..=14).contains(&ticks), "{ticks}");
    }
    let config = RandomLookConfig { min_interval_nanos: 0, ..random_look_config(1) };
    assert_eq!(interval_ticks(&config, 0), 1);
    assert_eq!(interval_ticks(&config, 99), 1);
    assert_eq!(interval_ticks(&config, 100), 2);
}

#[test]
fn an_unseeded_look_is_drawn_too() {
    let mut config = random_look_config(0);
    config.seed = None;
    let mut c = Controller::default();
    c.apply(BotCommand::SetRandomLook(Some(config)));
    assert_eq!(c.random_look.unwrap().ticks_until_next, 1);
}

#[test]
fn explicit_look_applies_immediately_and_random_look_resumes_after() {
    let mut c = Controller::default();
    c.apply(BotCommand::SetRandomLook(Some(RandomLookConfig {
        min_interval_nanos: 10 * SECOND,
        max_interval_nanos: 10 * SECOND,
        max_yaw_delta: (20.0f32).to_bits(),
        min_pitch: (-10.0f32).to_bits(),
        max_pitch: (10.0f32).to_bits(),
        seed: Some(5),
    })));
    let mut p = player_at(0.0, 0.0);
    c.apply_look(&mut p, (123.0f32).to_bits(), (45.0f32).to_bits());
    assert_eq!(yaw(&p), 123.0);
    assert_eq!(pitch(&p), 45.0);
    // Random look is still enabled and unaffected by the explicit look;
    // it keeps counting down toward its own next scheduled change.
    drive(&mut c, &mut p);
    // With a 10s interval (200 ticks) it must not have fired on the
    // very next tick, so the explicit orientation survives immediately
    // afterward.
    assert_eq!(yaw(&p), 123.0);
    assert_eq!(pitch(&p), 45.0);
}

#[test]
fn random_look_works_simultaneously_with_forward_movement() {
    let mut c = Controller::default();
    c.apply(BotCommand::Forward(true));
    c.apply(BotCommand::SetRandomLook(Some(random_look_config(3))));
    let mut p = player_at(0.0, 0.0);
    for _ in 0..40 {
        drive(&mut c, &mut p);
        assert_eq!(forward(&p), 1.0, "forward impulse must keep applying");
    }
    assert!(yaw(&p).is_finite());
}

#[test]
fn random_look_yaw_is_a_bounded_walk_from_current_yaw_not_a_fixed_cone() {
    // With max_yaw_delta=0, yaw must never move regardless of how many
    // times the interval fires.
    let mut c = Controller::default();
    c.apply(BotCommand::SetRandomLook(Some(RandomLookConfig {
        min_interval_nanos: 50 * MILLI,
        max_interval_nanos: 50 * MILLI,
        max_yaw_delta: (0.0f32).to_bits(),
        min_pitch: (-5.0f32).to_bits(),
        max_pitch: (5.0f32).to_bits(),
        seed: Some(1),
    })));
    let mut p = player_at(0.0, 0.0);
    for _ in 0..40 {
        drive(&mut c, &mut p);
    }
    assert_eq!(yaw(&p), 0.0);
}

#[test]
fn hands_have_their_numbers() {
    assert_eq!(Hand::Main.wire_value(), 0);
    assert_eq!(Hand::Off.wire_value(), 1);
}

#[test]
fn look_bounds_are_brought_within_the_head_range() {
    let config = RandomLookConfig {
        max_yaw_delta: (-1.0f32).to_bits(),
        min_pitch: (-120.0f32).to_bits(),
        max_pitch: (500.0f32).to_bits(),
        ..random_look_config(1)
    };
    let bounds = config.look_bounds();
    assert_eq!(bounds.yaw_delta, None);
    assert_eq!(f32::from_bits(bounds.min_pitch), -90.0);
    assert_eq!(f32::from_bits(bounds.max_pitch), 90.0);
    let swapped = RandomLookConfig {
        min_pitch: (30.0f32).to_bits(),
        max_pitch: (10.0f32).to_bits(),
        ..config
    };
    let bounds = swapped.look_bounds();
    assert_eq!((f32::from_bits(bounds.min_pitch), f32::from_bits(bounds.max_pitch)), (30.0, 30.0));
}

#[test]
fn an_offending_coordinate_is_named() {
    let error = ActionValidationError::BlockCursorOutOfRange { value: (1.5f32).to_bits() };
    assert_eq!(
        error.message("1.5"),
        "block cursor coordinate 1.5 is out of range; must be 0.0..=1.0"
    );
    assert_eq!(ActionValidationError::EmptyChat.message(""), "chat messages must not be empty");
}

#[test]
fn countdowns_keep_the_bounds_where_whole_ticks_fit() {
    let config = RandomLookConfig {
        min_interval_nanos: 75 * MILLI,
        max_interval_nanos: 120 * MILLI,
        ..random_look_config(1)
    };
    for millis in 75..=120 {
        assert_eq!(interval_ticks(&config, millis), 2);
    }
    for seed in 0..50 {
        let mut c = Controller::default();
        let config = RandomLookConfig { seed: Some(seed), ..config };
        c.apply(BotCommand::SetRandomLook(Some(config)));
        assert_eq!(c.random_look.as_ref().unwrap().ticks_until_next, 2);
    }
    // No whole tick lasts 60 to 90 ms.
    let narrow = RandomLookConfig {
        min_interval_nanos: 60 * MILLI,
        max_interval_nanos: 90 * MILLI,
        ..config
    };
    assert_eq!(interval_ticks(&narrow, 80), 1);
}

#[test]
fn a_seed_draws_the_same_countdowns() {
    let config = RandomLookConfig {
        min_interval_nanos: 50 * MILLI,
        max_interval_nanos: 60 * SECOND,
        ..random_look_config(7)
    };
    let countdowns = |seed: u64| {
        let mut c = Controller::default();
        let mut p = player_at(0.0, 0.0);
        c.apply(BotCommand::SetRandomLook(Some(RandomLookConfig { seed: Some(seed), ..config })));
        let mut drawn = Vec::new();
        for _ in 0..20 {
            drawn.push(c.random_look.as_ref().unwrap().ticks_until_next);
            c.turn_randomly(&mut p, 0, 0);
        }
        drawn
    };
    assert_eq!(countdowns(7), countdowns(7));
    assert_ne!(countdowns(7), countdowns(8));
    let mut c = Controller::default();
    c.apply(BotCommand::SetRandomLook(Some(RandomLookConfig { seed: None, ..config })));
    assert!(c.random_look.is_some());
}

#[test]
fn an_active_goal_keeps_its_yaw() {
    let mut c = Controller::default();
    c.apply(BotCommand::SetRandomLook(Some(random_look_config(1))));
    c.apply(walk_to(10.0, 0.0));
    let mut p = player_at(0.0, 0.0);
    p.position.yaw = (-90.0f32).to_bits();
    c.turn_randomly(&mut p, (33.0f32).to_bits(), (12.0f32).to_bits());
    assert_eq!((yaw(&p), pitch(&p)), (-90.0, 12.0));
    c.apply(BotCommand::Stop);
    c.turn_randomly(&mut p, (33.0f32).to_bits(), (12.0f32).to_bits());
    assert_eq!((yaw(&p), pitch(&p)), (33.0, 12.0));
}
