use minerider::float_bits::{floor_double, Double, Single};
use minerider::minecraft::nbt::Nbt;
use minerider::minecraft::collision::{clip_axis, may_step, Aabb, Axis, Obstacle};
use minerider::minecraft::geometry::Vec3;
use minerider::minecraft::hud::PacketUpdateHealth;
use minerider::minecraft::motion::collision_result;
use minerider::minecraft::player::{
    LocalPlayer, MovementPacket, PacketExperience, PacketPosition, PlayerPosition, PositionSums,
    GRAVITY, HAS_HORIZONTAL_COLLISION, ON_GROUND, POSITION_REMINDER_INTERVAL, RELATIVE_DY,
    RELATIVE_PITCH, RELATIVE_X, RELATIVE_Y, RELATIVE_YAW, RELATIVE_Z, VERTICAL_DRAG,
};

fn vec3(x: f64, y: f64, z: f64) -> Vec3 {
    Vec3 { x: x.to_bits(), y: y.to_bits(), z: z.to_bits() }
}

fn floats(v: Vec3) -> (f64, f64, f64) {
    (f64::from_bits(v.x), f64::from_bits(v.y), f64::from_bits(v.z))
}

fn position(x: f64, y: f64, z: f64, yaw: f32, pitch: f32) -> PlayerPosition {
    PlayerPosition { at: vec3(x, y, z), yaw: yaw.to_bits(), pitch: pitch.to_bits() }
}

fn sync(x: f64, y: f64, z: f64, yaw: f32, pitch: f32, flags: u32) -> PacketPosition {
    PacketPosition {
        teleport_id: 1,
        at: vec3(x, y, z),
        velocity: vec3(0.0, 0.0, 0.0),
        yaw: yaw.to_bits(),
        pitch: pitch.to_bits(),
        flags,
    }
}

fn plus(a: Vec3, b: Vec3) -> Vec3 {
    let (a, b) = (floats(a), floats(b));
    vec3(a.0 + b.0, a.1 + b.1, a.2 + b.2)
}

fn plus32(a: u32, b: u32) -> u32 {
    (f32::from_bits(a) + f32::from_bits(b)).to_bits()
}

fn on_position(p: &mut LocalPlayer, packet: &PacketPosition) {
    let sums = PositionSums {
        at: plus(p.position.at, packet.at),
        velocity: plus(p.velocity, packet.velocity),
        yaw: plus32(p.position.yaw, packet.yaw),
        pitch: plus32(p.position.pitch, packet.pitch),
    };
    p.on_position(packet, &sums);
}

/// One report, with the distance since the last one measured.
fn movement_packet(p: &mut LocalPlayer) -> Option<MovementPacket> {
    let (x, y, z) = floats(p.position.at);
    let (lx, ly, lz) = floats(p.last_position.at);
    let (dx, dy, dz) = (x - lx, y - ly, z - lz);
    p.movement_packet(dx * dx + dy * dy + dz * dz > 2.0e-4 * 2.0e-4)
}

fn add_x(p: &mut LocalPlayer, d: f64) {
    p.position.at.x = (f64::from_bits(p.position.at.x) + d).to_bits();
}

#[test]
fn defaults_are_vanilla_spawn() {
    let p = LocalPlayer::new();
    assert_eq!(p.entity_id, None);
    assert_eq!(f32::from_bits(p.health), 20.0);
    assert_eq!(p.food, 20);
    assert!(p.is_alive());
    assert_eq!(f32::from_bits(p.saturation), 5.0);
}

#[test]
fn absolute_position_replaces() {
    let mut p = LocalPlayer::new();
    on_position(&mut p, &sync(10.0, 64.0, -5.0, 90.0, 0.0, 0));
    assert_eq!(floats(p.position.at), (10.0, 64.0, -5.0));
    assert_eq!(f32::from_bits(p.position.yaw), 90.0);
}

#[test]
fn relative_position_adds_to_previous() {
    let mut p = LocalPlayer::new();
    on_position(&mut p, &sync(10.0, 64.0, -5.0, 0.0, 0.0, 0));
    // All-relative update: deltas add onto the previous absolute value.
    let all = RELATIVE_X | RELATIVE_Y | RELATIVE_Z;
    on_position(&mut p, &sync(1.0, 2.0, 3.0, 0.0, 0.0, all));
    assert_eq!(floats(p.position.at), (11.0, 66.0, -2.0));
}

#[test]
fn each_flag_has_its_own_field() {
    let mut p = LocalPlayer::new();
    on_position(&mut p, &sync(1.0, 1.0, 1.0, 10.0, 20.0, 0));
    p.velocity = vec3(1.0, 1.0, 1.0);
    let mut packet = sync(5.0, 5.0, 5.0, 1.0, 2.0, RELATIVE_YAW | RELATIVE_PITCH | RELATIVE_DY);
    packet.velocity = vec3(3.0, 3.0, 3.0);
    on_position(&mut p, &packet);
    assert_eq!(floats(p.position.at), (5.0, 5.0, 5.0));
    assert_eq!(f32::from_bits(p.position.yaw), 11.0);
    assert_eq!(f32::from_bits(p.position.pitch), 22.0);
    assert_eq!(floats(p.velocity), (3.0, 4.0, 3.0));
}

#[test]
fn health_update_and_death() {
    let mut p = LocalPlayer::new();
    p.on_health(&PacketUpdateHealth {
        health: (0.0f32).to_bits(),
        food: 3,
        food_saturation: (0.0f32).to_bits(),
    });
    assert_eq!(f32::from_bits(p.health), 0.0);
    assert_eq!(p.food, 3);
    assert!(!p.is_alive());
}

#[test]
fn on_respawn_clears_carried_over_physics_state() {
    let mut p = LocalPlayer::new();
    p.mark_loaded();
    p.velocity = vec3(1.0, -3.92, 1.0);
    p.on_ground = true;
    p.horizontal_collision = true;

    p.on_respawn();

    assert!(!p.loaded, "readiness resets so the load flow re-runs");
    assert_eq!(p.velocity, Vec3::default(), "no carried-over fall velocity");
    assert!(!p.on_ground);
    assert!(!p.horizontal_collision);
}

#[test]
fn experience_update() {
    let mut p = LocalPlayer::new();
    p.on_experience(&PacketExperience {
        experience_bar: (0.5f32).to_bits(),
        level: 7,
        total_experience: 100,
    });
    assert_eq!(f32::from_bits(p.xp_bar), 0.5);
    assert_eq!(p.xp_level, 7);
    assert_eq!(p.total_experience, 100);
}

fn loaded_player() -> LocalPlayer {
    let mut p = LocalPlayer::new();
    p.position = position(10.0, 64.0, -2.0, 20.0, 5.0);
    p.mark_loaded();
    p
}

#[test]
fn movement_is_silent_before_world_load() {
    let mut p = LocalPlayer::new();
    p.position.at.x = (10.0f64).to_bits();
    assert_eq!(movement_packet(&mut p), None);
}

#[test]
fn idle_position_reminder_is_exactly_twenty_ticks() {
    let mut p = loaded_player();
    for tick in 1..POSITION_REMINDER_INTERVAL {
        assert_eq!(
            movement_packet(&mut p),
            None,
            "unexpected packet at tick {tick}"
        );
    }
    assert!(matches!(
        movement_packet(&mut p),
        Some(MovementPacket::Position(_))
    ));
    assert_eq!(movement_packet(&mut p), None);
}

#[test]
fn position_threshold_is_strictly_greater_than_vanilla_epsilon() {
    let mut p = loaded_player();
    add_x(&mut p, 2.0e-4);
    assert_eq!(movement_packet(&mut p), None);
    add_x(&mut p, 1.0e-10);
    assert!(matches!(
        movement_packet(&mut p),
        Some(MovementPacket::Position(_))
    ));
}

#[test]
fn chooses_position_look_then_position_then_look() {
    let mut p = loaded_player();
    add_x(&mut p, 1.0);
    p.position.yaw = plus32(p.position.yaw, (1.0f32).to_bits());
    assert!(matches!(
        movement_packet(&mut p),
        Some(MovementPacket::PositionLook(_))
    ));

    p.position.at.z = (f64::from_bits(p.position.at.z) + 1.0).to_bits();
    assert!(matches!(
        movement_packet(&mut p),
        Some(MovementPacket::Position(_))
    ));

    p.position.pitch = plus32(p.position.pitch, (1.0f32).to_bits());
    assert!(matches!(movement_packet(&mut p), Some(MovementPacket::Look(_))));
}

#[test]
fn status_only_reports_ground_or_collision_change() {
    let mut p = loaded_player();
    p.on_ground = true;
    let Some(MovementPacket::StatusOnly(packet)) = movement_packet(&mut p) else {
        panic!("expected status-only packet");
    };
    assert!(packet.flags & ON_GROUND != 0);
    assert!(packet.flags & HAS_HORIZONTAL_COLLISION == 0);

    p.horizontal_collision = true;
    let Some(MovementPacket::StatusOnly(packet)) = movement_packet(&mut p) else {
        panic!("expected collision status-only packet");
    };
    assert!(packet.flags & ON_GROUND != 0);
    assert!(packet.flags & HAS_HORIZONTAL_COLLISION != 0);
}

#[test]
fn a_turn_from_zero_to_minus_zero_does_not_show() {
    let mut p = LocalPlayer::new();
    p.mark_loaded();
    p.position.yaw = (-0.0f32).to_bits();
    assert_eq!(movement_packet(&mut p), None);
    p.position.yaw = f32::NAN.to_bits();
    assert!(matches!(movement_packet(&mut p), Some(MovementPacket::Look(_))));
    assert!(matches!(movement_packet(&mut p), Some(MovementPacket::Look(_))));
}

#[test]
fn an_acknowledged_teleport_is_not_repeated() {
    let mut p = loaded_player();
    add_x(&mut p, 50.0);
    p.on_ground = true;
    let ack = p.teleport_ack_movement();
    assert_eq!(floats(ack.at), (60.0, 64.0, -2.0));
    assert_eq!(ack.flags, 0);
    assert_eq!(movement_packet(&mut p), None);
}

#[test]
fn apply_velocity_sets_knockback_absolutely() {
    // entity_velocity is an absolute set, not a delta (unlike synchronize
    // position's relative flags).
    let mut p = LocalPlayer::new();
    p.velocity = vec3(0.1, 0.0, 0.1);
    p.apply_velocity(vec3(-0.4, 0.36, 0.2));
    assert_eq!(p.velocity, vec3(-0.4, 0.36, 0.2));
}

#[test]
fn free_fall_approaches_vanilla_terminal_velocity() {
    // Iterating the ordering to its fixed point yields -3.92 blocks/tick,
    // vanilla's terminal velocity, not the -4.0 a mis-ordered gravity gives.
    let mut vel = 0.0_f64;
    for _ in 0..2000 {
        vel = (vel - f64::from_bits(GRAVITY)) * f64::from_bits(VERTICAL_DRAG);
    }
    assert!((vel - (-3.92)).abs() < 1.0e-6, "terminal velocity {vel}");
}

#[test]
fn a_held_jump_key_jumps_every_tenth_tick() {
    let mut player = LocalPlayer::new();
    player.on_ground = true;
    player.input.jump = true;
    player.velocity.x = (0.0029f64).to_bits();
    player.velocity.z = (-0.003f64).to_bits();
    assert!(player.begin_step());
    assert_eq!(player.velocity.x, 0);
    assert_eq!(f64::from_bits(player.velocity.y), 0.42);
    assert_eq!(f64::from_bits(player.velocity.z), -0.003);
    for _ in 0..9 {
        assert!(!player.begin_step());
    }
    assert!(player.begin_step());
}

#[test]
fn a_clipped_move_lands() {
    let bits = |x: f64, y: f64, z: f64| Vec3 { x: x.to_bits(), y: y.to_bits(), z: z.to_bits() };
    let requested = bits(0.25, -1.0, -0.0);
    let result = collision_result(bits(0.25, -0.5, 0.0), requested);
    assert!(!result.horizontal_collision && result.vertical_collision && result.on_ground);
    let mut player = LocalPlayer::new();
    player.velocity = requested;
    player.finish_move(bits(3.0, 4.0, 5.0), result);
    assert!(player.on_ground && !player.horizontal_collision);
    assert_eq!(player.velocity, bits(0.25, 0.0, -0.0));
    assert_eq!(player.position.at, bits(3.0, 4.0, 5.0));
    let head = collision_result(bits(0.0, 0.5, 0.0), bits(0.0, 1.0, f64::NAN));
    assert!(head.horizontal_collision && head.vertical_collision && !head.on_ground);
}

fn cube(x: f64, y: f64, z: f64) -> Aabb {
    Aabb { min: vec3(x, y, z), max: vec3(x + 1.0, y + 1.0, z + 1.0) }
}

fn obstacle(aabb: &Aabb, axis: Axis, shape: Aabb) -> Obstacle {
    let along = |v: Vec3| match axis {
        Axis::X => f64::from_bits(v.x),
        Axis::Y => f64::from_bits(v.y),
        Axis::Z => f64::from_bits(v.z),
    };
    Obstacle {
        shape,
        ahead: (along(shape.min) - along(aabb.max)).to_bits(),
        behind: (along(shape.max) - along(aabb.min)).to_bits(),
    }
}

#[test]
fn moves_end_at_the_nearest_box() {
    let player = Aabb { min: vec3(0.2, 1.1, 0.2), max: vec3(0.8, 2.9, 0.8) };
    let floor = vec![obstacle(&player, Axis::Y, cube(0.0, 0.0, 0.0))];
    let fall = f64::from_bits(clip_axis(&player, Axis::Y, (-0.5f64).to_bits(), &floor));
    assert!((fall + 0.1).abs() < 1.0e-9);
    let wall = vec![
        obstacle(&player, Axis::X, cube(3.0, 1.0, 0.0)),
        obstacle(&player, Axis::X, cube(1.0, 1.0, 0.0)),
        obstacle(&player, Axis::X, cube(0.9, 5.0, 0.0)),
    ];
    let walk = f64::from_bits(clip_axis(&player, Axis::X, (0.5f64).to_bits(), &wall));
    assert_eq!(walk, 1.0 - 0.8);
    // Moving away, nothing is in the way.
    assert_eq!(clip_axis(&player, Axis::X, (-0.5f64).to_bits(), &wall), (-0.5f64).to_bits());
}

#[test]
fn stepping_up_is_tried_on_the_ground_only() {
    let requested = vec3(0.1, -0.08, 0.0);
    assert!(may_step(&vec3(0.0, -0.08, 0.0), &requested, true));
    assert!(may_step(&vec3(0.0, 0.0, 0.0), &requested, false));
    assert!(!may_step(&vec3(0.0, -0.08, 0.0), &requested, false));
    assert!(!may_step(&vec3(0.1, 0.0, -0.0), &requested, true));
}

#[test]
fn floors_follow_the_float_layer() {
    let values = [
        0.0, -0.0, 0.5, -0.5, 1.0, -1.0, 15.999, -16.0, -16.001, 2147483646.9, 2147483648.0,
        -2147483648.5, 1.0e300, -1.0e300, 5.0e-324, -5.0e-324, f64::INFINITY, f64::NEG_INFINITY,
        f64::NAN, 4503599627370495.5, 123456.789,
    ];
    for value in values {
        assert_eq!(floor_double(value.to_bits()), value.floor() as i32, "{value}");
    }
}

#[test]
fn points_compare_as_numbers() {
    assert!(vec3(0.0, 1.0, 2.0) == vec3(-0.0, 1.0, 2.0));
    assert!(vec3(f64::NAN, 1.0, 2.0) != vec3(f64::NAN, 1.0, 2.0));
    let mut player = LocalPlayer::new();
    let other = player;
    assert!(player == other);
    player.health = f32::NAN.to_bits();
    let copy = player;
    assert!(player != copy);
    assert!(Nbt::Float((0.0f32).to_bits()) == Nbt::Float((-0.0f32).to_bits()));
    assert!(Nbt::Double(f64::NAN.to_bits()) != Nbt::Double(f64::NAN.to_bits()));
    assert!(Single((0.5f32).to_bits()) == Single((0.5f32).to_bits()));
    assert!(Double((0.0f64).to_bits()) == Double((-0.0f64).to_bits()));
}
