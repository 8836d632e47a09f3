use minerider::minecraft::entity::{
    EntityStore, PacketEntityHeadRotation, PacketEntityLook, PacketEntityMoveLook,
    PacketEntityTeleport, PacketEntityVelocity, PacketRelEntityMove, PacketSpawnEntity,
    PacketSyncEntityPosition, Step, STEP_PARTS,
};
use minerider::minecraft::geometry::{angle_to_degrees, Vec3};
use minerider::minecraft::nbt::Nbt;
use minerider::minecraft::players::{
    ChatSessionValue, PacketPlayerInfo, PacketPlayerInfoAction, PacketPlayerInfoDataItem,
    PacketPlayerRemove, PlayerList, ADD_PLAYER, INITIALIZE_CHAT, MAX_PLAYERS, UPDATE_DISPLAY_NAME,
    UPDATE_GAME_MODE, UPDATE_HAT, UPDATE_LATENCY, UPDATE_LISTED, UPDATE_LIST_ORDER,
};

fn item(uuid: u128) -> PacketPlayerInfoDataItem {
    PacketPlayerInfoDataItem {
        uuid,
        player: None,
        chat_session: None,
        gamemode: None,
        listed: None,
        latency: None,
        display_name: None,
        list_priority: None,
        show_hat: None,
    }
}

fn add_item(uuid: u128, name: &str, gamemode: i32, latency: i32) -> PacketPlayerInfoDataItem {
    PacketPlayerInfoDataItem {
        player: Some(name.to_string()),
        gamemode: Some(gamemode),
        listed: Some(1),
        latency: Some(latency),
        ..item(uuid)
    }
}

fn add_action() -> PacketPlayerInfoAction {
    PacketPlayerInfoAction(ADD_PLAYER | UPDATE_GAME_MODE | UPDATE_LISTED | UPDATE_LATENCY)
}

#[test]
fn add_player_records_name_and_fields() {
    let mut list = PlayerList::new();
    let changes = list.apply_info(&PacketPlayerInfo {
        action: add_action(),
        data: vec![add_item(7, "Notch", 1, 42)],
    });
    assert_eq!(changes.joined, vec![(7, "Notch".to_string())]);
    let entry = list.get(7).unwrap();
    assert_eq!(entry.name, "Notch");
    assert_eq!(entry.gamemode, 1);
    assert_eq!(entry.latency, 42);
    assert!(entry.listed);
    assert_eq!(changes.updated, vec![7]);
}

#[test]
fn latency_only_update_does_not_reset_name_or_count_as_join() {
    let mut list = PlayerList::new();
    list.apply_info(&PacketPlayerInfo {
        action: add_action(),
        data: vec![add_item(7, "Notch", 0, 10)],
    });
    // A latency-only update for the same player.
    let changes = list.apply_info(&PacketPlayerInfo {
        action: PacketPlayerInfoAction(UPDATE_LATENCY),
        data: vec![PacketPlayerInfoDataItem { latency: Some(99), ..item(7) }],
    });
    assert!(changes.joined.is_empty(), "latency update is not a join");
    let entry = list.get(7).unwrap();
    assert_eq!(entry.name, "Notch", "name preserved");
    assert_eq!(entry.latency, 99, "latency updated");
}

#[test]
fn remove_reports_removed_uuids() {
    let mut list = PlayerList::new();
    list.apply_info(&PacketPlayerInfo {
        action: add_action(),
        data: vec![add_item(7, "Notch", 0, 10), add_item(8, "Jeb", 0, 20)],
    });
    let removed = list.apply_remove(&PacketPlayerRemove {
        players: vec![7, 99],
    });
    assert_eq!(removed, vec![7]);
    assert!(list.get(7).is_none());
    assert!(list.get(8).is_some());
    assert_eq!(list.len(), 1);
}

#[test]
fn modern_player_info_fields_are_typed_and_clearable() {
    let mut list = PlayerList::new();
    list.apply_info(&PacketPlayerInfo {
        action: add_action(),
        data: vec![add_item(7, "Notch", 0, 10)],
    });
    let modern = PacketPlayerInfoDataItem {
        chat_session: Some(Some(ChatSessionValue {
            uuid: 99,
            expire_time: 1234,
            key_bytes: vec![1, 2],
            key_signature: vec![3, 4, 5],
        })),
        display_name: Some(Some(Nbt::String("Boss".into()))),
        list_priority: Some(12),
        show_hat: Some(true),
        ..item(7)
    };
    list.apply_info(&PacketPlayerInfo {
        action: PacketPlayerInfoAction(
            INITIALIZE_CHAT | UPDATE_DISPLAY_NAME | UPDATE_LIST_ORDER | UPDATE_HAT,
        ),
        data: vec![modern],
    });
    let entry = list.get(7).unwrap();
    assert_eq!(entry.display_name.as_ref().unwrap().plain_text(), "Boss");
    assert_eq!(entry.list_priority, 12);
    assert!(entry.show_hat);
    assert_eq!(entry.chat_session.as_ref().unwrap().session_id, 99);
    assert_eq!(entry.chat_session.as_ref().unwrap().signature_bytes, 3);

    let mut clear = add_item(7, "", 0, 0);
    clear.chat_session = Some(None);
    clear.display_name = Some(None);
    list.apply_info(&PacketPlayerInfo {
        action: PacketPlayerInfoAction(INITIALIZE_CHAT | UPDATE_DISPLAY_NAME),
        data: vec![clear],
    });
    let entry = list.get(7).unwrap();
    assert!(entry.chat_session.is_none());
    assert!(entry.display_name.is_none());
}

#[test]
fn player_bound_rejects_only_new_entries() {
    let mut list = PlayerList::new();
    for uuid in 0..MAX_PLAYERS as u128 {
        list.apply_info(&PacketPlayerInfo {
            action: PacketPlayerInfoAction(0),
            data: vec![item(uuid)],
        });
    }
    assert_eq!(list.len(), MAX_PLAYERS);
    let changes = list.apply_info(&PacketPlayerInfo {
        action: add_action(),
        data: vec![add_item(MAX_PLAYERS as u128 + 1, "overflow", 0, 0)],
    });
    assert_eq!(changes.rejected, 1);
    assert!(changes.updated.is_empty());

    let changes = list.apply_info(&PacketPlayerInfo {
        action: PacketPlayerInfoAction(UPDATE_LATENCY),
        data: vec![PacketPlayerInfoDataItem {
            uuid: 0,
            latency: Some(5),
            ..add_item(0, "ignored", 0, 0)
        }],
    });
    assert_eq!(changes.updated, vec![0]);
    assert_eq!(list.get(0).unwrap().latency, 5);
}

#[test]
fn iteration_is_deterministic_by_uuid() {
    let mut list = PlayerList::new();
    list.apply_info(&PacketPlayerInfo {
        action: add_action(),
        data: vec![add_item(9, "nine", 0, 0), add_item(2, "two", 0, 0)],
    });
    assert_eq!(
        list.iter().iter().map(|entry| entry.uuid).collect::<Vec<_>>(),
        vec![2, 9]
    );
}

#[test]
fn an_unnamed_player_has_not_joined_yet() {
    let mut list = PlayerList::new();
    let changes = list.apply_info(&PacketPlayerInfo {
        action: PacketPlayerInfoAction(UPDATE_LATENCY),
        data: vec![PacketPlayerInfoDataItem { latency: Some(1), ..item(3) }],
    });
    assert!(changes.joined.is_empty());
    assert_eq!(changes.updated, vec![3]);
    let entry = list.get(3).unwrap();
    assert_eq!((entry.gamemode, entry.latency, entry.listed), (-1, 1, false));
}

fn point(x: f64, y: f64, z: f64) -> Vec3 {
    Vec3 { x: x.to_bits(), y: y.to_bits(), z: z.to_bits() }
}

fn floats(v: Vec3) -> (f64, f64, f64) {
    (f64::from_bits(v.x), f64::from_bits(v.y), f64::from_bits(v.z))
}

fn spawn(id: i32, x: f64, y: f64, z: f64) -> PacketSpawnEntity {
    PacketSpawnEntity {
        entity_id: id,
        object_uuid: 0,
        kind: 1,
        position: point(x, y, z),
        pitch: 0,
        yaw: 0,
        head_pitch: 0,
        object_data: 0,
        velocity: point(0.0, 0.0, 0.0),
    }
}

/// Where a fixed-point step leads.
fn stepped(store: &EntityStore, id: i32, d: Step) -> Vec3 {
    let (x, y, z) = store.get(id).map_or((0.0, 0.0, 0.0), |e| floats(e.position));
    point(
        x + d.d_x as f64 / STEP_PARTS as f64,
        y + d.d_y as f64 / STEP_PARTS as f64,
        z + d.d_z as f64 / STEP_PARTS as f64,
    )
}

#[test]
fn spawn_then_get() {
    let mut store = EntityStore::new();
    store.spawn(&spawn(7, 1.0, 2.0, 3.0));
    let e = store.get(7).expect("entity 7 tracked");
    assert_eq!(floats(e.position), (1.0, 2.0, 3.0));
    assert_eq!(store.len(), 1);
}

#[test]
fn rel_move_adds_fixed_point_delta() {
    let mut store = EntityStore::new();
    store.spawn(&spawn(7, 0.0, 0.0, 0.0));
    // 4096 units == 1 block.
    let step = Step { d_x: 4096, d_y: -8192, d_z: 2048 };
    let to = stepped(&store, 7, step);
    store.rel_move(&PacketRelEntityMove {
        entity_id: 7,
        step,
        to,
        on_ground: true,
    });
    let e = store.get(7).unwrap();
    assert_eq!(floats(e.position), (1.0, -2.0, 0.5));
    assert!(e.on_ground);
}

#[test]
fn rel_move_on_unknown_entity_is_ignored() {
    let mut store = EntityStore::new();
    let step = Step { d_x: 4096, d_y: 0, d_z: 0 };
    let to = stepped(&store, 99, step);
    store.rel_move(&PacketRelEntityMove {
        entity_id: 99,
        step,
        to,
        on_ground: false,
    });
    assert!(store.is_empty());
}

#[test]
fn teleport_sets_absolute() {
    let mut store = EntityStore::new();
    store.spawn(&spawn(7, 0.0, 0.0, 0.0));
    store.teleport(&PacketEntityTeleport {
        entity_id: 7,
        position: point(100.0, 64.0, -50.0),
        yaw: 64, // quarter turn == 90 degrees
        pitch: 0,
        on_ground: false,
    });
    let e = store.get(7).unwrap();
    assert_eq!(floats(e.position), (100.0, 64.0, -50.0));
    assert!((f32::from_bits(e.yaw) - 90.0).abs() < 1e-3);
}

#[test]
fn velocity_uses_8000_unit() {
    let mut store = EntityStore::new();
    store.spawn(&spawn(7, 0.0, 0.0, 0.0));
    let unit = |v: i16| v as f64 / 8000.0;
    store.velocity(&PacketEntityVelocity {
        entity_id: 7,
        velocity: point(unit(8000), unit(0), unit(-4000)),
    });
    let e = store.get(7).unwrap();
    assert_eq!(floats(e.velocity).0, 1.0);
    assert_eq!(floats(e.velocity).2, -0.5);
}

#[test]
fn destroy_removes() {
    let mut store = EntityStore::new();
    store.spawn(&spawn(1, 0.0, 0.0, 0.0));
    store.spawn(&spawn(2, 0.0, 0.0, 0.0));
    store.destroy(&vec![1]);
    assert!(store.get(1).is_none());
    assert!(store.get(2).is_some());
    assert_eq!(store.len(), 1);
    assert_eq!(store.iter().iter().map(|e| e.id).collect::<Vec<_>>(), vec![2]);
}

#[test]
fn turns_and_syncs_touch_their_fields() {
    let mut store = EntityStore::new();
    store.spawn(&spawn(7, 1.0, 2.0, 3.0));
    store.look(&PacketEntityLook { entity_id: 7, yaw: -64, pitch: 32, on_ground: true });
    store.head_rotation(&PacketEntityHeadRotation { entity_id: 7, head_yaw: 1 });
    let e = *store.get(7).unwrap();
    assert_eq!(f32::from_bits(e.yaw), -90.0);
    assert_eq!(f32::from_bits(e.pitch), 45.0);
    assert_eq!(f32::from_bits(e.head_yaw), 360.0 / 256.0);
    assert_eq!(floats(e.position), (1.0, 2.0, 3.0));
    let step = Step { d_x: -4096, d_y: 0, d_z: 0 };
    let to = stepped(&store, 7, step);
    store.move_look(&PacketEntityMoveLook { entity_id: 7, step, to, yaw: 0, pitch: 0, on_ground: false });
    assert_eq!(floats(store.get(7).unwrap().position), (0.0, 2.0, 3.0));
    store.sync_position(&PacketSyncEntityPosition {
        entity_id: 7,
        position: point(9.0, 9.0, 9.0),
        velocity: point(0.5, 0.0, 0.0),
        yaw: (12.5f32).to_bits(),
        pitch: (0.25f32).to_bits(),
        on_ground: true,
    });
    let e = store.get(7).unwrap();
    assert_eq!(floats(e.velocity), (0.5, 0.0, 0.0));
    assert_eq!(f32::from_bits(e.yaw), 12.5);
}

#[test]
fn every_angle_is_exact() {
    for a in i8::MIN..=i8::MAX {
        let want = a as f32 * (360.0 / 256.0);
        assert_eq!(f32::from_bits(angle_to_degrees(a)), want, "angle {a}");
    }
}
