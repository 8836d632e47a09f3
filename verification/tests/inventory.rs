use std::sync::Arc;

use minerider::minecraft::gui::{open_window_view, player_inventory_view, GuiSlotView};
use minerider::minecraft::inventory::{
    DragButton, DragPhase, HotbarDestination, InventoryClick, InventoryClickRequest,
    InventoryError, InventoryEvent, InventoryOutcome, InventoryState, MouseButton,
    PacketCloseWindow, PacketCraftProgressBar, PacketHeldItemSlot, PacketOpenWindow,
    PacketSetCursorItem, PacketSetSlot, PacketWindowItems, MAX_PENDING_TRANSACTIONS,
    PLAYER_INVENTORY_WINDOW_ID, TRANSACTION_TIMEOUT_TICKS,
};
use minerider::minecraft::item::{
    empty_slot, Enchantment, Slot, SlotComponent, SlotComponentData, SlotComponentType, SlotValue,
    SlotValueDefault,
};
use minerider::minecraft::nbt::Nbt;

fn item_with(item_id: i32, count: i32, components: Vec<SlotComponent>) -> Slot {
    Slot {
        item_count: count,
        value: SlotValue::Default(SlotValueDefault {
            item_id,
            added_component_count: components.len() as i32,
            removed_component_count: 0,
            components: Arc::new(components),
            remove_components: Arc::new(vec![]),
        }),
    }
}

fn item(item_id: i32, count: i32) -> Slot {
    item_with(item_id, count, vec![])
}

fn empty_compound() -> Nbt {
    Nbt::Compound(Arc::new(vec![]))
}

fn text_component_nbt(text: &str) -> Nbt {
    Nbt::Compound(Arc::new(vec![(
        "text".to_string(),
        Nbt::String(text.to_string()),
    )]))
}

fn empty_slots(n: usize) -> Vec<Slot> {
    (0..n).map(|_| empty_slot()).collect()
}

#[test]
fn player_inventory_exists_from_the_start() {
    let inv = InventoryState::new();
    assert_eq!(inv.player_inventory.id, PLAYER_INVENTORY_WINDOW_ID);
    assert!(inv.open_window.is_none());
    assert_eq!(inv.cursor, empty_slot());
}

#[test]
fn window_items_fills_player_inventory() {
    let mut inv = InventoryState::new();
    inv.window_items(&PacketWindowItems {
        window_id: 0,
        state_id: 3,
        items: vec![item(1, 5), empty_slot()],
        carried_item: empty_slot(),
    });
    assert_eq!(inv.player_inventory.state_id, 3);
    assert_eq!(inv.player_inventory.slots.len(), 2);
    assert_eq!(inv.player_inventory.slots[0], item(1, 5));
}

#[test]
fn open_window_replaces_any_previous_container() {
    let mut inv = InventoryState::new();
    inv.open_window(&PacketOpenWindow {
        window_id: 5,
        inventory_type: 2,
        window_title: empty_compound(),
    });
    assert_eq!(inv.open_window.as_ref().unwrap().id, 5);

    inv.open_window(&PacketOpenWindow {
        window_id: 7,
        inventory_type: 9,
        window_title: empty_compound(),
    });
    assert_eq!(
        inv.open_window.as_ref().unwrap().id,
        7,
        "opening a new window replaces the old one"
    );
}

#[test]
fn close_window_only_clears_matching_id() {
    let mut inv = InventoryState::new();
    inv.open_window(&PacketOpenWindow {
        window_id: 5,
        inventory_type: 2,
        window_title: empty_compound(),
    });
    // A stale close for a window we've already moved past is a no-op.
    inv.close_window(&PacketCloseWindow { window_id: 4 });
    assert!(inv.open_window.is_some());

    inv.close_window(&PacketCloseWindow { window_id: 5 });
    assert!(inv.open_window.is_none());
}

#[test]
fn set_slot_updates_one_index_and_grows_as_needed() {
    let mut inv = InventoryState::new();
    inv.window_items(&PacketWindowItems {
        window_id: 0,
        state_id: 1,
        items: empty_slots(3),
        carried_item: empty_slot(),
    });
    inv.set_slot(&PacketSetSlot {
        window_id: 0,
        state_id: 2,
        slot: 1,
        item: item(64, 1),
    });
    assert_eq!(inv.player_inventory.slots[1], item(64, 1));
    assert_eq!(inv.player_inventory.state_id, 2);

    // An index past the known length grows the window instead of panicking.
    inv.set_slot(&PacketSetSlot {
        window_id: 0,
        state_id: 3,
        slot: 10,
        item: item(2, 1),
    });
    assert_eq!(inv.player_inventory.slots.len(), 11);
    assert_eq!(inv.player_inventory.slots[10], item(2, 1));
}

#[test]
fn set_slot_for_unknown_window_is_ignored() {
    let mut inv = InventoryState::new();
    inv.set_slot(&PacketSetSlot {
        window_id: 9,
        state_id: 1,
        slot: 0,
        item: item(1, 1),
    });
    assert!(
        inv.open_window.is_none(),
        "no window was created out of thin air"
    );
}

#[test]
fn set_slot_legacy_cursor_address_updates_cursor() {
    let mut inv = InventoryState::new();
    inv.set_slot(&PacketSetSlot {
        window_id: -1,
        state_id: 0,
        slot: -1,
        item: item(3, 2),
    });
    assert_eq!(inv.cursor, item(3, 2));
}

#[test]
fn set_cursor_item_updates_cursor() {
    let mut inv = InventoryState::new();
    inv.set_cursor_item(&PacketSetCursorItem {
        contents: item(9, 1),
    });
    assert_eq!(inv.cursor, item(9, 1));
}

#[test]
fn craft_progress_bar_tracks_properties_on_open_window() {
    let mut inv = InventoryState::new();
    inv.open_window(&PacketOpenWindow {
        window_id: 5,
        inventory_type: 13, // furnace
        window_title: empty_compound(),
    });
    inv.craft_progress_bar(&PacketCraftProgressBar {
        window_id: 5,
        property: 0,
        value: 150,
    });
    assert_eq!(inv.open_window.unwrap().properties.get(&0), Some(&150));
}

#[test]
fn craft_progress_bar_for_unopened_window_is_ignored() {
    let mut inv = InventoryState::new();
    inv.craft_progress_bar(&PacketCraftProgressBar {
        window_id: 5,
        property: 0,
        value: 150,
    });
    assert!(inv.open_window.is_none());
}

#[test]
fn held_item_slot_tracks_selection() {
    let mut inv = InventoryState::new();
    inv.held_item_slot(&PacketHeldItemSlot { slot: 4 });
    assert_eq!(inv.selected_hotbar_slot, 4);
}

#[test]
fn a_selection_outside_the_hotbar_is_not_taken() {
    let mut inv = InventoryState::new();
    let event = inv.select_hotbar_slot(3);
    assert!(matches!(
        event,
        InventoryEvent::SelectedHotbarChanged { slot: 3, applied: true }
    ));
    let event = inv.select_hotbar_slot(9);
    assert!(matches!(
        event,
        InventoryEvent::SelectedHotbarChanged { slot: 3, applied: false }
    ));
}

fn transaction(id: u64, click: InventoryClick) -> InventoryClickRequest {
    InventoryClickRequest {
        transaction_id: id,
        generation: 3,
        window_id: 0,
        state_id: 7,
        click,
    }
}

fn synchronized_inventory() -> InventoryState {
    let mut inventory = InventoryState::new();
    inventory.window_items(&PacketWindowItems {
        window_id: 0,
        state_id: 7,
        items: vec![item(1, 5), empty_slot(), item(2, 1)],
        carried_item: empty_slot(),
    });
    inventory
}

#[test]
fn typed_click_modes_encode_protocol_769_fields() {
    let cases = [
        (
            InventoryClick::Pickup {
                slot: Some(0),
                button: MouseButton::Right,
            },
            (0, 1, 0),
            false,
        ),
        (InventoryClick::QuickMove { slot: 1 }, (1, 0, 1), false),
        (
            InventoryClick::HotbarSwap {
                slot: 2,
                destination: HotbarDestination::Slot(8),
            },
            (2, 8, 2),
            false,
        ),
        (InventoryClick::Clone { slot: 0 }, (0, 2, 3), true),
        (
            InventoryClick::Throw {
                slot: 0,
                whole_stack: true,
            },
            (0, 1, 4),
            false,
        ),
        (InventoryClick::PickupAll { slot: 0 }, (0, 0, 6), false),
    ];
    let mut inventory = synchronized_inventory();
    for (index, (click, expected, creative)) in cases.into_iter().enumerate() {
        let prepared = inventory
            .prepare_click(transaction(index as u64 + 1, click), 10, creative)
            .unwrap();
        assert_eq!(
            (
                prepared.packet.slot,
                prepared.packet.mouse_button,
                prepared.packet.mode,
            ),
            expected
        );
        assert_eq!(prepared.packet.window_id, 0);
        assert_eq!(prepared.packet.state_id, 7);
        assert!(prepared.packet.changed_slots.is_empty());
        assert_eq!(prepared.packet.cursor_item, empty_slot());
    }
}

#[test]
fn malformed_slot_state_hotbar_and_creative_clicks_are_rejected() {
    let mut inventory = synchronized_inventory();
    assert!(matches!(
        inventory.prepare_click(
            transaction(1, InventoryClick::QuickMove { slot: -1 }),
            0,
            false
        ),
        Err(InventoryError::InvalidSlot { .. })
    ));
    let mut stale = transaction(2, InventoryClick::QuickMove { slot: 0 });
    stale.state_id = 6;
    assert!(matches!(
        inventory.prepare_click(stale, 0, false),
        Err(InventoryError::StaleState { .. })
    ));
    assert_eq!(
        inventory
            .prepare_click(
                transaction(
                    3,
                    InventoryClick::HotbarSwap {
                        slot: 0,
                        destination: HotbarDestination::Slot(9),
                    },
                ),
                0,
                false,
            )
            .err(),
        Some(InventoryError::InvalidHotbarSlot { slot: 9 })
    );
    assert_eq!(
        inventory
            .prepare_click(transaction(4, InventoryClick::Clone { slot: 0 }), 0, false)
            .err(),
        Some(InventoryError::CreativeOnly)
    );
}

#[test]
fn drag_lifecycle_validates_phases_and_buttons() {
    let mut inventory = synchronized_inventory();
    let start = InventoryClick::QuickCraft {
        phase: DragPhase::Start,
        button: DragButton::Left,
        slot: None,
    };
    let prepared = inventory
        .prepare_click(transaction(1, start), 0, false)
        .unwrap();
    assert_eq!(
        (
            prepared.packet.slot,
            prepared.packet.mouse_button,
            prepared.packet.mode
        ),
        (-999, 0, 5)
    );
    let events = inventory.mark_sent(1);
    assert!(events.iter().any(|event| matches!(
        event,
        InventoryEvent::TransactionFinished {
            outcome: InventoryOutcome::Sent,
            ..
        }
    )));

    let add = InventoryClick::QuickCraft {
        phase: DragPhase::AddSlot,
        button: DragButton::Left,
        slot: Some(1),
    };
    let prepared = inventory
        .prepare_click(transaction(2, add), 1, false)
        .unwrap();
    assert_eq!((prepared.packet.slot, prepared.packet.mouse_button), (1, 1));
    inventory.mark_sent(2);
    let wrong_end = InventoryClick::QuickCraft {
        phase: DragPhase::End,
        button: DragButton::Right,
        slot: None,
    };
    assert_eq!(
        inventory
            .prepare_click(transaction(3, wrong_end), 2, false)
            .err(),
        Some(InventoryError::InvalidDragPhase)
    );
    let end = InventoryClick::QuickCraft {
        phase: DragPhase::End,
        button: DragButton::Left,
        slot: None,
    };
    let prepared = inventory
        .prepare_click(transaction(4, end), 2, false)
        .unwrap();
    assert_eq!(
        (prepared.packet.slot, prepared.packet.mouse_button),
        (-999, 2)
    );
    assert!(inventory.drag.is_none());
}

#[test]
fn incremental_update_confirms_and_full_sync_corrects_transactions() {
    let mut inventory = synchronized_inventory();
    assert!(inventory
        .prepare_click(
            transaction(1, InventoryClick::QuickMove { slot: 0 }),
            0,
            false,
        )
        .is_ok());
    inventory.mark_sent(1);
    let events = inventory.set_slot(&PacketSetSlot {
        window_id: 0,
        state_id: 8,
        slot: 0,
        item: empty_slot(),
    });
    assert!(events.iter().any(|event| matches!(
        event,
        InventoryEvent::TransactionFinished {
            transaction_id: 1,
            outcome: InventoryOutcome::Confirmed { state_id: 8 },
        }
    )));

    let mut request = transaction(2, InventoryClick::PickupAll { slot: 1 });
    request.state_id = 8;
    assert!(inventory.prepare_click(request, 1, false).is_ok());
    inventory.mark_sent(2);
    let events = inventory.window_items(&PacketWindowItems {
        window_id: 0,
        state_id: 9,
        items: empty_slots(3),
        carried_item: item(1, 5),
    });
    assert!(events.iter().any(|event| matches!(
        event,
        InventoryEvent::TransactionFinished {
            transaction_id: 2,
            outcome: InventoryOutcome::Corrected { state_id: 9 },
        }
    )));
    assert_eq!(inventory.cursor, item(1, 5));
}

#[test]
fn transaction_queue_and_completed_history_are_bounded() {
    let mut inventory = synchronized_inventory();
    for id in 0..MAX_PENDING_TRANSACTIONS as u64 {
        assert!(inventory
            .prepare_click(
                transaction(
                    id,
                    InventoryClick::Pickup {
                        slot: None,
                        button: MouseButton::Left,
                    },
                ),
                0,
                false,
            )
            .is_ok());
    }
    assert_eq!(
        inventory
            .prepare_click(
                transaction(
                    MAX_PENDING_TRANSACTIONS as u64,
                    InventoryClick::PickupAll { slot: 0 }
                ),
                0,
                false,
            )
            .err(),
        Some(InventoryError::QueueFull)
    );
    let events = inventory.expire_transactions(TRANSACTION_TIMEOUT_TICKS);
    assert_eq!(events.len(), MAX_PENDING_TRANSACTIONS);
    assert!(inventory.pending_transactions.is_empty());
    assert_eq!(
        inventory.completed_transactions.len(),
        MAX_PENDING_TRANSACTIONS
    );
}

#[test]
fn closing_window_cancels_pending_transaction() {
    let mut inventory = InventoryState::new();
    inventory.open_window(&PacketOpenWindow {
        window_id: 5,
        inventory_type: 2,
        window_title: empty_compound(),
    });
    inventory.window_items(&PacketWindowItems {
        window_id: 5,
        state_id: 1,
        items: vec![empty_slot()],
        carried_item: empty_slot(),
    });
    let request = InventoryClickRequest {
        transaction_id: 9,
        generation: 1,
        window_id: 5,
        state_id: 1,
        click: InventoryClick::QuickMove { slot: 0 },
    };
    assert!(inventory.prepare_click(request, 0, false).is_ok());
    inventory.mark_sent(9);
    let events = inventory.close_window(&PacketCloseWindow { window_id: 5 });
    assert!(events.iter().any(|event| matches!(
        event,
        InventoryEvent::TransactionFinished {
            transaction_id: 9,
            outcome: InventoryOutcome::WindowClosed,
        }
    )));
}

#[test]
fn a_used_transaction_id_is_refused() {
    let mut inventory = synchronized_inventory();
    let click = InventoryClick::QuickMove { slot: 0 };
    assert!(inventory.prepare_click(transaction(1, click), 0, false).is_ok());
    assert_eq!(
        inventory.prepare_click(transaction(1, click), 0, false).err(),
        Some(InventoryError::DuplicateTransaction { transaction_id: 1 })
    );
    inventory.expire_transactions(TRANSACTION_TIMEOUT_TICKS);
    assert_eq!(
        inventory.prepare_click(transaction(1, click), 0, false).err(),
        Some(InventoryError::DuplicateTransaction { transaction_id: 1 })
    );
    let mut elsewhere = transaction(2, click);
    elsewhere.window_id = 77;
    let error = inventory.prepare_click(elsewhere, 0, false).err().unwrap();
    assert_eq!(error, InventoryError::UnknownWindow { window_id: 77 });
    assert!(error.message().contains("77"));
}

#[test]
fn no_open_window_returns_none() {
    let inventory = InventoryState::new();
    assert!(open_window_view(&inventory).is_none());
}

#[test]
fn open_window_view_preserves_raw_slot_order_and_zero_index() {
    let mut inventory = InventoryState::new();
    inventory.open_window(&PacketOpenWindow {
        window_id: 5,
        inventory_type: 2,
        window_title: text_component_nbt("Chest"),
    });
    inventory.window_items(&PacketWindowItems {
        window_id: 5,
        state_id: 3,
        items: vec![item(1, 1), empty_slot(), item(2, 5)],
        carried_item: empty_slot(),
    });
    let view = open_window_view(&inventory).expect("window is open");
    assert_eq!(view.window_id, 5);
    assert_eq!(view.menu_type, 2);
    assert_eq!(view.title_text, "Chest");
    assert_eq!(view.state_id, 3);
    assert_eq!(view.slots.len(), 3);
    assert_eq!(view.slots[0].index, 0);
    assert!(!view.slots[0].empty);
    assert_eq!(view.slots[0].item_id, Some(1));
    assert_eq!(view.slots[0].count, 1);
    assert_eq!(view.slots[1].index, 1);
    assert!(view.slots[1].empty);
    assert_eq!(view.slots[1].item_id, None);
    assert_eq!(view.slots[2].index, 2);
    assert_eq!(view.slots[2].item_id, Some(2));
    assert_eq!(view.slots[2].count, 5);
}

#[test]
fn custom_name_lore_and_enchantments_decode_best_effort() {
    let components = || {
        vec![
            SlotComponent {
                kind: SlotComponentType::CustomName,
                data: SlotComponentData::CustomName(text_component_nbt("Excalibur")),
            },
            SlotComponent {
                kind: SlotComponentType::Lore,
                data: SlotComponentData::Lore(vec![
                    Some(text_component_nbt("A legendary blade")),
                    None,
                ]),
            },
            SlotComponent {
                kind: SlotComponentType::Enchantments,
                data: SlotComponentData::Enchantments {
                    enchantments: vec![Enchantment { id: 9, level: 3 }],
                    show_tooltip: true,
                },
            },
        ]
    };
    let slot = item_with(276, 1, components());
    let view = GuiSlotView::from_slot(0, &slot);
    assert_eq!(view.custom_name.as_deref(), Some("Excalibur"));
    assert_eq!(view.lore, Some(vec!["A legendary blade".to_string()]));
    assert_eq!(view.enchantments, Some(vec![(9, 3)]));
    assert_eq!(
        *view.components,
        components(),
        "raw components preserved verbatim"
    );
}

#[test]
fn unknown_component_is_preserved_but_not_specially_decoded() {
    let components = || {
        vec![SlotComponent {
            kind: SlotComponentType::Damage,
            data: SlotComponentData::Damage(7),
        }]
    };
    let slot = item_with(1, 1, components());
    let view = GuiSlotView::from_slot(0, &slot);
    assert_eq!(view.custom_name, None);
    assert_eq!(view.lore, None);
    assert_eq!(view.enchantments, None);
    assert_eq!(*view.components, components());
}

#[test]
fn empty_slot_view_has_no_item_data() {
    let view = GuiSlotView::from_slot(4, &empty_slot());
    assert!(view.empty);
    assert_eq!(view.item_id, None);
    assert_eq!(view.count, 0);
    assert_eq!(view.custom_name, None);
}

#[test]
fn registry_name_is_documented_as_unavailable() {
    let view = GuiSlotView::from_slot(0, &item(1, 1));
    assert_eq!(view.registry_name, None, "there is no registry of item names");
}

#[test]
fn dump_text_includes_header_and_every_slot() {
    let mut inventory = InventoryState::new();
    inventory.open_window(&PacketOpenWindow {
        window_id: 5,
        inventory_type: 2,
        window_title: text_component_nbt("Chest"),
    });
    inventory.window_items(&PacketWindowItems {
        window_id: 5,
        state_id: 1,
        items: vec![item(1, 1)],
        carried_item: empty_slot(),
    });
    let view = open_window_view(&inventory).unwrap();
    let dump = view.dump_text();
    assert!(dump.contains("window_id=5"));
    assert!(dump.contains("slot=0"));
}

#[test]
fn a_dump_is_written_like_debug_output() {
    let mut inventory = InventoryState::new();
    inventory.open_window(&PacketOpenWindow {
        window_id: 5,
        inventory_type: 2,
        window_title: text_component_nbt("A \"box\""),
    });
    let named = item_with(
        3,
        2,
        vec![
            SlotComponent {
                kind: SlotComponentType::CustomName,
                data: SlotComponentData::CustomName(text_component_nbt("n")),
            },
            SlotComponent {
                kind: SlotComponentType::Lore,
                data: SlotComponentData::Lore(vec![
                    Some(text_component_nbt("a")),
                    Some(text_component_nbt("b")),
                ]),
            },
            SlotComponent {
                kind: SlotComponentType::StoredEnchantments,
                data: SlotComponentData::StoredEnchantments {
                    enchantments: vec![
                        Enchantment { id: 1, level: 2 },
                        Enchantment { id: -3, level: 4 },
                    ],
                    show_tooltip: true,
                },
            },
        ],
    );
    inventory.window_items(&PacketWindowItems {
        window_id: 5,
        state_id: 1,
        items: vec![named, empty_slot()],
        carried_item: item(9, 1),
    });
    for (property, value) in [(3, 7), (1, -5)] {
        inventory.craft_progress_bar(&PacketCraftProgressBar { window_id: 5, property, value });
    }
    let properties: std::collections::BTreeMap<i16, i16> = [(3, 7), (1, -5)].into_iter().collect();
    let some: Option<i32> = Some(3);
    let none: Option<i32> = None;
    let want = format!(
        "window_id=5 menu_type=2 title={:?} state_id=1 slots=2 truncated=false\n  slot=0 empty=false item_id={:?} registry_name=None count=2 custom_name={:?} lore={:?} enchantments={:?}\n  slot=1 empty=true item_id={:?} registry_name=None count=0 custom_name=None lore=None enchantments=None\ncursor: empty=false item_id={:?} count=1\nproperties: {:?}\n",
        "A \"box\"",
        some,
        Some("n"),
        Some(vec!["a", "b"]),
        Some(vec![(1, 2), (-3, 4)]),
        none,
        Some(9),
        properties,
    );
    let mut view = open_window_view(&inventory).unwrap();
    assert_eq!(view.dump_text(), want);
    view.slots[0].registry_name = Some("minecraft:stone");
    assert_eq!(
        view.dump_text(),
        want.replacen("registry_name=None", "registry_name=Some(\"minecraft:stone\")", 1)
    );
}

#[test]
fn player_inventory_view_uses_the_player_inventory_window_id() {
    let inventory = InventoryState::new();
    let view = player_inventory_view(&inventory);
    assert_eq!(view.window_id, PLAYER_INVENTORY_WINDOW_ID);
}
