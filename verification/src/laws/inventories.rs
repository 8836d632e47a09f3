//! Windows, slots and clicks.
use crate::minecraft::inventory::{
    click_rule, cursor_set, hotbar_selected, own_slot_set, property_set, slot_set, window_closed,
    window_filled, window_opened, DragButton, DragPhase, DragState, Due, HotbarDestination,
    InventoryClick, InventoryClickRequest, InventoryError, InventoryEvent, InventoryModel,
    InventoryTransactionStatus, MouseButton, PacketCloseWindow, PacketCraftProgressBar,
    PacketHeldItemSlot, PacketOpenWindow, PacketSetCursorItem, PacketSetPlayerInventory,
    PacketSetSlot, PacketWindowItems, WindowModel,
};
use crate::minecraft::item::{no_item, Slot};
use vstd::prelude::*;

verus! {

/// The numbers that the wire has for a click: slot, button and mode. A left click
/// is button zero and a right click button one.
pub proof fn law_clicks_have_their_wire_numbers(
    drag: Option<DragState>,
    click: InventoryClick,
    slots: usize,
    creative: bool,
)
    requires
        click_rule(drag, click, slots, creative) is Ok,
    ensures
        ({
            let (slot, button, mode) = click_rule(drag, click, slots, creative)->Ok_0.0;
            &&& slot == -999 || 0 <= slot < slots
            &&& click matches InventoryClick::Pickup { slot: s, button: b } ==> mode == 0 && (
            button == 0 <==> b == MouseButton::Left) && (button == 1 <==> b == MouseButton::Right)
                && (s matches Some(s) ==> slot == s) && (s is None ==> slot == -999)
            &&& click matches InventoryClick::QuickMove { slot: s } ==> mode == 1 && button == 0
                && slot == s
            &&& click matches InventoryClick::HotbarSwap { slot: s, destination: d } ==> mode == 2
                && slot == s && match d {
                HotbarDestination::Slot(to) => button == to && to < 9,
                HotbarDestination::Offhand => button == 40,
            }
            &&& click matches InventoryClick::Clone { slot: s } ==> mode == 3 && button == 2 && slot
                == s && creative
            &&& click matches InventoryClick::Throw { slot: s, whole_stack: w } ==> mode == 4 && (
            button == 1 <==> w) && (button == 0 <==> !w) && slot == s
            &&& click matches InventoryClick::QuickCraft { phase, button: b, slot: s } ==> {
                &&& mode == 5
                &&& button / 4 == (match b {
                    DragButton::Left => 0int,
                    DragButton::Right => 1int,
                    DragButton::Middle => 2int,
                })
                &&& button % 4 == (match phase {
                    DragPhase::Start => 0int,
                    DragPhase::AddSlot => 1int,
                    DragPhase::End => 2int,
                })
                &&& (s matches Some(s) ==> slot == s && phase == DragPhase::AddSlot)
                &&& (s is None ==> slot == -999 && phase != DragPhase::AddSlot)
                &&& b == DragButton::Middle ==> creative
            }
            &&& click matches InventoryClick::PickupAll { slot: s } ==> mode == 6 && button == 0
                && slot == s
        }),
{
}

/// Two clicks that are told the same way are the same click.
pub proof fn law_different_clicks_are_told_differently(
    drag: Option<DragState>,
    a: InventoryClick,
    b: InventoryClick,
    slots: usize,
    creative: bool,
)
    requires
        click_rule(drag, a, slots, creative) is Ok,
        click_rule(drag, b, slots, creative) is Ok,
        click_rule(drag, a, slots, creative)->Ok_0.0 == click_rule(
            drag,
            b,
            slots,
            creative,
        )->Ok_0.0,
    ensures
        a == b,
{
    law_clicks_have_their_wire_numbers(drag, a, slots, creative);
    law_clicks_have_their_wire_numbers(drag, b, slots, creative);
}

/// Outside a drag, a click on a slot of the window is accepted unless it takes
/// creative mode or names a hotbar slot past the ninth; one on a slot that is not
/// there is refused for that. Within a drag only the drag goes on.
pub proof fn law_clicks_are_accepted_on_their_slots(
    click: InventoryClick,
    slot: i16,
    slots: usize,
    creative: bool,
)
    requires
        click == (InventoryClick::Pickup { slot: Some(slot), button: MouseButton::Left }) || click
            == (InventoryClick::Pickup { slot: Some(slot), button: MouseButton::Right }) || click
            == (InventoryClick::QuickMove { slot }) || click == (InventoryClick::Throw {
            slot,
            whole_stack: true,
        }) || click == (InventoryClick::Throw { slot, whole_stack: false }) || click == (
        InventoryClick::PickupAll { slot }) || click == (InventoryClick::HotbarSwap {
            slot,
            destination: HotbarDestination::Offhand,
        }),
    ensures
        click_rule(None, click, slots, creative) is Ok <==> 0 <= slot < slots,
        !(0 <= slot < slots) ==> click_rule(None, click, slots, creative)->Err_0 == (
        InventoryError::InvalidSlot { slot, slot_count: slots }),
        forall|drag: DragState|
            (#[trigger] click_rule(Some(drag), click, slots, creative)) == Err::<
                ((i16, i8, i32), Option<DragState>),
                InventoryError,
            >(InventoryError::DragInProgress),
{
}

/// A click is judged against the window it names: that window must be there, in the
/// revision the click was made for, and its id must be new.
pub proof fn law_clicks_need_the_current_window(
    m: InventoryModel,
    request: InventoryClickRequest,
    creative: bool,
)
    requires
        m.click(request, creative) is Ok,
    ensures
        m.window(request.window_id) matches Some(w) && w.state_id == request.state_id && click_rule(
            m.drag,
            request.click,
            w.slots.len() as usize,
            creative,
        ) == m.click(request, creative),
        m.pending.len() < 64,
        !m.completed.contains_key(request.transaction_id as int),
        forall|i: int|
            0 <= i < m.pending.len() ==> (#[trigger] m.pending[i]).request.transaction_id
                != request.transaction_id,
{
    assert(!m.has_pending(request.transaction_id));
    assert forall|i: int| 0 <= i < m.pending.len() implies (
    #[trigger] m.pending[i]).request.transaction_id != request.transaction_id by {
        if m.pending[i].request.transaction_id == request.transaction_id {
            assert(m.has_pending(request.transaction_id));
        }
    }
}

/// Window zero is the player's own; any other number is that of the open window, if
/// it has it.
pub proof fn law_windows_are_found_by_their_number(m: InventoryModel, id: i32, w: WindowModel)
    ensures
        m.window(0) == Some(m.player),
        id != 0 ==> (m.window(id) == Some(w) <==> m.open == Some(w) && w.id == id),
        id != 0 && m.window(id) is Some ==> m.open is Some && m.open->0.id == id,
        m.with_window(0, w) == (InventoryModel { player: w, ..m }),
        id != 0 ==> m.with_window(id, w) == (InventoryModel { open: Some(w), ..m }),
{
}

/// Setting a slot of a window makes that slot hold the item, leaves every other as
/// it was, and fills the gap up to a new one with empty slots. Slots below zero and
/// from 1024 on are not kept.
pub proof fn law_slots_hold_what_was_set(w: WindowModel, index: i16, item: Slot, i: int)
    requires
        w.slots.len() <= 1024,
    ensures
        ({
            let after = w.with_slot(index, item);
            &&& 0 <= index < 1024 ==> {
                &&& after.slots.len() == if index < w.slots.len() {
                    w.slots.len() as int
                } else {
                    index + 1
                }
                &&& after.slots[index as int] == item
                &&& 0 <= i < w.slots.len() && i != index ==> after.slots[i] == w.slots[i]
                &&& w.slots.len() <= i < index ==> after.slots[i] == no_item()
            }
            &&& !(0 <= index < 1024) ==> after == w
            &&& after == (WindowModel { slots: after.slots, ..w })
        }),
{
}

/// A refresh replaces every slot in order, up to the bound, and takes the revision
/// over.
pub proof fn law_refreshes_replace_every_slot(
    w: WindowModel,
    items: Seq<Slot>,
    state_id: i32,
    i: int,
)
    ensures
        ({
            let after = w.refreshed(items, state_id);
            &&& after.slots.len() <= 1024
            &&& items.len() <= 1024 ==> after.slots == items && !after.slots_truncated
            &&& items.len() > 1024 ==> after.slots.len() == 1024 && after.slots_truncated
            &&& 0 <= i < after.slots.len() ==> after.slots[i] == items[i]
            &&& after.state_id == state_id
            &&& after.id == w.id && after.kind == w.kind && after.title == w.title
                && after.properties == w.properties
        }),
{
}

/// What the server says of a window's contents is what the window holds: after a
/// refresh its slots and revision, after one slot that slot. A slot of window -1 is
/// the cursor. Other windows keep what they hold.
pub proof fn law_windows_hold_what_the_server_says(
    before: InventoryModel,
    all: PacketWindowItems,
    one: PacketSetSlot,
    after_all: InventoryModel,
    after_one: InventoryModel,
    events_all: Seq<InventoryEvent>,
    events_one: Seq<InventoryEvent>,
)
    requires
        before.valid(),
        window_filled(before, all, after_all, events_all),
        slot_set(before, one, after_one, events_one),
        all.items@.len() <= 1024,
    ensures
        after_all.cursor == all.carried_item,
        all.window_id == 0 ==> after_all.player.slots == all.items@ && after_all.player.state_id
            == all.state_id && after_all.open == before.open,
        all.window_id != 0 ==> after_all.player == before.player && (before.open matches Some(w)
            && w.id == all.window_id ==> (after_all.open matches Some(a) && a.id == all.window_id
            && a.slots
            == all.items@ && a.state_id == all.state_id)),
        one.window_id == -1 ==> after_one == (InventoryModel { cursor: one.item, ..before }),
        one.window_id != -1 ==> after_one.cursor == before.cursor,
        one.window_id == 0 && 0 <= one.slot < 1024 ==> after_one.player.slots[one.slot as int]
            == one.item && after_one.player.state_id == one.state_id && after_one.open
            == before.open,
        one.window_id != 0 && one.window_id != -1 ==> after_one.player == before.player && (
        before.open matches Some(w) && w.id == one.window_id && 0 <= one.slot < 1024
            ==> (after_one.open matches Some(a) && a.slots[one.slot as int] == one.item
            && a.state_id == one.state_id)),
{
}

/// Opening a window replaces the open one by an empty one of that number, kind and
/// title, and closing it by none; a close of another window does nothing. The
/// player's own window and the cursor stay, and a drag ends.
pub proof fn law_windows_open_and_close(
    before: InventoryModel,
    open: PacketOpenWindow,
    close: PacketCloseWindow,
    opened: InventoryModel,
    closed: InventoryModel,
    events_open: Seq<InventoryEvent>,
    events_close: Seq<InventoryEvent>,
)
    requires
        window_opened(before, open, opened, events_open),
        window_closed(before, close, closed, events_close),
    ensures
        opened.open matches Some(w) && w.id == open.window_id && w.kind == open.inventory_type
            && w.title == open.window_title && w.slots.len() == 0 && w.state_id == 0
            && !w.slots_truncated && w.properties == Map::<int, i16>::empty(),
        opened.player == before.player && opened.cursor == before.cursor && opened.selected
            == before.selected && opened.drag is None,
        before.open matches Some(w) && w.id == close.window_id ==> closed.open is None
            && closed.drag is None && closed.player == before.player && closed.cursor
            == before.cursor && closed.selected == before.selected,
        !(before.open matches Some(w) && w.id == close.window_id) ==> closed == before,
        events_open.len() > 0 && events_open.last() == (InventoryEvent::WindowOpened {
            window_id: open.window_id,
        }),
        before.open matches Some(w) ==> events_open[0] == (InventoryEvent::WindowClosed {
            window_id: w.id,
        }),
{
}

/// The small updates: the cursor, a slot of the player, a property and the selected
/// hotbar slot each take the value of the packet, and touch nothing else.
pub proof fn law_small_updates_take_their_values(
    before: InventoryModel,
    cursor: PacketSetCursorItem,
    own: PacketSetPlayerInventory,
    property: PacketCraftProgressBar,
    held: PacketHeldItemSlot,
    after: (InventoryModel, InventoryModel, InventoryModel, InventoryModel),
    events: (InventoryEvent, Seq<InventoryEvent>, Option<InventoryEvent>, InventoryEvent),
)
    requires
        before.valid(),
        cursor_set(before, cursor, after.0, events.0),
        own_slot_set(before, own, after.1, events.1),
        property_set(before, property, after.2, events.2),
        hotbar_selected(before, held, after.3, events.3),
    ensures
        after.0 == (InventoryModel { cursor: cursor.contents, ..before }),
        0 <= own.slot_id < 1024 ==> after.1.player.slots[own.slot_id as int] == own.contents,
        after.1 == (InventoryModel { player: after.1.player, ..before }),
        property.window_id == 0 && before.player.properties.len() < 1024
            ==> after.2.player.properties == before.player.properties.insert(
            property.property as int,
            property.value,
        ),
        property.window_id == 0 ==> after.2 == (InventoryModel {
            player: after.2.player,
            ..before
        }),
        0 <= held.slot <= 8 ==> after.3.selected == held.slot,
        !(0 <= held.slot <= 8) ==> after.3.selected == before.selected,
        after.3 == (InventoryModel { selected: after.3.selected, ..before }),
{
}

/// What is still waiting: a refresh of a window ends every click on it, a slot of it
/// those that were sent for an older revision, and a hundred ticks any click.
pub proof fn law_clicks_end_in_time(
    m: InventoryModel,
    i: int,
    window_id: i32,
    state_id: i32,
    tick: u64,
)
    requires
        0 <= i < m.pending.len(),
    ensures
        ({
            let t = m.pending[i];
            &&& Due::Window(window_id).covers(t) <==> t.request.window_id == window_id
            &&& (Due::Confirmed { window_id, state_id }).covers(t) <==> t.request.window_id
                == window_id && t.request.state_id < state_id && t.status
                == InventoryTransactionStatus::Sent
            &&& (Due::Expired { tick }).covers(t) <==> tick >= t.queued_tick + 100
        }),
{
}

/// Why a click on a slot that is there is refused: cloning and dragging with the middle
/// button take creative mode, the hotbar has nine slots, and a drag goes from its start
/// over slots to its end with one button.
pub proof fn law_clicks_are_refused_for_what_they_ask(
    drag: Option<DragState>,
    slot: i16,
    to: u8,
    button: DragButton,
    phase: DragPhase,
    at: Option<i16>,
    slots: usize,
    creative: bool,
)
    requires
        0 <= slot < slots,
    ensures
        ({
            let clone = click_rule(None, InventoryClick::Clone { slot }, slots, creative);
            &&& clone is Ok <==> creative
            &&& !creative ==> clone->Err_0 == InventoryError::CreativeOnly
        }),
        ({
            let swap = click_rule(
                None,
                InventoryClick::HotbarSwap { slot, destination: HotbarDestination::Slot(to) },
                slots,
                creative,
            );
            &&& swap is Ok <==> to < 9
            &&& to >= 9 ==> swap->Err_0 == (InventoryError::InvalidHotbarSlot { slot: to })
        }),
        ({
            let step = click_rule(
                drag,
                InventoryClick::QuickCraft { phase, button, slot: at },
                slots,
                creative,
            );
            let same = drag == Some(DragState { button });
            let fits = match phase {
                DragPhase::Start => at is None && drag is None,
                DragPhase::AddSlot => at is Some && 0 <= at->0 < slots && same,
                DragPhase::End => at is None && same,
            };
            let allowed = creative || button != DragButton::Middle;
            &&& step is Ok <==> allowed && fits
            &&& !allowed ==> step->Err_0 == InventoryError::CreativeOnly
            &&& allowed && !fits ==> step->Err_0 == InventoryError::InvalidDragPhase || (phase
                == DragPhase::AddSlot && at is Some && step->Err_0 == (InventoryError::InvalidSlot {
                slot: at->0,
                slot_count: slots,
            }))
        }),
{
}

} // verus!
