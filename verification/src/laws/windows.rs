//! Windows through their operations.
use crate::minecraft::inventory::{
    InventoryEvent, InventoryModel, InventoryState, PacketCloseWindow, PacketCraftProgressBar,
    PacketOpenWindow, PacketSetCursorItem, PacketSetPlayerInventory, PacketSetSlot,
    PacketWindowItems, Window,
};
use vstd::prelude::*;

verus! {

/// A window that opens is empty, with its number, kind and title, in place of the one
/// that was open, which closes first. Closing goes by the number.
pub proof fn law_windows_open_empty_and_close(
    a: &mut InventoryState,
    b: &mut InventoryState,
    open: &PacketOpenWindow,
    close: &PacketCloseWindow,
    opened: Vec<InventoryEvent>,
    closed: Vec<InventoryEvent>,
)
    requires
        call_ensures(InventoryState::open_window, (a, open), opened),
        call_ensures(InventoryState::close_window, (b, close), closed),
    ensures
        final(a)@.open matches Some(w) && w.id == open.window_id && w.kind == open.inventory_type
            && w.title == open.window_title && w.slots.len() == 0 && w.state_id == 0,
        final(a)@.drag is None,
        final(a)@.player == old(a)@.player && final(a)@.cursor == old(a)@.cursor
            && final(a)@.selected == old(a)@.selected,
        opened@.len() > 0,
        opened@.last() == (InventoryEvent::WindowOpened { window_id: open.window_id }),
        old(a)@.open matches Some(w) ==> opened@[0] == (InventoryEvent::WindowClosed {
            window_id: w.id,
        }),
        old(b)@.open matches Some(w) ==> w.id == close.window_id ==> final(b)@.open is None
            && final(b)@.drag is None && closed@.len() > 0 && closed@[0] == (
        InventoryEvent::WindowClosed { window_id: close.window_id }),
        old(b)@.open is None || old(b)@.open->0.id != close.window_id ==> final(b)@ == old(b)@
            && closed@.len() == 0,
        final(b)@.player == old(b)@.player && final(b)@.cursor == old(b)@.cursor,
{
}

/// All contents of a window are taken over in order, with its revision and the item on
/// the cursor; other windows stay.
pub proof fn law_contents_are_taken_over(
    s: &mut InventoryState,
    p: &PacketWindowItems,
    events: Vec<InventoryEvent>,
    i: int,
)
    requires
        call_ensures(InventoryState::window_items, (s, p), events),
        p.items@.len() <= 1024,
    ensures
        final(s)@.cursor == p.carried_item,
        p.window_id == 0 ==> final(s)@.player.slots == p.items@ && final(s)@.player.state_id
            == p.state_id && !final(s)@.player.slots_truncated && final(s)@.open == old(s)@.open,
        p.window_id != 0 ==> final(s)@.player == old(s)@.player,
        old(s)@.open matches Some(w) ==> p.window_id != 0 && w.id == p.window_id ==> (
        final(s)@.open matches Some(v) && v.slots == p.items@ && v.state_id == p.state_id && v.id
            == p.window_id && v.title == old(s)@.open->0.title),
        old(s)@.open matches Some(w) ==> p.window_id != 0 && w.id != p.window_id ==> final(s)@.open
            == old(s)@.open,
        events@.len() > 0 && events@[0] == InventoryEvent::CursorUpdated,
        final(s)@.selected == old(s)@.selected && final(s)@.drag == old(s)@.drag,
{
}

/// One slot is taken over: in the window that has the number, or on the cursor for
/// minus one. The others of the window stay.
pub proof fn law_one_slot_is_taken_over(
    s: &mut InventoryState,
    p: &PacketSetSlot,
    events: Vec<InventoryEvent>,
    i: int,
)
    requires
        old(s)@.valid(),
        call_ensures(InventoryState::set_slot, (s, p), events),
    ensures
        p.window_id == -1 ==> final(s)@ == (InventoryModel { cursor: p.item, ..old(s)@ }),
        p.window_id != -1 ==> final(s)@.cursor == old(s)@.cursor,
        p.window_id == 0 && 0 <= p.slot < 1024 ==> final(s)@.player.slots[p.slot as int] == p.item
            && final(s)@.player.state_id == p.state_id && final(s)@.open == old(s)@.open,
        p.window_id == 0 && 0 <= i < old(s)@.player.slots.len() && i != p.slot
            ==> final(s)@.player.slots[i] == old(s)@.player.slots[i],
        p.window_id != 0 ==> final(s)@.player == old(s)@.player,
        old(s)@.open matches Some(w) ==> p.window_id > 0 && w.id == p.window_id && 0 <= p.slot
            < 1024 ==> (final(s)@.open matches Some(v) && v.slots[p.slot as int] == p.item
            && v.state_id == p.state_id),
        0 <= p.slot < 1024 && p.window_id == 0 ==> events@.len() > 0 && events@[0] == (
        InventoryEvent::SlotUpdated {
            window_id: 0,
            state_id: p.state_id,
            slot: p.slot,
        }),
{
}

/// The cursor, a slot of the player and a property take the value sent, and nothing
/// else changes.
pub proof fn law_small_parts_take_their_value(
    a: &mut InventoryState,
    b: &mut InventoryState,
    c: &mut InventoryState,
    cursor: &PacketSetCursorItem,
    own: &PacketSetPlayerInventory,
    property: &PacketCraftProgressBar,
    ae: InventoryEvent,
    be: Vec<InventoryEvent>,
    ce: Option<InventoryEvent>,
)
    requires
        old(b)@.valid(),
        call_ensures(InventoryState::set_cursor_item, (a, cursor), ae),
        call_ensures(InventoryState::set_player_inventory, (b, own), be),
        call_ensures(InventoryState::craft_progress_bar, (c, property), ce),
    ensures
        final(a)@ == (InventoryModel { cursor: cursor.contents, ..old(a)@ }),
        ae is CursorUpdated,
        0 <= own.slot_id < 1024 ==> final(b)@.player.slots[own.slot_id as int] == own.contents,
        final(b)@ == (InventoryModel { player: final(b)@.player, ..old(b)@ }),
        final(b)@.player.state_id == old(b)@.player.state_id,
        ce matches Some(e) ==> e == (InventoryEvent::PropertyUpdated {
            window_id: property.window_id,
            property: property.property,
        }),
        ce is Some && property.window_id == 0 ==> final(c)@.player.properties == old(
            c,
        )@.player.properties.insert(property.property as int, property.value),
        ce is Some && property.window_id != 0 ==> (final(c)@.open matches Some(w) && w.properties
            == old(c)@.open->0.properties.insert(property.property as int, property.value)),
        ce is None ==> final(c)@ == old(c)@,
        final(c)@.cursor == old(c)@.cursor,
{
}

/// The window of a number is the player's own for nought, and the open one where it has
/// the number.
pub proof fn law_windows_are_looked_up(s: &InventoryState, id: i32, w: Option<&Window>)
    requires
        call_ensures(InventoryState::window, (s, id), w),
    ensures
        id == 0 ==> (w matches Some(x) && x@ == s.player_inventory@),
        id != 0 ==> (w is Some <==> s.open_window is Some && s.open_window->0.id == id),
        w matches Some(x) ==> id != 0 ==> x@ == s.open_window->0@,
{
}

} // verus!
