//! What callers see of windows and of the whole state.
use crate::minecraft::gui::{decoded, open_window_view, player_inventory_view, GuiSlotView, GuiView};
use crate::minecraft::inventory::{InventoryState, Window};
use crate::minecraft::item::{empty_slot, Slot, SlotComponent, SlotComponentData, SlotValue};
use crate::minecraft::play::PlayState;
use crate::minecraft::settings::{nbt_reason_text, reason_text};
use crate::minecraft::snapshot::StateSnapshot;
use vstd::prelude::*;

verus! {

/// The view of a slot has its place and its count; an empty one has no item, any other
/// the number of its item and its components as they are.
pub proof fn law_slot_views_show_their_item(index: usize, slot: &Slot, v: GuiSlotView)
    requires
        call_ensures(GuiSlotView::from_slot, (index, slot), v),
    ensures
        v.index == index,
        v.count == slot.item_count,
        v.empty <==> slot.value is V0,
        v.item_id is None <==> slot.value is V0,
        v.registry_name is None,
        slot.value matches SlotValue::Default(d) ==> v.item_id == Some(d.item_id) && v.components@
            == d.components@,
        slot.value is V0 ==> v.components@.len() == 0 && v.custom_name is None && v.lore is None
            && v.enchantments is None,
{
    let m = v@;
    assert(m == crate::minecraft::gui::slot_view(index as nat, *slot));
    assert(m.index == v.index && m.count == v.count && m.empty == v.empty && m.item_id == v.item_id
        && m.components == v.components@);
    assert(m.registry_name is None <==> v.registry_name is None);
    assert(m.custom_name is None <==> v.custom_name is None);
    assert(m.lore is None <==> v.lore is None);
    assert(m.enchantments is None <==> v.enchantments is None);
}

/// What is read out of an item's components: a name replaces the name, lore the lore,
/// and enchantments are added; other components say nothing.
pub proof fn law_components_are_read_in_order(components: Seq<SlotComponent>, c: SlotComponent)
    ensures
        ({
            let (before, after) = (decoded(components), decoded(components.push(c)));
            &&& c.data matches SlotComponentData::CustomName(tag) ==> after.custom_name == Some(
                reason_text(tag),
            ) && after.lore == before.lore && after.enchantments == before.enchantments
            &&& c.data matches SlotComponentData::Lore(_) ==> after.lore is Some
                && after.custom_name == before.custom_name && after.enchantments
                == before.enchantments
            &&& c.data matches SlotComponentData::Enchantments { enchantments: e, .. } ==> {
                &&& after.enchantments.len() == before.enchantments.len() + e@.len()
                &&& forall|i: int|
                    0 <= i < before.enchantments.len() ==> #[trigger] after.enchantments[i]
                        == before.enchantments[i]
                &&& forall|i: int|
                    0 <= i < e@.len() ==> after.enchantments[before.enchantments.len() + i] == (
                        (#[trigger] e@[i]).id,
                        e@[i].level,
                    )
                &&& after.custom_name == before.custom_name && after.lore == before.lore
            }
            &&& c.data matches SlotComponentData::StoredEnchantments { enchantments: e, .. }
                ==> after.enchantments.len() == before.enchantments.len() + e@.len() && forall|
                i: int,
            |
                0 <= i < e@.len() ==> after.enchantments[before.enchantments.len() + i] == (
                    (#[trigger] e@[i]).id,
                    e@[i].level,
                )
            &&& c.data is Damage || c.data is Other ==> after == before
            &&& decoded(Seq::empty()).custom_name is None
            &&& decoded(Seq::empty()).lore is None
        }),
{
    assert(components.push(c).drop_last() =~= components);
}

/// The view of a window has its numbers, its title as it came and in plain text, and
/// one view for each slot, in order.
pub proof fn law_window_views_show_every_slot(
    window: &Window,
    cursor: &Slot,
    view: GuiView,
    title: String,
    i: int,
    one: GuiSlotView,
    held: GuiSlotView,
)
    requires
        call_ensures(GuiView::from_window, (window, cursor), view),
        call_ensures(nbt_reason_text, (&window.title,), title),
        0 <= i < window.slots@.len(),
        call_ensures(GuiSlotView::from_slot, (i as usize, &window.slots@[i]), one),
        call_ensures(GuiSlotView::from_slot, (0usize, cursor), held),
    ensures
        view.window_id == window.id,
        view.menu_type == window.kind,
        view.title_raw == window.title,
        view.title_text@ == title@,
        view.state_id == window.state_id,
        view.slots_truncated == window.slots_truncated,
        view.slots@.len() == window.slots@.len(),
        view.slots@[i]@ == one@,
        view.cursor@ == held@,
        view.properties@ == window.properties.sorted(),
{
    let views = crate::minecraft::gui::slot_views(view.slots@);
    assert(views.len() == window.slots@.len());
    assert(views[i] == view.slots@[i]@);
    assert(i as usize as int == i);
}

/// What is open is seen where something is open; the player's own window always is.
pub proof fn law_open_windows_are_seen(
    inventory: &InventoryState,
    open: Option<GuiView>,
    own: GuiView,
)
    requires
        call_ensures(open_window_view, (inventory,), open),
        call_ensures(player_inventory_view, (inventory,), own),
    ensures
        open is Some <==> inventory.open_window is Some,
        open matches Some(v) ==> v.window_id == inventory.open_window->0.id && v.slots@.len()
            == inventory.open_window->0.slots@.len(),
        own.window_id == inventory.player_inventory.id,
        own.slots@.len() == inventory.player_inventory.slots@.len(),
{
    let views = crate::minecraft::gui::slot_views(own.slots@);
    assert(views.len() == own.slots@.len());
    if let Some(v) = open {
        assert(crate::minecraft::gui::slot_views(v.slots@).len() == v.slots@.len());
    }
}

/// An empty slot holds none of nothing.
pub proof fn law_empty_slots_hold_nothing(s: Slot)
    requires
        call_ensures(empty_slot, (), s),
    ensures
        s.item_count == 0,
        s.value is V0,
{
}

/// A snapshot shows every part of the state as it is, each in its place.
pub proof fn law_snapshots_show_the_state(s: &PlayState, tick: u64, view: StateSnapshot)
    requires
        call_ensures(PlayState::snapshot, (s, tick), view),
    ensures
        view.tick == tick,
        view.player == s.player,
        view.entities@ == s.entities@,
        view.inventory@ == s.inventory@,
        view.players@ == s.players@,
        view.presentation@ == s.presentation@,
        view.scoreboard@ == s.scoreboard@,
        view.hud@ == s.hud@,
        view.world_time == s.world_time,
        view.raining == s.raining,
        view.dimension == s.dimension,
{
}

} // verus!
