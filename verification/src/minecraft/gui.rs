//! A caller-friendly, read-only view of the currently open inventory/GUI
//! window, for code that wants to *read* a menu's contents.
//!
//! Slot ordering is always raw protocol ordering (for a chest-like window,
//! upper-left, left-to-right then top-to-bottom, with the player's own
//! inventory slots following later in the same window); indexes are never
//! remapped.
use crate::minecraft::inventory::{InventoryState, Window};
use crate::minecraft::item::{Enchantment, Slot, SlotComponent, SlotComponentData, SlotValue};
use crate::minecraft::nbt::Nbt;
use crate::minecraft::settings::{nbt_reason_text, reason_text};
use crate::sharing::share;
use crate::sorted_map::{association, SortedMap};
use crate::text_build::{
    append_int, debug_text, decimal, quoted, text_around, text_with, text_with_two,
};
use std::sync::Arc;
use vstd::prelude::*;

verus! {

/// One slot in a [`GuiView`], in raw zero-based protocol order.
#[derive(Debug)]
pub struct GuiSlotView {
    /// Raw zero-based index into the window's slot array, never remapped.
    pub index: usize,
    pub empty: bool,
    /// Numeric protocol item id, or `None` for an empty slot.
    pub item_id: Option<i32>,
    /// Registry name for `item_id`. Always `None`: there is no registry of
    /// item names.
    pub registry_name: Option<&'static str>,
    pub count: i32,
    /// Best-effort plain-text custom name.
    pub custom_name: Option<String>,
    /// Best-effort plain-text lore lines.
    pub lore: Option<Vec<String>>,
    /// Best-effort `(enchantment_id, level)` pairs.
    pub enchantments: Option<Vec<(i32, i32)>>,
    /// Every data component this slot carries, verbatim.
    pub components: Arc<Vec<SlotComponent>>,
}

/// What is read out of an item's components.
#[verifier::ext_equal]
pub struct Decoded {
    pub custom_name: Option<Seq<char>>,
    pub lore: Option<Seq<Seq<char>>>,
    pub enchantments: Seq<(i32, i32)>,
}

/// The lines of lore, without those that are absent.
pub open spec fn lore_lines(lines: Seq<Option<Nbt>>) -> Seq<Seq<char>>
    decreases lines.len(),
{
    if lines.len() == 0 {
        Seq::empty()
    } else {
        match lines.last() {
            Some(tag) => lore_lines(lines.drop_last()).push(reason_text(tag)),
            None => lore_lines(lines.drop_last()),
        }
    }
}

/// Enchantments as pairs.
pub open spec fn pairs(e: Seq<Enchantment>) -> Seq<(i32, i32)> {
    Seq::new(e.len(), |i: int| (e[i].id, e[i].level))
}

/// What is read out of components: the last name and the last lore, and the
/// enchantments of all of them.
pub open spec fn decoded(components: Seq<SlotComponent>) -> Decoded
    decreases components.len(),
{
    if components.len() == 0 {
        Decoded { custom_name: None, lore: None, enchantments: Seq::empty() }
    } else {
        let before = decoded(components.drop_last());
        match components.last().data {
            SlotComponentData::CustomName(tag) => Decoded {
                custom_name: Some(reason_text(tag)),
                ..before
            },
            SlotComponentData::Lore(lines) => Decoded { lore: Some(lore_lines(lines@)), ..before },
            SlotComponentData::Enchantments { enchantments, .. } => Decoded {
                enchantments: before.enchantments + pairs(enchantments@),
                ..before
            },
            SlotComponentData::StoredEnchantments { enchantments, .. } => Decoded {
                enchantments: before.enchantments + pairs(enchantments@),
                ..before
            },
            _ => before,
        }
    }
}

/// What texts say.
pub open spec fn texts(v: Seq<String>) -> Seq<Seq<char>> {
    Seq::new(v.len(), |i: int| v[i]@)
}

/// What a slot's view says.
#[verifier::ext_equal]
pub struct SlotViewModel {
    pub index: nat,
    pub empty: bool,
    pub item_id: Option<i32>,
    pub registry_name: Option<Seq<char>>,
    pub count: i32,
    pub custom_name: Option<Seq<char>>,
    pub lore: Option<Seq<Seq<char>>>,
    pub enchantments: Option<Seq<(i32, i32)>>,
    pub components: Seq<SlotComponent>,
}

impl View for GuiSlotView {
    type V = SlotViewModel;

    open spec fn view(&self) -> SlotViewModel {
        SlotViewModel {
            index: self.index as nat,
            empty: self.empty,
            item_id: self.item_id,
            registry_name: match self.registry_name {
                Some(s) => Some(s@),
                None => None,
            },
            count: self.count,
            custom_name: match self.custom_name {
                Some(s) => Some(s@),
                None => None,
            },
            lore: match self.lore {
                Some(v) => Some(texts(v@)),
                None => None,
            },
            enchantments: match self.enchantments {
                Some(v) => Some(v@),
                None => None,
            },
            components: self.components@,
        }
    }
}

/// What the view of a slot says.
pub open spec fn slot_view(index: nat, slot: Slot) -> SlotViewModel {
    match slot.value {
        SlotValue::V0 => SlotViewModel {
            index,
            empty: true,
            item_id: None,
            registry_name: None,
            count: slot.item_count,
            custom_name: None,
            lore: None,
            enchantments: None,
            components: components_of(slot),
        },
        SlotValue::Default(data) => {
            let d = decoded(data.components@);
            SlotViewModel {
                index,
                empty: false,
                item_id: Some(data.item_id),
                registry_name: None,
                count: slot.item_count,
                custom_name: d.custom_name,
                lore: d.lore,
                enchantments: if d.enchantments.len() == 0 {
                    None
                } else {
                    Some(d.enchantments)
                },
                components: components_of(slot),
            }
        },
    }
}

/// A slot's components, verbatim.
pub open spec fn components_of(slot: Slot) -> Seq<SlotComponent> {
    match slot.value {
        SlotValue::V0 => Seq::empty(),
        SlotValue::Default(data) => data.components@,
    }
}

fn lore_of(lines: &Vec<Option<Nbt>>) -> (out: Vec<String>)
    ensures
        texts(out@) == lore_lines(lines@),
{
    let mut out: Vec<String> = Vec::new();
    let mut i: usize = 0;
    assert(lines@.take(0) =~= Seq::empty());
    assert(texts(out@) =~= Seq::empty());
    while i < lines.len()
        invariant
            i <= lines@.len(),
            texts(out@) == lore_lines(lines@.take(i as int)),
        decreases lines@.len() - i,
    {
        let ghost before = out@;
        assert(lines@.take(i + 1).drop_last() =~= lines@.take(i as int));
        match &lines[i] {
            Some(tag) => {
                let line = nbt_reason_text(tag);
                let ghost text = line@;
                out.push(line);
                assert(texts(out@) =~= texts(before).push(text));
            },
            None => {},
        }
        i += 1;
    }
    assert(lines@.take(i as int) =~= lines@);
    out
}

fn append_pairs(out: &mut Vec<(i32, i32)>, e: &Vec<Enchantment>)
    ensures
        final(out)@ == old(out)@ + pairs(e@),
{
    let mut i: usize = 0;
    assert(out@ =~= old(out)@ + pairs(e@.take(0)));
    while i < e.len()
        invariant
            i <= e@.len(),
            out@ == old(out)@ + pairs(e@.take(i as int)),
        decreases e@.len() - i,
    {
        out.push((e[i].id, e[i].level));
        i += 1;
        assert(out@ =~= old(out)@ + pairs(e@.take(i as int)));
    }
    assert(e@.take(i as int) =~= e@);
}

impl GuiSlotView {
    /// The view of one slot.
    pub fn from_slot(index: usize, slot: &Slot) -> (v: Self)
        ensures
            v@ == slot_view(index as nat, *slot),
    {
        let data = match &slot.value {
            SlotValue::V0 => {
                return GuiSlotView {
                    index,
                    empty: true,
                    item_id: None,
                    registry_name: None,
                    count: slot.item_count,
                    custom_name: None,
                    lore: None,
                    enchantments: None,
                    components: Arc::new(Vec::new()),
                };
            },
            SlotValue::Default(data) => data,
        };
        let mut custom_name: Option<String> = None;
        let mut lore: Option<Vec<String>> = None;
        let mut enchantments: Vec<(i32, i32)> = Vec::new();
        let mut i: usize = 0;
        let all: &Vec<SlotComponent> = &data.components;
        assert(all@.take(0) =~= Seq::empty());
        while i < all.len()
            invariant
                i <= all@.len(),
                (match custom_name {
                    Some(s) => Some(s@),
                    None => None::<Seq<char>>,
                }) == decoded(all@.take(i as int)).custom_name,
                (match lore {
                    Some(v) => Some(texts(v@)),
                    None => None::<Seq<Seq<char>>>,
                }) == decoded(all@.take(i as int)).lore,
                enchantments@ == decoded(all@.take(i as int)).enchantments,
            decreases all@.len() - i,
        {
            assert(all@.take(i + 1).drop_last() =~= all@.take(i as int));
            match &all[i].data {
                SlotComponentData::CustomName(tag) => {
                    custom_name = Some(nbt_reason_text(tag));
                },
                SlotComponentData::Lore(lines) => {
                    lore = Some(lore_of(lines));
                },
                SlotComponentData::Enchantments { enchantments: e, .. } => {
                    append_pairs(&mut enchantments, e);
                },
                SlotComponentData::StoredEnchantments { enchantments: e, .. } => {
                    append_pairs(&mut enchantments, e);
                },
                _ => {},
            }
            i += 1;
        }
        assert(all@.take(i as int) =~= all@);
        let enchantments = if enchantments.len() == 0 {
            None
        } else {
            Some(enchantments)
        };
        GuiSlotView {
            index,
            empty: false,
            item_id: Some(data.item_id),
            registry_name: None,
            count: slot.item_count,
            custom_name,
            lore,
            enchantments,
            components: share(&data.components),
        }
    }
}

/// A caller-friendly, read-only view of one window.
#[derive(Debug)]
pub struct GuiView {
    pub window_id: i32,
    /// Raw registry id of the menu type; `0` for the player's own inventory,
    /// which has no menu-type packet of its own.
    pub menu_type: i32,
    /// The window title exactly as the server sent it.
    pub title_raw: Nbt,
    /// The window title's flattened plain text.
    pub title_text: String,
    pub state_id: i32,
    /// Every slot in the window, in raw protocol order.
    pub slots: Vec<GuiSlotView>,
    /// The item on the shared cursor, not part of this window's own slots.
    pub cursor: GuiSlotView,
    /// Container properties, by ascending vanilla property index.
    pub properties: Vec<(i16, i16)>,
    /// `true` if the server reported more slots than are kept.
    pub slots_truncated: bool,
}

/// What the views of slots say.
pub open spec fn slot_views(v: Seq<GuiSlotView>) -> Seq<SlotViewModel> {
    Seq::new(v.len(), |i: int| v[i]@)
}

/// Whether a view is that of a window and a cursor.
pub open spec fn shows(view: GuiView, window: Window, cursor: Slot) -> bool {
    &&& view.window_id == window.id
    &&& view.menu_type == window.kind
    &&& view.title_raw == window.title
    &&& view.title_text@ == reason_text(window.title)
    &&& view.state_id == window.state_id
    &&& slot_views(view.slots@) == Seq::new(
        window.slots@.len(),
        |i: int| slot_view(i as nat, window.slots@[i]),
    )
    &&& view.cursor@ == slot_view(0, cursor)
    &&& view.properties@ == window.properties.sorted()
    &&& window.properties@ == association(view.properties@)
    &&& view.slots_truncated == window.slots_truncated
}

fn list_properties(properties: &SortedMap<i16, i16>) -> (out: Vec<(i16, i16)>)
    ensures
        out@ == properties.sorted(),
        properties@ == association(out@),
{
    let n: usize = properties.len();
    let mut out: Vec<(i16, i16)> = Vec::new();
    let mut i: usize = 0;
    while i < n
        invariant
            n == properties.sorted().len(),
            i <= n,
            out@.len() == i,
            forall|k: int| 0 <= k < i ==> #[trigger] out@[k] == properties.sorted()[k],
        decreases n - i,
    {
        let (key, value) = properties.entry(i);
        out.push((*key, *value));
        i += 1;
    }
    assert(out@ =~= properties.sorted());
    out
}

impl GuiView {
    /// The view of a window and the shared cursor.
    pub fn from_window(window: &Window, cursor: &Slot) -> (view: Self)
        ensures
            shows(view, *window, *cursor),
    {
        let mut slots: Vec<GuiSlotView> = Vec::new();
        let mut i: usize = 0;
        while i < window.slots.len()
            invariant
                i <= window.slots@.len(),
                slots@.len() == i,
                forall|k: int|
                    0 <= k < i ==> (#[trigger] slots@[k])@ == slot_view(k as nat, window.slots@[k]),
            decreases window.slots@.len() - i,
        {
            slots.push(GuiSlotView::from_slot(i, &window.slots[i]));
            i += 1;
        }
        proof {
            assert(slot_views(slots@) =~= Seq::new(
                window.slots@.len(),
                |i: int| slot_view(i as nat, window.slots@[i]),
            ));
        }
        GuiView {
            window_id: window.id,
            menu_type: window.kind,
            title_raw: window.title.clone(),
            title_text: nbt_reason_text(&window.title),
            state_id: window.state_id,
            slots,
            cursor: GuiSlotView::from_slot(0, cursor),
            properties: list_properties(&window.properties),
            slots_truncated: window.slots_truncated,
        }
    }
}

/// Builds a [`GuiView`] of the currently open non-player window, or `None`
/// if no container is open right now.
pub fn open_window_view(inventory: &InventoryState) -> (view: Option<GuiView>)
    ensures
        match (view, inventory.open_window) {
            (Some(view), Some(window)) => shows(view, window, inventory.cursor),
            (None, None) => true,
            _ => false,
        },
{
    match &inventory.open_window {
        Some(window) => Some(GuiView::from_window(window, &inventory.cursor)),
        None => None,
    }
}

/// Builds a [`GuiView`] of the player's own inventory window, which is always
/// present.
pub fn player_inventory_view(inventory: &InventoryState) -> (view: GuiView)
    ensures
        shows(view, inventory.player_inventory, inventory.cursor),
{
    GuiView::from_window(&inventory.player_inventory, &inventory.cursor)
}

/// `true` or `false`.
pub open spec fn flag_text(b: bool) -> Seq<char> {
    if b {
        "true"@
    } else {
        "false"@
    }
}

/// An optional number in writing.
pub open spec fn optional_number(n: Option<i32>) -> Seq<char> {
    match n {
        Some(n) => "Some("@ + decimal(n as int) + ")"@,
        None => "None"@,
    }
}

/// An optional text in writing.
pub open spec fn optional_text(t: Option<Seq<char>>) -> Seq<char> {
    match t {
        Some(t) => "Some("@ + debug_text(t) + ")"@,
        None => "None"@,
    }
}

/// Quoted texts, separated by commas.
pub open spec fn listed_texts(v: Seq<Seq<char>>) -> Seq<char>
    decreases v.len(),
{
    if v.len() == 0 {
        Seq::empty()
    } else if v.len() == 1 {
        Seq::empty() + debug_text(v[0])
    } else {
        listed_texts(v.drop_last()) + ", "@ + debug_text(v.last())
    }
}

/// A pair in writing.
pub open spec fn pair_text(p: (i32, i32)) -> Seq<char> {
    "("@ + decimal(p.0 as int) + ", "@ + decimal(p.1 as int) + ")"@
}

/// Pairs, separated by commas.
pub open spec fn listed_pairs(v: Seq<(i32, i32)>) -> Seq<char>
    decreases v.len(),
{
    if v.len() == 0 {
        Seq::empty()
    } else if v.len() == 1 {
        Seq::empty() + pair_text(v[0])
    } else {
        listed_pairs(v.drop_last()) + ", "@ + pair_text(v.last())
    }
}

/// A property in writing.
pub open spec fn property_text(p: (i16, i16)) -> Seq<char> {
    ""@ + decimal(p.0 as int) + ": "@ + decimal(p.1 as int)
}

/// Properties, separated by commas.
pub open spec fn listed_properties(v: Seq<(i16, i16)>) -> Seq<char>
    decreases v.len(),
{
    if v.len() == 0 {
        Seq::empty()
    } else if v.len() == 1 {
        Seq::empty() + property_text(v[0])
    } else {
        listed_properties(v.drop_last()) + ", "@ + property_text(v.last())
    }
}

/// Optional lore in writing.
pub open spec fn lore_text(lore: Option<Seq<Seq<char>>>) -> Seq<char> {
    match lore {
        Some(v) => "Some(["@ + listed_texts(v) + "])"@,
        None => "None"@,
    }
}

/// Optional enchantments in writing.
pub open spec fn enchantments_text(e: Option<Seq<(i32, i32)>>) -> Seq<char> {
    match e {
        Some(v) => "Some(["@ + listed_pairs(v) + "])"@,
        None => "None"@,
    }
}

/// The line of a slot.
pub open spec fn slot_line(s: SlotViewModel) -> Seq<char> {
    "  slot="@ + decimal(s.index as int) + " empty="@ + flag_text(s.empty) + " item_id="@
        + optional_number(s.item_id) + " registry_name="@ + optional_text(s.registry_name)
        + " count="@ + decimal(s.count as int) + " custom_name="@ + optional_text(s.custom_name)
        + " lore="@ + lore_text(s.lore)
        + " enchantments="@ + enchantments_text(s.enchantments) + "\n"@
}

/// The lines of slots.
pub open spec fn slot_lines(v: Seq<SlotViewModel>) -> Seq<char>
    decreases v.len(),
{
    if v.len() == 0 {
        Seq::empty()
    } else {
        slot_lines(v.drop_last()) + slot_line(v.last())
    }
}

/// The line of a window.
pub open spec fn window_line(view: GuiView) -> Seq<char> {
    "window_id="@ + decimal(view.window_id as int) + " menu_type="@ + decimal(view.menu_type as int)
        + " title="@ + debug_text(view.title_text@) + " state_id="@ + decimal(view.state_id as int)
        + " slots="@ + decimal(view.slots@.len() as int) + " truncated="@ + flag_text(
        view.slots_truncated,
    ) + "\n"@
}

/// The line of the cursor.
pub open spec fn cursor_line(c: SlotViewModel) -> Seq<char> {
    "cursor: empty="@ + flag_text(c.empty) + " item_id="@ + optional_number(c.item_id) + " count="@
        + decimal(c.count as int) + "\n"@
}

/// The line of the properties, where there are any.
pub open spec fn properties_line(v: Seq<(i16, i16)>) -> Seq<char> {
    if v.len() == 0 {
        Seq::empty()
    } else {
        "properties: {"@ + listed_properties(v) + "}\n"@
    }
}

fn flag_name(b: bool) -> (s: &'static str)
    ensures
        s@ == flag_text(b),
{
    if b {
        "true"
    } else {
        "false"
    }
}

fn number_name(n: Option<i32>) -> (s: String)
    ensures
        s@ == optional_number(n),
{
    match n {
        Some(n) => text_with("Some(", n as i128, ")"),
        None => "None".to_owned(),
    }
}

fn text_name(t: &Option<String>) -> (s: String)
    ensures
        s@ == optional_text(match *t {
            Some(t) => Some(t@),
            None => None,
        }),
{
    match t {
        Some(t) => text_around("Some(", quoted(t.as_str()).as_str(), ")"),
        None => "None".to_owned(),
    }
}

fn lore_name(lore: &Option<Vec<String>>) -> (s: String)
    ensures
        s@ == lore_text(match *lore {
            Some(v) => Some(texts(v@)),
            None => None,
        }),
{
    match lore {
        None => "None".to_owned(),
        Some(v) => {
            let mut list = String::new();
            let ghost all = texts(v@);
            let mut i: usize = 0;
            assert(all.take(0) =~= Seq::empty());
            while i < v.len()
                invariant
                    i <= v@.len(),
                    all == texts(v@),
                    list@ == listed_texts(all.take(i as int)),
                decreases v@.len() - i,
            {
                proof {
                    assert(all.take(i + 1).drop_last() =~= all.take(i as int));
                    assert(all.take(i + 1).last() == v@[i as int]@);
                }
                if i > 0 {
                    list.append(", ");
                }
                list.append(quoted(v[i].as_str()).as_str());
                i += 1;
            }
            assert(all.take(i as int) =~= all);
            text_around("Some([", list.as_str(), "])")
        },
    }
}

fn enchantments_name(e: &Option<Vec<(i32, i32)>>) -> (s: String)
    ensures
        s@ == enchantments_text(match *e {
            Some(v) => Some(v@),
            None => None,
        }),
{
    match e {
        None => "None".to_owned(),
        Some(v) => {
            let mut list = String::new();
            let mut i: usize = 0;
            assert(v@.take(0) =~= Seq::empty());
            while i < v.len()
                invariant
                    i <= v@.len(),
                    list@ == listed_pairs(v@.take(i as int)),
                decreases v@.len() - i,
            {
                proof {
                    assert(v@.take(i + 1).drop_last() =~= v@.take(i as int));
                    assert(v@.take(i + 1).last() == v@[i as int]);
                }
                if i > 0 {
                    list.append(", ");
                }
                let (id, level) = v[i];
                let pair = text_with_two(
                    "(",
                    id as i128,
                    ", ",
                    level as i128,
                    ")",
                );
                list.append(pair.as_str());
                i += 1;
            }
            assert(v@.take(i as int) =~= v@);
            text_around("Some([", list.as_str(), "])")
        },
    }
}

fn properties_name(v: &Vec<(i16, i16)>) -> (list: String)
    ensures
        list@ == listed_properties(v@),
{
    let mut list = String::new();
    let mut i: usize = 0;
    assert(v@.take(0) =~= Seq::empty());
    while i < v.len()
        invariant
            i <= v@.len(),
            list@ == listed_properties(v@.take(i as int)),
        decreases v@.len() - i,
    {
        proof {
            assert(v@.take(i + 1).drop_last() =~= v@.take(i as int));
            assert(v@.take(i + 1).last() == v@[i as int]);
        }
        if i > 0 {
            list.append(", ");
        }
        let (key, value) = v[i];
        let mut pair = text_with("", key as i128, ": ");
        append_int(&mut pair, value as i128);
        list.append(pair.as_str());
        i += 1;
    }
    assert(v@.take(i as int) =~= v@);
    list
}

fn line_of_slot(slot: &GuiSlotView) -> (line: String)
    ensures
        line@ == slot_line(slot@),
{
    let mut line = text_with("  slot=", slot.index as i128, " empty=");
    line.append(flag_name(slot.empty));
    line.append(" item_id=");
    line.append(number_name(slot.item_id).as_str());
    line.append(" registry_name=");
    match slot.registry_name {
        Some(name) => line.append(text_around("Some(", quoted(name).as_str(), ")").as_str()),
        None => line.append("None"),
    }
    line.append(" count=");
    append_int(&mut line, slot.count as i128);
    line.append(" custom_name=");
    line.append(text_name(&slot.custom_name).as_str());
    line.append(" lore=");
    line.append(lore_name(&slot.lore).as_str());
    line.append(" enchantments=");
    line.append(enchantments_name(&slot.enchantments).as_str());
    line.append("\n");
    line
}

fn line_of_window(view: &GuiView) -> (line: String)
    ensures
        line@ == window_line(*view),
{
    let mut line = text_with_two(
        "window_id=",
        view.window_id as i128,
        " menu_type=",
        view.menu_type as i128,
        " title=",
    );
    line.append(quoted(view.title_text.as_str()).as_str());
    line.append(" state_id=");
    append_int(&mut line, view.state_id as i128);
    line.append(" slots=");
    append_int(&mut line, view.slots.len() as i128);
    line.append(" truncated=");
    line.append(flag_name(view.slots_truncated));
    line.append("\n");
    line
}

impl GuiView {
    /// A human-readable multi-line dump: one summary line, then one line per
    /// slot, then the cursor and any properties. Intended for interactive
    /// inspection, not machine parsing.
    pub fn dump_text(&self) -> (out: String)
        ensures
            out@ == window_line(*self) + slot_lines(slot_views(self.slots@)) + cursor_line(
                self.cursor@,
            ) + properties_line(self.properties@),
    {
        let mut out = line_of_window(self);
        let ghost head = out@;
        let ghost all = slot_views(self.slots@);
        let mut i: usize = 0;
        proof {
            assert(all.take(0) =~= Seq::empty());
            assert(out@ =~= head + slot_lines(all.take(0)));
        }
        while i < self.slots.len()
            invariant
                i <= self.slots@.len(),
                all == slot_views(self.slots@),
                out@ == head + slot_lines(all.take(i as int)),
            decreases self.slots@.len() - i,
        {
            let line = line_of_slot(&self.slots[i]);
            out.append(line.as_str());
            i += 1;
            proof {
                assert(all.take(i as int).drop_last() =~= all.take(i - 1));
                assert(all.take(i as int).last() == self.slots@[i - 1]@);
                assert(out@ =~= head + slot_lines(all.take(i as int)));
            }
        }
        assert(all.take(i as int) =~= all);
        let mut cursor: String = "cursor: empty=".to_owned();
        cursor.append(flag_name(self.cursor.empty));
        cursor.append(" item_id=");
        cursor.append(number_name(self.cursor.item_id).as_str());
        cursor.append(" count=");
        append_int(&mut cursor, self.cursor.count as i128);
        cursor.append("\n");
        out.append(cursor.as_str());
        let ghost so_far = out@;
        if self.properties.len() > 0 {
            let line = text_around(
                "properties: {",
                properties_name(&self.properties).as_str(),
                "}\n",
            );
            out.append(line.as_str());
        } else {
            assert(so_far + properties_line(self.properties@) =~= so_far);
        }
        out
    }
}

} // verus!
