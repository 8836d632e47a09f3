//! Inventory/container ("GUI") state: the player's own inventory, at most one
//! currently open non-player container, and the item on the cursor.
//!
//! Clientbound packets remain authoritative: outbound clicks are recorded as
//! bounded transactions but never mutate slots optimistically. A later
//! `set_slot`/`window_items` update confirms or corrects them.
use std::collections::VecDeque;
use std::sync::Arc;
use vstd::prelude::*;

use crate::minecraft::item::{no_item, Slot};
use crate::minecraft::nbt::Nbt;
use crate::sorted_map::SortedMap;
use crate::text_build::{decimal, text_with, text_with_two};

pub use crate::minecraft::item::empty_slot;

verus! {

/// The player's own inventory window id: always open, never closed by the
/// server, and absent from `open_window`/`close_window` traffic.
pub const PLAYER_INVENTORY_WINDOW_ID: i32 = 0;

pub const MAX_WINDOW_SLOTS: usize = 1_024;

pub const MAX_WINDOW_PROPERTIES: usize = 1_024;

pub const MAX_PENDING_TRANSACTIONS: usize = 64;

pub const MAX_COMPLETED_TRANSACTIONS: usize = 128;

pub const TRANSACTION_TIMEOUT_TICKS: u64 = 100;

pub const OUTSIDE_SLOT: i16 = -999;

#[derive(Debug, Clone, Copy, PartialEq, Eq, Structural)]
pub enum MouseButton {
    Left,
    Right,
}

#[derive(Debug, Clone, Copy, PartialEq, Eq)]
pub enum HotbarDestination {
    Slot(u8),
    Offhand,
}

#[derive(Debug, Clone, Copy, PartialEq, Eq, Structural)]
pub enum DragButton {
    Left,
    Right,
    Middle,
}

#[derive(Debug, Clone, Copy, PartialEq, Eq, Structural)]
pub enum DragPhase {
    Start,
    AddSlot,
    End,
}

/// Typed container click modes. Slot-bearing variants use the current window's
/// zero-based slot index; only a `Pickup` without a slot addresses the special
/// outside slot.
#[derive(Debug, Clone, Copy, PartialEq, Eq)]
pub enum InventoryClick {
    Pickup { slot: Option<i16>, button: MouseButton },
    QuickMove { slot: i16 },
    HotbarSwap { slot: i16, destination: HotbarDestination },
    Clone { slot: i16 },
    Throw { slot: i16, whole_stack: bool },
    QuickCraft { phase: DragPhase, button: DragButton, slot: Option<i16> },
    PickupAll { slot: i16 },
}

#[derive(Debug, Clone, Copy, PartialEq, Eq)]
pub struct InventoryClickRequest {
    pub transaction_id: u64,
    pub generation: u64,
    pub window_id: i32,
    pub state_id: i32,
    pub click: InventoryClick,
}

#[derive(Debug, Clone, Copy, PartialEq, Eq)]
pub enum InventoryError {
    UnknownWindow { window_id: i32 },
    StaleState { requested: i32, current: i32 },
    InvalidSlot { slot: i16, slot_count: usize },
    InvalidHotbarSlot { slot: u8 },
    CreativeOnly,
    InvalidDragPhase,
    DragInProgress,
    DuplicateTransaction { transaction_id: u64 },
    QueueFull,
}

impl InventoryError {
    /// What the error says.
    pub open spec fn text(self) -> Seq<char> {
        match self {
            InventoryError::UnknownWindow { window_id } => "window "@ + decimal(window_id as int)
                + " is not open"@,
            InventoryError::StaleState { requested, current } =>
                "window state is stale: requested "@ + decimal(requested as int) + ", current "@
                    + decimal(current as int) + ""@,
            InventoryError::InvalidSlot { slot, slot_count } => "slot "@ + decimal(slot as int)
                + " is outside the current window's "@ + decimal(slot_count as int) + " slots"@,
            InventoryError::InvalidHotbarSlot { slot } => "hotbar destination "@ + decimal(
                slot as int,
            ) + " is outside 0..=8"@,
            InventoryError::CreativeOnly => "middle-click clone and drag require creative mode"@,
            InventoryError::InvalidDragPhase =>
                "drag phase does not match the current drag lifecycle"@,
            InventoryError::DragInProgress => "another drag lifecycle is already active"@,
            InventoryError::DuplicateTransaction { transaction_id } => "inventory transaction id "@
                + decimal(transaction_id as int) + " already exists"@,
            InventoryError::QueueFull => "the bounded inventory transaction queue is full"@,
        }
    }

    /// The text to show for the error.
    pub fn message(&self) -> (s: String)
        ensures
            s@ == self.text(),
    {
        match self {
            InventoryError::UnknownWindow { window_id } => text_with(
                "window ",
                *window_id as i128,
                " is not open",
            ),
            InventoryError::StaleState { requested, current } => text_with_two(
                "window state is stale: requested ",
                *requested as i128,
                ", current ",
                *current as i128,
                "",
            ),
            InventoryError::InvalidSlot { slot, slot_count } => text_with_two(
                "slot ",
                *slot as i128,
                " is outside the current window's ",
                *slot_count as i128,
                " slots",
            ),
            InventoryError::InvalidHotbarSlot { slot } => text_with(
                "hotbar destination ",
                *slot as i128,
                " is outside 0..=8",
            ),
            InventoryError::CreativeOnly =>
                "middle-click clone and drag require creative mode".to_owned(),
            InventoryError::InvalidDragPhase =>
                "drag phase does not match the current drag lifecycle".to_owned(),
            InventoryError::DragInProgress => "another drag lifecycle is already active".to_owned(),
            InventoryError::DuplicateTransaction { transaction_id } => text_with(
                "inventory transaction id ",
                *transaction_id as i128,
                " already exists",
            ),
            InventoryError::QueueFull =>
                "the bounded inventory transaction queue is full".to_owned(),
        }
    }
}

#[derive(Debug, Clone, Copy, PartialEq, Eq, Structural)]
pub enum InventoryTransactionStatus {
    Queued,
    Sent,
}

#[derive(Debug, Clone, Copy, PartialEq, Eq)]
pub struct InventoryTransaction {
    pub request: InventoryClickRequest,
    pub status: InventoryTransactionStatus,
    pub queued_tick: u64,
}

#[derive(Debug, Clone, Copy, PartialEq, Eq)]
pub enum InventoryOutcome {
    /// A phase that has no server confirmation of its own was sent.
    Sent,
    /// A newer incremental authoritative state update followed the click.
    Confirmed { state_id: i32 },
    /// A full authoritative window resynchronization followed the click.
    Corrected { state_id: i32 },
    TimedOut,
    WindowClosed,
    Rejected(InventoryError),
}

#[derive(Debug, Clone, Copy, PartialEq, Eq)]
pub enum InventoryEvent {
    WindowOpened { window_id: i32 },
    WindowClosed { window_id: i32 },
    WindowSynchronized { window_id: i32, state_id: i32 },
    SlotUpdated { window_id: i32, state_id: i32, slot: i16 },
    CursorUpdated,
    PropertyUpdated { window_id: i32, property: i16 },
    SelectedHotbarChanged { slot: i32, applied: bool },
    TransactionQueued { transaction_id: u64 },
    TransactionSent { transaction_id: u64 },
    TransactionFinished { transaction_id: u64, outcome: InventoryOutcome },
    TransactionRejected { transaction_id: u64, error: InventoryError },
}

#[derive(Debug, Clone, Copy, PartialEq, Eq)]
pub struct DragState {
    pub button: DragButton,
}

/// Server opened a container window.
pub struct PacketOpenWindow {
    pub window_id: i32,
    pub inventory_type: i32,
    pub window_title: Nbt,
}

/// Server closed a container window.
pub struct PacketCloseWindow {
    pub window_id: i32,
}

/// Full slot refresh of a window.
pub struct PacketWindowItems {
    pub window_id: i32,
    pub state_id: i32,
    pub items: Vec<Slot>,
    pub carried_item: Slot,
}

/// Update of one slot of a window.
pub struct PacketSetSlot {
    pub window_id: i32,
    pub state_id: i32,
    pub slot: i16,
    pub item: Slot,
}

/// Update of the cursor item.
pub struct PacketSetCursorItem {
    pub contents: Slot,
}

/// Direct update of one slot of the player inventory.
pub struct PacketSetPlayerInventory {
    pub slot_id: i32,
    pub contents: Slot,
}

/// Update of a container property.
pub struct PacketCraftProgressBar {
    pub window_id: i32,
    pub property: i16,
    pub value: i16,
}

/// Server selected a hotbar slot.
pub struct PacketHeldItemSlot {
    pub slot: i32,
}

/// A click, as it goes to the server.
pub struct PacketWindowClick {
    pub window_id: i32,
    pub state_id: i32,
    pub slot: i16,
    pub mouse_button: i8,
    pub mode: i32,
    pub changed_slots: Vec<(i16, Slot)>,
    pub cursor_item: Slot,
}

/// A click that was accepted: the packet to send and the event to report.
pub struct PreparedClick {
    pub packet: PacketWindowClick,
    pub event: InventoryEvent,
}

/// One open inventory/container window: the player's own inventory (id
/// [`PLAYER_INVENTORY_WINDOW_ID`], always present) or a server-opened menu
/// (chest, furnace, crafting table, anvil, ...).
pub struct Window {
    pub id: i32,
    /// Registry id of the menu type; meaningless (0) for the player's own
    /// inventory, which has no menu-type packet of its own.
    pub kind: i32,
    pub title: Nbt,
    /// Server's per-window revision counter. Interactions must echo the
    /// latest value to avoid desync.
    pub state_id: i32,
    pub slots: Vec<Slot>,
    pub slots_truncated: bool,
    /// Container properties (furnace burn/cook progress, enchanting-table
    /// levels and costs, ...), keyed by the vanilla property index.
    pub properties: SortedMap<i16, i16>,
}

/// What a window holds.
#[verifier::ext_equal]
pub struct WindowModel {
    pub id: i32,
    pub kind: i32,
    pub title: Nbt,
    pub state_id: i32,
    pub slots: Seq<Slot>,
    pub slots_truncated: bool,
    pub properties: Map<int, i16>,
}

impl View for Window {
    type V = WindowModel;

    open spec fn view(&self) -> WindowModel {
        WindowModel {
            id: self.id,
            kind: self.kind,
            title: self.title,
            state_id: self.state_id,
            slots: self.slots@,
            slots_truncated: self.slots_truncated,
            properties: self.properties@,
        }
    }
}

impl WindowModel {
    /// The window keeps within its bounds.
    pub open spec fn bounded(self) -> bool {
        &&& self.slots.len() <= MAX_WINDOW_SLOTS
        &&& self.properties.dom().finite()
        &&& self.properties.len() <= MAX_WINDOW_PROPERTIES
    }

    /// A window nothing is known of yet.
    pub open spec fn fresh(id: i32, kind: i32, title: Nbt) -> WindowModel {
        WindowModel {
            id,
            kind,
            title,
            state_id: 0,
            slots: Seq::empty(),
            slots_truncated: false,
            properties: Map::empty(),
        }
    }

    /// Whether a slot index can be stored.
    pub open spec fn accepts(index: i16) -> bool {
        0 <= index < MAX_WINDOW_SLOTS
    }

    /// One slot set, the list growing with empty slots where the index lies
    /// past its end.
    pub open spec fn with_slot(self, index: i16, item: Slot) -> WindowModel {
        if !Self::accepts(index) {
            self
        } else {
            let grown = if index < self.slots.len() {
                self.slots
            } else {
                self.slots + Seq::new((index + 1 - self.slots.len()) as nat, |i: int| no_item())
            };
            WindowModel { slots: grown.update(index as int, item), ..self }
        }
    }

    /// A full refresh, cut to the bound.
    pub open spec fn refreshed(self, items: Seq<Slot>, state_id: i32) -> WindowModel {
        WindowModel {
            slots: if items.len() > MAX_WINDOW_SLOTS {
                items.take(MAX_WINDOW_SLOTS as int)
            } else {
                items
            },
            slots_truncated: items.len() > MAX_WINDOW_SLOTS,
            state_id,
            ..self
        }
    }

    /// Whether a property can be stored.
    pub open spec fn takes_property(self, property: i16) -> bool {
        self.properties.contains_key(property as int) || self.properties.len()
            < MAX_WINDOW_PROPERTIES
    }

    /// One property set.
    pub open spec fn with_property(self, property: i16, value: i16) -> WindowModel {
        WindowModel { properties: self.properties.insert(property as int, value), ..self }
    }
}

impl Window {
    /// The player's own inventory before anything is known of it.
    pub fn player_inventory() -> (w: Self)
        ensures
            w.id == PLAYER_INVENTORY_WINDOW_ID,
            w.kind == 0,
            w.title matches Nbt::Compound(entries) && entries@.len() == 0,
            w@ == WindowModel::fresh(w.id, 0, w.title),
    {
        Window {
            id: PLAYER_INVENTORY_WINDOW_ID,
            kind: 0,
            title: Nbt::Compound(Arc::new(Vec::new())),
            state_id: 0,
            slots: Vec::new(),
            slots_truncated: false,
            properties: SortedMap::new(),
        }
    }

    /// The window that the server has just opened.
    fn from_open(p: &PacketOpenWindow) -> (w: Self)
        ensures
            w@ == WindowModel::fresh(p.window_id, p.inventory_type, p.window_title),
    {
        Window {
            id: p.window_id,
            kind: p.inventory_type,
            title: p.window_title.clone(),
            state_id: 0,
            slots: Vec::new(),
            slots_truncated: false,
            properties: SortedMap::new(),
        }
    }

    /// Applies one `set_slot` index update, growing the slot list with empty
    /// slots if the index arrives before a full `window_items` snapshot.
    fn set_slot(&mut self, index: i16, item: Slot) -> (applied: bool)
        ensures
            applied == WindowModel::accepts(index),
            final(self)@ == old(self)@.with_slot(index, item),
    {
        if index < 0 || index as usize >= MAX_WINDOW_SLOTS {
            return false;
        }
        let at: usize = index as usize;
        let ghost start = self.slots@;
        while self.slots.len() <= at
            invariant
                at < MAX_WINDOW_SLOTS,
                start.len() <= self.slots@.len(),
                start.len() <= at ==> self.slots@.len() <= at + 1,
                start.len() > at ==> self.slots@.len() == start.len(),
                self.slots@ =~= start + Seq::new(
                    (self.slots@.len() - start.len()) as nat,
                    |i: int| no_item(),
                ),
                self@ == (WindowModel { slots: self.slots@, ..old(self)@ }),
            decreases at + 1 - self.slots@.len(),
        {
            self.slots.push(empty_slot());
        }
        self.slots.set(at, item);
        assert(self@ =~= old(self)@.with_slot(index, item));
        true
    }

    /// Replaces every slot.
    fn refresh(&mut self, items: &Vec<Slot>, state_id: i32)
        ensures
            final(self)@ == old(self)@.refreshed(items@, state_id),
    {
        let mut slots: Vec<Slot> = Vec::new();
        let count: usize = if items.len() > MAX_WINDOW_SLOTS {
            MAX_WINDOW_SLOTS
        } else {
            items.len()
        };
        let mut i: usize = 0;
        while i < count
            invariant
                i <= count <= items@.len(),
                slots@ =~= items@.take(i as int),
            decreases count - i,
        {
            slots.push(items[i].clone());
            i += 1;
        }
        self.slots_truncated = items.len() > MAX_WINDOW_SLOTS;
        self.slots = slots;
        self.state_id = state_id;
        assert(items@.take(items@.len() as int) =~= items@);
        assert(self@ =~= old(self)@.refreshed(items@, state_id));
    }
}

/// Aggregate inventory/GUI state: the player's own inventory, at most one
/// open container, and the single shared cursor item.
pub struct InventoryState {
    pub player_inventory: Window,
    /// The currently open non-player container, if any. Opening a new window
    /// implicitly replaces whatever was open, exactly as vanilla does.
    pub open_window: Option<Window>,
    /// The item currently held on the cursor (drag-and-drop), shared across
    /// every window.
    pub cursor: Slot,
    /// The hotbar slot (0-8) the server reports as selected.
    pub selected_hotbar_slot: i32,
    /// Bounded in-flight click transactions, in submission order.
    pub pending_transactions: VecDeque<InventoryTransaction>,
    /// Bounded terminal outcomes retained so lagged event consumers can
    /// recover from a fresh snapshot.
    pub completed_transactions: SortedMap<u64, InventoryOutcome>,
    pub drag: Option<DragState>,
}

/// What the inventory state holds.
#[verifier::ext_equal]
pub struct InventoryModel {
    pub player: WindowModel,
    pub open: Option<WindowModel>,
    pub cursor: Slot,
    pub selected: i32,
    pub pending: Seq<InventoryTransaction>,
    pub completed: Map<int, InventoryOutcome>,
    pub drag: Option<DragState>,
}

impl View for InventoryState {
    type V = InventoryModel;

    open spec fn view(&self) -> InventoryModel {
        InventoryModel {
            player: self.player_inventory@,
            open: match self.open_window {
                Some(w) => Some(w@),
                None => None,
            },
            cursor: self.cursor,
            selected: self.selected_hotbar_slot,
            pending: self.pending_transactions@,
            completed: self.completed_transactions@,
            drag: self.drag,
        }
    }
}

/// Which pending transactions an occasion finishes.
#[derive(Clone, Copy)]
pub enum Due {
    /// The one with this id.
    Id(u64),
    /// Those on this window.
    Window(i32),
    /// Those sent on this window before this revision.
    Confirmed { window_id: i32, state_id: i32 },
    /// Those queued too long before this tick.
    Expired { tick: u64 },
}

impl Due {
    /// Whether the transaction is finished.
    pub open spec fn covers(self, t: InventoryTransaction) -> bool {
        match self {
            Due::Id(id) => t.request.transaction_id == id,
            Due::Window(window_id) => t.request.window_id == window_id,
            Due::Confirmed { window_id, state_id } => t.status == InventoryTransactionStatus::Sent
                && t.request.window_id == window_id && state_id > t.request.state_id,
            Due::Expired { tick } => tick - t.queued_tick >= TRANSACTION_TIMEOUT_TICKS,
        }
    }

    fn check(self, t: &InventoryTransaction) -> (b: bool)
        ensures
            b == self.covers(*t),
    {
        match self {
            Due::Id(id) => t.request.transaction_id == id,
            Due::Window(window_id) => t.request.window_id == window_id,
            Due::Confirmed { window_id, state_id } => t.status == InventoryTransactionStatus::Sent
                && t.request.window_id == window_id && state_id > t.request.state_id,
            Due::Expired { tick } => tick >= t.queued_tick && tick - t.queued_tick
                >= TRANSACTION_TIMEOUT_TICKS,
        }
    }
}

/// The smallest id that has an outcome.
pub open spec fn least_id(completed: Map<int, InventoryOutcome>) -> int {
    choose|k: int| #[trigger]
        completed.contains_key(k) && forall|j: int| #[trigger] completed.contains_key(j) ==> k <= j
}

/// One outcome recorded; where the history is full, the smallest id makes room.
pub open spec fn recorded(
    completed: Map<int, InventoryOutcome>,
    id: u64,
    outcome: InventoryOutcome,
) -> Map<int, InventoryOutcome> {
    if !completed.contains_key(id as int) && completed.len() >= MAX_COMPLETED_TRANSACTIONS {
        completed.remove(least_id(completed)).insert(id as int, outcome)
    } else {
        completed.insert(id as int, outcome)
    }
}

/// The outcome recorded for each of the transactions, in order.
pub open spec fn all_recorded(
    completed: Map<int, InventoryOutcome>,
    done: Seq<InventoryTransaction>,
    outcome: InventoryOutcome,
) -> Map<int, InventoryOutcome>
    decreases done.len(),
{
    if done.len() == 0 {
        completed
    } else {
        recorded(
            all_recorded(completed, done.drop_last(), outcome),
            done.last().request.transaction_id,
            outcome,
        )
    }
}

/// The pending transactions that an occasion finishes, in order.
pub open spec fn finished(pending: Seq<InventoryTransaction>, due: Due) -> Seq<
    InventoryTransaction,
> {
    pending.filter(|t: InventoryTransaction| due.covers(t))
}

/// The pending transactions that an occasion leaves, in order.
pub open spec fn left(pending: Seq<InventoryTransaction>, due: Due) -> Seq<InventoryTransaction> {
    pending.filter(|t: InventoryTransaction| !due.covers(t))
}

/// One `TransactionFinished` for each transaction.
pub open spec fn finish_events(
    done: Seq<InventoryTransaction>,
    outcome: InventoryOutcome,
) -> Seq<InventoryEvent> {
    done.map_values(
        |t: InventoryTransaction|
            InventoryEvent::TransactionFinished {
                transaction_id: t.request.transaction_id,
                outcome,
            },
    )
}

/// What a click is on the wire: slot, button and mode.
pub type WireClick = (i16, i8, i32);

/// Whether the slot index lies in the window.
pub open spec fn slot_exists(slot: i16, slot_count: usize) -> bool {
    0 <= slot < slot_count
}

/// The wire number of a drag button in a phase.
pub open spec fn drag_code(button: DragButton, phase: DragPhase) -> i8 {
    let base: int = match button {
        DragButton::Left => 0,
        DragButton::Right => 4,
        DragButton::Middle => 8,
    };
    let step: int = match phase {
        DragPhase::Start => 0,
        DragPhase::AddSlot => 1,
        DragPhase::End => 2,
    };
    (base + step) as i8
}

/// A click that needs an existing slot.
pub open spec fn on_slot(slot: i16, slot_count: usize, wire: WireClick) -> Result<
    WireClick,
    InventoryError,
> {
    if slot_exists(slot, slot_count) {
        Ok(wire)
    } else {
        Err(InventoryError::InvalidSlot { slot, slot_count })
    }
}

/// What a click comes to: its wire form and the drag that is under way after
/// it, or why it is refused.
pub open spec fn click_rule(
    drag: Option<DragState>,
    click: InventoryClick,
    slot_count: usize,
    creative_mode: bool,
) -> Result<(WireClick, Option<DragState>), InventoryError> {
    let plain = |r: Result<WireClick, InventoryError>|
        match r {
            Ok(wire) => Ok((wire, drag)),
            Err(e) => Err(e),
        };
    match click {
        InventoryClick::QuickCraft { phase, button, slot } => drag_rule(
            drag,
            phase,
            button,
            slot,
            slot_count,
            creative_mode,
        ),
        _ if drag is Some => Err(InventoryError::DragInProgress),
        InventoryClick::Pickup { slot, button } => {
            let code: i8 = if button == MouseButton::Left {
                0
            } else {
                1
            };
            match slot {
                Some(slot) => plain(on_slot(slot, slot_count, (slot, code, 0))),
                None => Ok(((OUTSIDE_SLOT, code, 0), drag)),
            }
        },
        InventoryClick::QuickMove { slot } => plain(on_slot(slot, slot_count, (slot, 0, 1))),
        InventoryClick::HotbarSwap { slot, destination } => if !slot_exists(slot, slot_count) {
            Err(InventoryError::InvalidSlot { slot, slot_count })
        } else {
            match destination {
                HotbarDestination::Offhand => Ok(((slot, 40, 2), drag)),
                HotbarDestination::Slot(to) => if to <= 8 {
                    Ok(((slot, to as i8, 2), drag))
                } else {
                    Err(InventoryError::InvalidHotbarSlot { slot: to })
                },
            }
        },
        InventoryClick::Clone { slot } => if slot_exists(slot, slot_count) && !creative_mode {
            Err(InventoryError::CreativeOnly)
        } else {
            plain(on_slot(slot, slot_count, (slot, 2, 3)))
        },
        InventoryClick::Throw { slot, whole_stack } => plain(
            on_slot(
                slot,
                slot_count,
                (
                    slot,
                    if whole_stack {
                        1
                    } else {
                        0
                    },
                    4,
                ),
            ),
        ),
        InventoryClick::PickupAll { slot } => plain(on_slot(slot, slot_count, (slot, 0, 6))),
    }
}

/// The drag lifecycle: a start outside any drag, slots added with the button
/// that started it, and an end with that button.
pub open spec fn drag_rule(
    drag: Option<DragState>,
    phase: DragPhase,
    button: DragButton,
    slot: Option<i16>,
    slot_count: usize,
    creative_mode: bool,
) -> Result<(WireClick, Option<DragState>), InventoryError> {
    let running = drag matches Some(d) && d.button == button;
    if button == DragButton::Middle && !creative_mode {
        Err(InventoryError::CreativeOnly)
    } else {
        match (phase, slot) {
            (DragPhase::Start, None) => if drag is None {
                Ok(((OUTSIDE_SLOT, drag_code(button, phase), 5), Some(DragState { button })))
            } else {
                Err(InventoryError::InvalidDragPhase)
            },
            (DragPhase::AddSlot, Some(slot)) => if !slot_exists(slot, slot_count) {
                Err(InventoryError::InvalidSlot { slot, slot_count })
            } else if running {
                Ok(((slot, drag_code(button, phase), 5), drag))
            } else {
                Err(InventoryError::InvalidDragPhase)
            },
            (DragPhase::End, None) => if running {
                Ok(((OUTSIDE_SLOT, drag_code(button, phase), 5), None))
            } else {
                Err(InventoryError::InvalidDragPhase)
            },
            _ => Err(InventoryError::InvalidDragPhase),
        }
    }
}

impl InventoryModel {
    /// No two pending transactions share an id.
    pub open spec fn distinct_ids(self) -> bool {
        forall|i: int, j: int|
            #![trigger self.pending[i], self.pending[j]]
            0 <= i < j < self.pending.len() ==> self.pending[i].request.transaction_id
                != self.pending[j].request.transaction_id
    }

    /// Everything keeps within its bounds.
    pub open spec fn valid(self) -> bool {
        &&& self.player.bounded()
        &&& self.open matches Some(w) ==> w.bounded()
        &&& self.pending.len() <= MAX_PENDING_TRANSACTIONS
        &&& self.completed.dom().finite()
        &&& self.completed.len() <= MAX_COMPLETED_TRANSACTIONS
        &&& 0 <= self.selected <= 8
        &&& self.distinct_ids()
    }

    /// The window with this id: the player's own, or the open one.
    pub open spec fn window(self, window_id: i32) -> Option<WindowModel> {
        if window_id == PLAYER_INVENTORY_WINDOW_ID {
            Some(self.player)
        } else {
            match self.open {
                Some(w) => if w.id == window_id {
                    Some(w)
                } else {
                    None
                },
                None => None,
            }
        }
    }

    /// The window with this id replaced.
    pub open spec fn with_window(self, window_id: i32, w: WindowModel) -> InventoryModel {
        if window_id == PLAYER_INVENTORY_WINDOW_ID {
            InventoryModel { player: w, ..self }
        } else {
            InventoryModel { open: Some(w), ..self }
        }
    }

    /// Every transaction that the occasion covers finished.
    pub open spec fn finish(self, due: Due, outcome: InventoryOutcome) -> InventoryModel {
        InventoryModel {
            pending: left(self.pending, due),
            completed: all_recorded(self.completed, finished(self.pending, due), outcome),
            ..self
        }
    }

    /// The events of finishing.
    pub open spec fn finish_reports(self, due: Due, outcome: InventoryOutcome) -> Seq<
        InventoryEvent,
    > {
        finish_events(finished(self.pending, due), outcome)
    }

    /// After the server closed or replaced the open window.
    pub open spec fn closed(self) -> InventoryModel {
        match self.open {
            Some(w) => (InventoryModel { open: None, ..self }).finish(
                Due::Window(w.id),
                InventoryOutcome::WindowClosed,
            ),
            None => self,
        }
    }

    /// The events of that.
    pub open spec fn close_reports(self) -> Seq<InventoryEvent> {
        match self.open {
            Some(w) => seq![InventoryEvent::WindowClosed { window_id: w.id }]
                + self.finish_reports(Due::Window(w.id), InventoryOutcome::WindowClosed),
            None => Seq::empty(),
        }
    }

    /// After a click with this id was refused.
    pub open spec fn refused(self, id: u64, error: InventoryError) -> InventoryModel {
        InventoryModel {
            completed: recorded(self.completed, id, InventoryOutcome::Rejected(error)),
            ..self
        }
    }

    /// Whether some pending transaction has the id.
    pub open spec fn has_pending(self, id: u64) -> bool {
        exists|i: int|
            0 <= i < self.pending.len() && #[trigger] self.pending[i].request.transaction_id == id
    }

    /// What a click request comes to.
    pub open spec fn click(self, request: InventoryClickRequest, creative_mode: bool) -> Result<
        (WireClick, Option<DragState>),
        InventoryError,
    > {
        let id = request.transaction_id;
        if self.pending.len() >= MAX_PENDING_TRANSACTIONS {
            Err(InventoryError::QueueFull)
        } else if self.has_pending(id) || self.completed.contains_key(id as int) {
            Err(InventoryError::DuplicateTransaction { transaction_id: id })
        } else {
            match self.window(request.window_id) {
                None => Err(InventoryError::UnknownWindow { window_id: request.window_id }),
                Some(w) => if request.state_id != w.state_id {
                    Err(
                        InventoryError::StaleState {
                            requested: request.state_id,
                            current: w.state_id,
                        },
                    )
                } else {
                    click_rule(self.drag, request.click, w.slots.len() as usize, creative_mode)
                },
            }
        }
    }

    /// After an accepted click: queued, with the drag that follows. Nothing in
    /// any window changes.
    pub open spec fn queued(
        self,
        request: InventoryClickRequest,
        tick: u64,
        drag: Option<DragState>,
    ) -> InventoryModel {
        InventoryModel {
            pending: self.pending.push(
                InventoryTransaction {
                    request,
                    status: InventoryTransactionStatus::Queued,
                    queued_tick: tick,
                },
            ),
            drag,
            ..self
        }
    }

    /// The transaction with the id marked as sent.
    pub open spec fn marked(self, id: u64) -> InventoryModel {
        InventoryModel {
            pending: self.pending.map_values(
                |t: InventoryTransaction|
                    if t.request.transaction_id == id {
                        InventoryTransaction { status: InventoryTransactionStatus::Sent, ..t }
                    } else {
                        t
                    },
            ),
            ..self
        }
    }

    /// Whether the pending transaction with the id is a drag phase that the
    /// server does not confirm.
    pub open spec fn is_unconfirmed_phase(self, id: u64) -> bool {
        exists|i: int|
            0 <= i < self.pending.len() && (#[trigger] self.pending[i]).request.transaction_id == id
                && unconfirmed(self.pending[i].request.click)
    }
}

/// A drag phase that has no server confirmation of its own.
pub open spec fn unconfirmed(click: InventoryClick) -> bool {
    match click {
        InventoryClick::QuickCraft { phase, .. } => phase != DragPhase::End,
        _ => false,
    }
}

/// Recording keeps the history within its bound.
proof fn lemma_recorded_bound(
    completed: Map<int, InventoryOutcome>,
    id: u64,
    outcome: InventoryOutcome,
)
    requires
        completed.dom().finite(),
        completed.len() <= MAX_COMPLETED_TRANSACTIONS,
        completed.len() >= MAX_COMPLETED_TRANSACTIONS && !completed.contains_key(id as int)
            ==> completed.contains_key(least_id(completed)),
    ensures
        recorded(completed, id, outcome).dom().finite(),
        recorded(completed, id, outcome).len() <= MAX_COMPLETED_TRANSACTIONS,
{
    let out = recorded(completed, id, outcome);
    if !completed.contains_key(id as int) && completed.len() >= MAX_COMPLETED_TRANSACTIONS {
        let k = least_id(completed);
        assert(out.dom() =~= completed.dom().remove(k).insert(id as int));
    } else {
        assert(out.dom() =~= completed.dom().insert(id as int));
    }
}

/// Finding the oldest outcome: any smallest key is the one.
proof fn lemma_least(completed: Map<int, InventoryOutcome>, k: int)
    requires
        completed.contains_key(k),
        forall|j: int| #[trigger] completed.contains_key(j) ==> k <= j,
    ensures
        least_id(completed) == k,
{
    let l = least_id(completed);
    assert(completed.contains_key(l) && forall|j: int| #[trigger]
        completed.contains_key(j) ==> l <= j);
}

proof fn lemma_take_step<A>(s: Seq<A>, i: int, keep: spec_fn(A) -> bool)
    requires
        0 <= i < s.len(),
    ensures
        s.take(i + 1).filter(keep) == if keep(s[i]) {
            s.take(i).filter(keep).push(s[i])
        } else {
            s.take(i).filter(keep)
        },
{
    reveal(Seq::filter);
    assert(s.take(i + 1).drop_last() =~= s.take(i));
}

/// A filtered sequence is no longer than it was, and distinct ids stay so.
proof fn lemma_filter_distinct(s: Seq<InventoryTransaction>, keep: spec_fn(
    InventoryTransaction,
) -> bool)
    requires
        forall|i: int, j: int|
            #![trigger s[i], s[j]]
            0 <= i < j < s.len() ==> s[i].request.transaction_id != s[j].request.transaction_id,
    ensures
        s.filter(keep).len() <= s.len(),
        forall|k: int|
            0 <= k < s.filter(keep).len() ==> exists|i: int|
                0 <= i < s.len() && s[i] == #[trigger] s.filter(keep)[k],
        forall|i: int, j: int|
            #![trigger s.filter(keep)[i], s.filter(keep)[j]]
            0 <= i < j < s.filter(keep).len() ==> s.filter(keep)[i].request.transaction_id
                != s.filter(keep)[j].request.transaction_id,
    decreases s.len(),
{
    reveal(Seq::filter);
    if s.len() > 0 {
        let front = s.drop_last();
        assert forall|i: int, j: int|
            #![trigger front[i], front[j]]
            0 <= i < j < front.len() implies front[i].request.transaction_id
            != front[j].request.transaction_id by {
            assert(front[i] == s[i] && front[j] == s[j]);
        }
        lemma_filter_distinct(front, keep);
        let sub = front.filter(keep);
        let out = s.filter(keep);
        assert forall|k: int| 0 <= k < out.len() implies exists|i: int|
            0 <= i < s.len() && s[i] == #[trigger] out[k] by {
            if k < sub.len() {
                let i = choose|i: int| 0 <= i < front.len() && front[i] == sub[k];
                assert(s[i] == out[k]);
            } else {
                assert(s[s.len() - 1] == out[k]);
            }
        }
        assert forall|i: int, j: int|
            #![trigger out[i], out[j]]
            0 <= i < j < out.len() implies out[i].request.transaction_id
            != out[j].request.transaction_id by {
            assert(out[i] == sub[i]);
            let a = choose|a: int| 0 <= a < front.len() && front[a] == sub[i];
            if j < sub.len() {
                assert(out[j] == sub[j]);
            } else {
                assert(out[j] == s.last());
                assert(s[a] == front[a]);
            }
        }
    }
}

impl InventoryModel {
    /// The player's own window without a slot, and nothing else.
    pub open spec fn is_fresh(self) -> bool {
        &&& self == (InventoryModel {
            player: WindowModel::fresh(PLAYER_INVENTORY_WINDOW_ID, 0, self.player.title),
            open: None,
            cursor: no_item(),
            selected: 0,
            pending: Seq::empty(),
            completed: Map::empty(),
            drag: None,
        })
        &&& self.player.title matches Nbt::Compound(entries) && entries@.len() == 0
    }
}

impl InventoryState {
    /// Everything keeps within its bounds, and no two pending transactions
    /// share an id.
    pub open spec fn valid(&self) -> bool {
        self@.valid()
    }

    pub fn new() -> (s: Self)
        ensures
            s.valid(),
            s@.is_fresh(),
    {
        let s = InventoryState {
            player_inventory: Window::player_inventory(),
            open_window: None,
            cursor: empty_slot(),
            selected_hotbar_slot: 0,
            pending_transactions: VecDeque::new(),
            completed_transactions: SortedMap::new(),
            drag: None,
        };
        s
    }

    /// The window with this id: the player's own, or the open one.
    pub fn window(&self, window_id: i32) -> (w: Option<&Window>)
        ensures
            w is Some <==> self@.window(window_id) is Some,
            w matches Some(w) ==> Some(w@) == self@.window(window_id),
    {
        if window_id == PLAYER_INVENTORY_WINDOW_ID {
            Some(&self.player_inventory)
        } else {
            match &self.open_window {
                Some(w) => if w.id == window_id {
                    Some(w)
                } else {
                    None
                },
                None => None,
            }
        }
    }

    /// Applies `open_window`.
    pub fn open_window(&mut self, p: &PacketOpenWindow) -> (events: Vec<InventoryEvent>)
        requires
            old(self).valid(),
        ensures
            final(self).valid(),
            window_opened(old(self)@, *p, final(self)@, events@),
    {
        let mut events: Vec<InventoryEvent> = Vec::new();
        match self.open_window.take() {
            Some(previous) => {
                events.push(InventoryEvent::WindowClosed { window_id: previous.id });
                let mut done = self.finish_window_transactions(
                    previous.id,
                    InventoryOutcome::WindowClosed,
                );
                events.append(&mut done);
            },
            None => {},
        }
        assert(events@ =~= old(self)@.close_reports());
        self.open_window = Some(Window::from_open(p));
        self.drag = None;
        events.push(InventoryEvent::WindowOpened { window_id: p.window_id });
        events
    }

    /// Applies `close_window`. A close for a window id that is not (or is no
    /// longer) the open one is a stale/no-op, not an error.
    pub fn close_window(&mut self, p: &PacketCloseWindow) -> (events: Vec<InventoryEvent>)
        requires
            old(self).valid(),
        ensures
            final(self).valid(),
            window_closed(old(self)@, *p, final(self)@, events@),
    {
        let matching = match &self.open_window {
            Some(w) => w.id == p.window_id,
            None => false,
        };
        let mut events: Vec<InventoryEvent> = Vec::new();
        if matching {
            self.open_window = None;
            self.drag = None;
            events.push(InventoryEvent::WindowClosed { window_id: p.window_id });
            let mut done = self.finish_window_transactions(
                p.window_id,
                InventoryOutcome::WindowClosed,
            );
            events.append(&mut done);
            assert(events@ =~= old(self)@.close_reports());
        }
        events
    }

    /// Applies `window_items`: a full slot refresh for one window plus the
    /// cursor item it carries. A refresh for a window id we don't currently
    /// recognize (already closed/replaced) only updates the cursor.
    pub fn window_items(&mut self, p: &PacketWindowItems) -> (events: Vec<InventoryEvent>)
        requires
            old(self).valid(),
        ensures
            final(self).valid(),
            window_filled(old(self)@, *p, final(self)@, events@),
    {
        let ghost m = InventoryModel { cursor: p.carried_item, ..self@ };
        let mut applied = false;
        if p.window_id == PLAYER_INVENTORY_WINDOW_ID {
            self.player_inventory.refresh(&p.items, p.state_id);
            applied = true;
        } else {
            match self.open_window.take() {
                Some(mut w) => {
                    if w.id == p.window_id {
                        w.refresh(&p.items, p.state_id);
                        applied = true;
                    }
                    self.open_window = Some(w);
                },
                None => {},
            }
        }
        self.cursor = p.carried_item.clone();
        let mut events: Vec<InventoryEvent> = Vec::new();
        events.push(InventoryEvent::CursorUpdated);
        if applied {
            events.push(
                InventoryEvent::WindowSynchronized {
                    window_id: p.window_id,
                    state_id: p.state_id,
                },
            );
            let mut done = self.finish_window_transactions(
                p.window_id,
                InventoryOutcome::Corrected { state_id: p.state_id },
            );
            events.append(&mut done);
        }
        events
    }

    /// Applies `set_slot`. Window id `-1` is the legacy cursor-slot address,
    /// superseded by `set_cursor_item` but still valid wire.
    pub fn set_slot(&mut self, p: &PacketSetSlot) -> (events: Vec<InventoryEvent>)
        requires
            old(self).valid(),
        ensures
            final(self).valid(),
            slot_set(old(self)@, *p, final(self)@, events@),
    {
        let mut events: Vec<InventoryEvent> = Vec::new();
        if p.window_id == -1 {
            self.cursor = p.item.clone();
            events.push(InventoryEvent::CursorUpdated);
            return events;
        }
        let mut applied = false;
        if p.window_id == PLAYER_INVENTORY_WINDOW_ID {
            self.player_inventory.state_id = p.state_id;
            applied = self.player_inventory.set_slot(p.slot, p.item.clone());
        } else {
            match self.open_window.take() {
                Some(mut w) => {
                    if w.id == p.window_id {
                        w.state_id = p.state_id;
                        applied = w.set_slot(p.slot, p.item.clone());
                    }
                    self.open_window = Some(w);
                },
                None => {},
            }
        }
        if !applied {
            return events;
        }
        events.push(
            InventoryEvent::SlotUpdated {
                window_id: p.window_id,
                state_id: p.state_id,
                slot: p.slot,
            },
        );
        let mut done = self.finish_confirmed_transactions(p.window_id, p.state_id);
        events.append(&mut done);
        events
    }

    /// Applies `set_cursor_item`: the authoritative cursor-item update.
    pub fn set_cursor_item(&mut self, p: &PacketSetCursorItem) -> (event: InventoryEvent)
        requires
            old(self).valid(),
        ensures
            final(self).valid(),
            cursor_set(old(self)@, *p, final(self)@, event),
    {
        self.cursor = p.contents.clone();
        InventoryEvent::CursorUpdated
    }

    /// Applies the direct player-inventory slot update.
    pub fn set_player_inventory(&mut self, p: &PacketSetPlayerInventory) -> (events: Vec<
        InventoryEvent,
    >)
        requires
            old(self).valid(),
        ensures
            final(self).valid(),
            own_slot_set(old(self)@, *p, final(self)@, events@),
    {
        let mut events: Vec<InventoryEvent> = Vec::new();
        if p.slot_id < i16::MIN as i32 || p.slot_id > i16::MAX as i32 {
            return events;
        }
        let slot: i16 = p.slot_id as i16;
        if !self.player_inventory.set_slot(slot, p.contents.clone()) {
            return events;
        }
        events.push(
            InventoryEvent::SlotUpdated {
                window_id: PLAYER_INVENTORY_WINDOW_ID,
                state_id: self.player_inventory.state_id,
                slot,
            },
        );
        events
    }

    /// Applies `craft_progress_bar`: a container property (furnace progress,
    /// enchanting-table levels/costs, ...) on the addressed window.
    pub fn craft_progress_bar(&mut self, p: &PacketCraftProgressBar) -> (event: Option<
        InventoryEvent,
    >)
        requires
            old(self).valid(),
        ensures
            final(self).valid(),
            property_set(old(self)@, *p, final(self)@, event),
    {
        let updated = Some(
            InventoryEvent::PropertyUpdated { window_id: p.window_id, property: p.property },
        );
        if p.window_id == PLAYER_INVENTORY_WINDOW_ID {
            if self.player_inventory.set_property(p.property, p.value) {
                updated
            } else {
                None
            }
        } else {
            match self.open_window.take() {
                Some(mut w) => {
                    let applied = w.id == p.window_id && w.set_property(p.property, p.value);
                    self.open_window = Some(w);
                    if applied {
                        updated
                    } else {
                        None
                    }
                },
                None => None,
            }
        }
    }

    /// Applies `held_item_slot`: the server-selected hotbar slot.
    pub fn held_item_slot(&mut self, p: &PacketHeldItemSlot) -> (event: InventoryEvent)
        requires
            old(self).valid(),
        ensures
            final(self).valid(),
            hotbar_selected(old(self)@, *p, final(self)@, event),
    {
        let applied = 0 <= p.slot && p.slot <= 8;
        if applied {
            self.selected_hotbar_slot = p.slot;
        }
        InventoryEvent::SelectedHotbarChanged { slot: self.selected_hotbar_slot, applied }
    }

    /// Selects a hotbar slot on the client's own account.
    pub fn select_hotbar_slot(&mut self, slot: i16) -> (event: InventoryEvent)
        requires
            old(self).valid(),
        ensures
            final(self).valid(),
            hotbar_selected(
                old(self)@,
                PacketHeldItemSlot { slot: slot as i32 },
                final(self)@,
                event,
            ),
    {
        self.held_item_slot(&PacketHeldItemSlot { slot: slot as i32 })
    }

    /// Checks a click against the current state and queues it.
    ///
    /// The packet carries no predicted changes: the server's next
    /// authoritative update confirms or corrects the click instead.
    pub fn prepare_click(
        &mut self,
        request: InventoryClickRequest,
        tick: u64,
        creative_mode: bool,
    ) -> (res: Result<PreparedClick, InventoryError>)
        requires
            old(self).valid(),
        ensures
            final(self).valid(),
            match (old(self)@.click(request, creative_mode), res) {
                (Ok((wire, drag)), Ok(prepared)) => {
                    &&& final(self)@ == old(self)@.queued(request, tick, drag)
                    &&& prepared.packet.window_id == request.window_id
                    &&& prepared.packet.state_id == request.state_id
                    &&& (
                        prepared.packet.slot,
                        prepared.packet.mouse_button,
                        prepared.packet.mode,
                    ) == wire
                    &&& prepared.packet.changed_slots@.len() == 0
                    &&& prepared.packet.cursor_item == old(self)@.cursor
                    &&& prepared.event == (InventoryEvent::TransactionQueued {
                        transaction_id: request.transaction_id,
                    })
                },
                (Err(e), Err(r)) => r == e && final(self)@ == old(self)@,
                _ => false,
            },
    {
        if self.pending_transactions.len() >= MAX_PENDING_TRANSACTIONS {
            return Err(InventoryError::QueueFull);
        }
        if self.position(request.transaction_id).is_some() || self.completed_transactions.contains(
            &request.transaction_id,
        ) {
            return Err(
                InventoryError::DuplicateTransaction { transaction_id: request.transaction_id },
            );
        }
        let slot_count: usize = match self.window(request.window_id) {
            Some(w) => {
                if request.state_id != w.state_id {
                    return Err(
                        InventoryError::StaleState {
                            requested: request.state_id,
                            current: w.state_id,
                        },
                    );
                }
                w.slots.len()
            },
            None => {
                return Err(InventoryError::UnknownWindow { window_id: request.window_id });
            },
        };
        let (slot, mouse_button, mode) = match self.validate_click(
            request.click,
            slot_count,
            creative_mode,
        ) {
            Ok(wire) => wire,
            Err(e) => {
                return Err(e);
            },
        };
        let packet = PacketWindowClick {
            window_id: request.window_id,
            state_id: request.state_id,
            slot,
            mouse_button,
            mode,
            changed_slots: Vec::new(),
            cursor_item: self.cursor.clone(),
        };
        self.pending_transactions.push_back(
            InventoryTransaction {
                request,
                status: InventoryTransactionStatus::Queued,
                queued_tick: tick,
            },
        );
        Ok(
            PreparedClick {
                packet,
                event: InventoryEvent::TransactionQueued { transaction_id: request.transaction_id },
            },
        )
    }

    /// The place of the pending transaction with the id.
    fn position(&self, id: u64) -> (at: Option<usize>)
        ensures
            at is Some <==> self@.has_pending(id),
            at matches Some(at) ==> at < self@.pending.len()
                && self@.pending[at as int].request.transaction_id == id,
    {
        let mut i: usize = 0;
        while i < self.pending_transactions.len()
            invariant
                i <= self@.pending.len(),
                forall|j: int|
                    0 <= j < i ==> #[trigger] self@.pending[j].request.transaction_id != id,
            decreases self@.pending.len() - i,
        {
            if self.pending_transactions[i].request.transaction_id == id {
                return Some(i);
            }
            i += 1;
        }
        None
    }

    /// Checks a click against the click rules, moving the drag lifecycle on.
    fn validate_click(
        &mut self,
        click: InventoryClick,
        slot_count: usize,
        creative_mode: bool,
    ) -> (res: Result<WireClick, InventoryError>)
        ensures
            match (click_rule(old(self)@.drag, click, slot_count, creative_mode), res) {
                (Ok((wire, drag)), Ok(w)) => w == wire && final(self)@ == (InventoryModel {
                    drag,
                    ..old(self)@
                }),
                (Err(e), Err(r)) => r == e && final(self)@ == old(self)@,
                _ => false,
            },
    {
        match click {
            InventoryClick::QuickCraft { phase, button, slot } => {
                if button == DragButton::Middle && !creative_mode {
                    return Err(InventoryError::CreativeOnly);
                }
                let running = match &self.drag {
                    Some(drag) => drag.button == button,
                    None => false,
                };
                match (phase, slot) {
                    (DragPhase::Start, None) => {
                        if self.drag.is_some() {
                            return Err(InventoryError::InvalidDragPhase);
                        }
                        self.drag = Some(DragState { button });
                        Ok((OUTSIDE_SLOT, drag_button(button, phase), 5))
                    },
                    (DragPhase::AddSlot, Some(slot)) => {
                        match validate_slot(slot, slot_count) {
                            Ok(_) => {},
                            Err(e) => {
                                return Err(e);
                            },
                        }
                        if !running {
                            return Err(InventoryError::InvalidDragPhase);
                        }
                        Ok((slot, drag_button(button, phase), 5))
                    },
                    (DragPhase::End, None) => {
                        if !running {
                            return Err(InventoryError::InvalidDragPhase);
                        }
                        self.drag = None;
                        Ok((OUTSIDE_SLOT, drag_button(button, phase), 5))
                    },
                    _ => Err(InventoryError::InvalidDragPhase),
                }
            },
            _ => {
                if self.drag.is_some() {
                    return Err(InventoryError::DragInProgress);
                }
                validate_plain_click(click, slot_count, creative_mode)
            },
        }
    }

    /// Marks a queued click as sent. Drag phases that the server does not
    /// confirm finish here.
    pub fn mark_sent(&mut self, transaction_id: u64) -> (events: Vec<InventoryEvent>)
        requires
            old(self).valid(),
        ensures
            final(self).valid(),
            click_sent(old(self)@, transaction_id, final(self)@, events@),
    {
        let mut events: Vec<InventoryEvent> = Vec::new();
        let at: usize = match self.position(transaction_id) {
            Some(at) => at,
            None => {
                return events;
            },
        };
        let ghost before = self@;
        let t: InventoryTransaction = self.pending_transactions[at];
        let sent = InventoryTransaction {
            request: t.request,
            status: InventoryTransactionStatus::Sent,
            queued_tick: t.queued_tick,
        };
        let _ = self.pending_transactions.remove(at);
        self.pending_transactions.insert(at, sent);
        proof {
            assert forall|i: int| 0 <= i < before.pending.len() && i != at implies (
            #[trigger] before.pending[i]).request.transaction_id != transaction_id by {
                assert(before.pending[at as int].request.transaction_id == transaction_id);
            }
            assert(self@.pending =~= before.marked(transaction_id).pending);
            assert(self@ =~= before.marked(transaction_id));
            assert(before.is_unconfirmed_phase(transaction_id) == unconfirmed(
                before.pending[at as int].request.click,
            ));
        }
        events.push(InventoryEvent::TransactionSent { transaction_id });
        let unconfirmed_phase = match t.request.click {
            InventoryClick::QuickCraft { phase, .. } => phase != DragPhase::End,
            _ => false,
        };
        proof {
            lemma_marked_valid(before, transaction_id);
        }
        if unconfirmed_phase {
            proof {
                lemma_single(self@.pending, at as int);
            }
            let mut done = self.finish_transaction(transaction_id, InventoryOutcome::Sent);
            events.append(&mut done);
        }
        events
    }

    /// Finishes every transaction that has waited too long.
    pub fn expire_transactions(&mut self, tick: u64) -> (events: Vec<InventoryEvent>)
        requires
            old(self).valid(),
        ensures
            final(self).valid(),
            final(self)@ == old(self)@.finish(Due::Expired { tick }, InventoryOutcome::TimedOut),
            events@ == old(self)@.finish_reports(
                Due::Expired { tick },
                InventoryOutcome::TimedOut,
            ),
    {
        self.finish_matching(Due::Expired { tick }, InventoryOutcome::TimedOut)
    }

    fn finish_confirmed_transactions(&mut self, window_id: i32, state_id: i32) -> (events: Vec<
        InventoryEvent,
    >)
        requires
            old(self).valid(),
        ensures
            final(self).valid(),
            final(self)@ == old(self)@.finish(
                Due::Confirmed { window_id, state_id },
                InventoryOutcome::Confirmed { state_id },
            ),
            events@ == old(self)@.finish_reports(
                Due::Confirmed { window_id, state_id },
                InventoryOutcome::Confirmed { state_id },
            ),
    {
        self.finish_matching(
            Due::Confirmed { window_id, state_id },
            InventoryOutcome::Confirmed { state_id },
        )
    }

    fn finish_window_transactions(&mut self, window_id: i32, outcome: InventoryOutcome) -> (events:
        Vec<InventoryEvent>)
        requires
            old(self).valid(),
        ensures
            final(self).valid(),
            final(self)@ == old(self)@.finish(Due::Window(window_id), outcome),
            events@ == old(self)@.finish_reports(Due::Window(window_id), outcome),
    {
        self.finish_matching(Due::Window(window_id), outcome)
    }

    fn finish_transaction(&mut self, transaction_id: u64, outcome: InventoryOutcome) -> (events:
        Vec<InventoryEvent>)
        requires
            old(self).valid(),
        ensures
            final(self).valid(),
            final(self)@ == old(self)@.finish(Due::Id(transaction_id), outcome),
            events@ == old(self)@.finish_reports(Due::Id(transaction_id), outcome),
    {
        self.finish_matching(Due::Id(transaction_id), outcome)
    }

    /// Records one outcome, making room where the history is full.
    fn record(&mut self, id: u64, outcome: InventoryOutcome)
        requires
            old(self)@.completed.dom().finite(),
            old(self)@.completed.len() <= MAX_COMPLETED_TRANSACTIONS,
        ensures
            final(self)@ == (InventoryModel {
                completed: recorded(old(self)@.completed, id, outcome),
                ..old(self)@
            }),
            final(self)@.completed.dom().finite(),
            final(self)@.completed.len() <= MAX_COMPLETED_TRANSACTIONS,
    {
        let ghost before = self@.completed;
        if !self.completed_transactions.contains(&id) && self.completed_transactions.len()
            >= MAX_COMPLETED_TRANSACTIONS {
            match self.completed_transactions.first_key() {
                Some(oldest) => {
                    proof {
                        lemma_least(before, oldest as int);
                    }
                    let _ = self.completed_transactions.remove(&oldest);
                },
                None => {},
            }
        }
        let _ = self.completed_transactions.insert(id, outcome);
        proof {
            lemma_recorded_bound(before, id, outcome);
        }
    }

    /// Finishes every pending transaction that the occasion covers, in order.
    fn finish_matching(&mut self, due: Due, outcome: InventoryOutcome) -> (events: Vec<
        InventoryEvent,
    >)
        requires
            old(self).valid(),
        ensures
            final(self).valid(),
            final(self)@ == old(self)@.finish(due, outcome),
            events@ == old(self)@.finish_reports(due, outcome),
    {
        let ghost before = self@;
        let ghost all = self@.pending;
        let mut events: Vec<InventoryEvent> = Vec::new();
        let mut kept: VecDeque<InventoryTransaction> = VecDeque::new();
        let mut i: usize = 0;
        proof {
            reveal(Seq::filter);
            assert(all.take(0) =~= Seq::<InventoryTransaction>::empty());
        }
        while i < self.pending_transactions.len()
            invariant
                i <= all.len(),
                before.valid(),
                all == before.pending,
                self@.pending == all,
                self@ == (InventoryModel {
                    completed: all_recorded(
                        before.completed,
                        finished(all.take(i as int), due),
                        outcome,
                    ),
                    ..before
                }),
                self@.completed.dom().finite(),
                self@.completed.len() <= MAX_COMPLETED_TRANSACTIONS,
                kept@ == left(all.take(i as int), due),
                events@ == finish_events(finished(all.take(i as int), due), outcome),
            decreases all.len() - i,
        {
            let t: InventoryTransaction = self.pending_transactions[i];
            let ghost seen = finished(all.take(i as int), due);
            proof {
                lemma_take_step(all, i as int, |t: InventoryTransaction| due.covers(t));
                lemma_take_step(all, i as int, |t: InventoryTransaction| !due.covers(t));
            }
            if due.check(&t) {
                let id: u64 = t.request.transaction_id;
                self.record(id, outcome);
                events.push(InventoryEvent::TransactionFinished { transaction_id: id, outcome });
                proof {
                    assert(seen.push(t).drop_last() =~= seen);
                    assert(events@ =~= finish_events(seen.push(t), outcome));
                }
            } else {
                kept.push_back(t);
            }
            i += 1;
        }
        proof {
            assert(all.take(all.len() as int) =~= all);
            lemma_filter_distinct(all, |t: InventoryTransaction| !due.covers(t));
        }
        self.pending_transactions = kept;
        assert(self@ =~= before.finish(due, outcome));
        events
    }

    /// Records the refusal of a click.
    pub fn reject_transaction(&mut self, transaction_id: u64, error: InventoryError) -> (event:
        InventoryEvent)
        requires
            old(self).valid(),
        ensures
            final(self).valid(),
            final(self)@ == old(self)@.refused(transaction_id, error),
            event == (InventoryEvent::TransactionRejected { transaction_id, error }),
    {
        self.record(transaction_id, InventoryOutcome::Rejected(error));
        InventoryEvent::TransactionRejected { transaction_id, error }
    }
}

impl Window {
    /// Sets a property, unless it is new and the window already holds as many
    /// as it may.
    fn set_property(&mut self, property: i16, value: i16) -> (applied: bool)
        requires
            old(self)@.bounded(),
        ensures
            applied == old(self)@.takes_property(property),
            final(self)@ == if applied {
                old(self)@.with_property(property, value)
            } else {
                old(self)@
            },
            final(self)@.bounded(),
    {
        if self.properties.contains(&property) || self.properties.len() < MAX_WINDOW_PROPERTIES {
            let _ = self.properties.insert(property, value);
            assert(self@.properties.dom() =~= old(self)@.properties.dom().insert(property as int));
            true
        } else {
            false
        }
    }
}

impl Default for InventoryState {
    fn default() -> (s: Self)
        ensures
            s.valid(),
            s@.is_fresh(),
    {
        InventoryState::new()
    }
}

proof fn lemma_marked_valid(m: InventoryModel, id: u64)
    requires
        m.valid(),
    ensures
        m.marked(id).valid(),
{
    let out = m.marked(id);
    assert forall|i: int, j: int|
        #![trigger out.pending[i], out.pending[j]]
        0 <= i < j < out.pending.len() implies out.pending[i].request.transaction_id
        != out.pending[j].request.transaction_id by {
        assert(out.pending[i].request == m.pending[i].request);
        assert(out.pending[j].request == m.pending[j].request);
    }
}

/// With distinct ids, finishing by id finishes exactly one transaction.
proof fn lemma_single(s: Seq<InventoryTransaction>, at: int)
    requires
        0 <= at < s.len(),
        forall|i: int, j: int|
            #![trigger s[i], s[j]]
            0 <= i < j < s.len() ==> s[i].request.transaction_id != s[j].request.transaction_id,
    ensures
        finished(s, Due::Id(s[at].request.transaction_id)) == seq![s[at]],
    decreases s.len(),
{
    reveal(Seq::filter);
    let id = s[at].request.transaction_id;
    let front = s.drop_last();
    assert forall|i: int, j: int|
        #![trigger front[i], front[j]]
        0 <= i < j < front.len() implies front[i].request.transaction_id
        != front[j].request.transaction_id by {
        assert(front[i] == s[i] && front[j] == s[j]);
    }
    if at < s.len() - 1 {
        assert(front[at] == s[at]);
        lemma_single(front, at);
        assert(s[at].request.transaction_id != s[s.len() - 1].request.transaction_id);
    } else {
        lemma_none(front, id, s.last());
        assert(finished(front, Due::Id(id)) =~= Seq::empty());
    }
    assert(finished(s, Due::Id(id)) =~= seq![s[at]]);
}

proof fn lemma_none(s: Seq<InventoryTransaction>, id: u64, last: InventoryTransaction)
    requires
        forall|i: int| 0 <= i < s.len() ==> (#[trigger] s[i]).request.transaction_id != id,
    ensures
        finished(s, Due::Id(id)).len() == 0,
    decreases s.len(),
{
    reveal(Seq::filter);
    if s.len() > 0 {
        let front = s.drop_last();
        assert forall|i: int| 0 <= i < front.len() implies (
        #[trigger] front[i]).request.transaction_id != id by {
            assert(front[i] == s[i]);
        }
        lemma_none(front, id, last);
        assert(s[s.len() - 1].request.transaction_id != id);
    }
}

/// Refuses a slot index that the window does not have.
pub fn validate_slot(slot: i16, slot_count: usize) -> (res: Result<(), InventoryError>)
    ensures
        res is Ok <==> slot_exists(slot, slot_count),
        res matches Err(e) ==> e == (InventoryError::InvalidSlot { slot, slot_count }),
{
    if slot < 0 || slot as usize >= slot_count {
        return Err(InventoryError::InvalidSlot { slot, slot_count });
    }
    Ok(())
}

/// The wire slot of a click that may address the outside.
pub fn validate_optional_slot(slot: Option<i16>, slot_count: usize) -> (res: Result<
    i16,
    InventoryError,
>)
    ensures
        res == match slot {
            Some(slot) => if slot_exists(slot, slot_count) {
                Ok(slot)
            } else {
                Err(InventoryError::InvalidSlot { slot, slot_count })
            },
            None => Ok(OUTSIDE_SLOT),
        },
{
    match slot {
        Some(slot) => match validate_slot(slot, slot_count) {
            Ok(_) => Ok(slot),
            Err(e) => Err(e),
        },
        None => Ok(OUTSIDE_SLOT),
    }
}

/// The wire number of a mouse button.
pub fn mouse_button(button: MouseButton) -> (code: i8)
    ensures
        code == if button == MouseButton::Left {
            0i8
        } else {
            1i8
        },
{
    match button {
        MouseButton::Left => 0,
        MouseButton::Right => 1,
    }
}

/// The wire number of a drag button in a phase.
pub fn drag_button(button: DragButton, phase: DragPhase) -> (code: i8)
    ensures
        code == drag_code(button, phase),
{
    let base: i8 = match button {
        DragButton::Left => 0,
        DragButton::Right => 4,
        DragButton::Middle => 8,
    };
    let step: i8 = match phase {
        DragPhase::Start => 0,
        DragPhase::AddSlot => 1,
        DragPhase::End => 2,
    };
    base + step
}

/// A click outside any drag.
fn validate_plain_click(click: InventoryClick, slot_count: usize, creative_mode: bool) -> (res:
    Result<WireClick, InventoryError>)
    requires
        !(click is QuickCraft),
    ensures
        match (click_rule(None, click, slot_count, creative_mode), res) {
            (Ok((wire, _)), Ok(w)) => w == wire,
            (Err(e), Err(r)) => r == e,
            _ => false,
        },
        click_rule(None, click, slot_count, creative_mode) matches Ok((_, drag)) ==> drag is None,
{
    match click {
        InventoryClick::Pickup { slot, button } => {
            match validate_optional_slot(slot, slot_count) {
                Ok(wire) => Ok((wire, mouse_button(button), 0)),
                Err(e) => Err(e),
            }
        },
        InventoryClick::QuickMove { slot } => {
            match validate_slot(slot, slot_count) {
                Ok(_) => Ok((slot, 0, 1)),
                Err(e) => Err(e),
            }
        },
        InventoryClick::HotbarSwap { slot, destination } => {
            match validate_slot(slot, slot_count) {
                Ok(_) => {},
                Err(e) => {
                    return Err(e);
                },
            }
            match destination {
                HotbarDestination::Offhand => Ok((slot, 40, 2)),
                HotbarDestination::Slot(to) => if to <= 8 {
                    Ok((slot, to as i8, 2))
                } else {
                    Err(InventoryError::InvalidHotbarSlot { slot: to })
                },
            }
        },
        InventoryClick::Clone { slot } => {
            match validate_slot(slot, slot_count) {
                Ok(_) => {},
                Err(e) => {
                    return Err(e);
                },
            }
            if !creative_mode {
                return Err(InventoryError::CreativeOnly);
            }
            Ok((slot, 2, 3))
        },
        InventoryClick::Throw { slot, whole_stack } => {
            match validate_slot(slot, slot_count) {
                Ok(_) => Ok((
                    slot,
                    if whole_stack {
                        1
                    } else {
                        0
                    },
                    4,
                )),
                Err(e) => Err(e),
            }
        },
        InventoryClick::PickupAll { slot } => {
            match validate_slot(slot, slot_count) {
                Ok(_) => Ok((slot, 0, 6)),
                Err(e) => Err(e),
            }
        },
        InventoryClick::QuickCraft { .. } => Err(InventoryError::InvalidDragPhase),
    }
}

/// Nothing that an occasion finishes stays pending: after a window closes or is
/// resynchronized, no click on it is left in flight.
pub proof fn law_finished_leave_the_queue(m: InventoryModel, due: Due, outcome: InventoryOutcome)
    ensures
        forall|i: int|
            0 <= i < m.finish(due, outcome).pending.len() ==> !due.covers(
                #[trigger] m.finish(due, outcome).pending[i],
            ),
{
    broadcast use vstd::seq_lib::group_seq_properties;

    m.pending.filter_lemma(|t: InventoryTransaction| !due.covers(t));
    let keep = |t: InventoryTransaction| !due.covers(t);
    assert forall|i: int| 0 <= i < m.finish(due, outcome).pending.len() implies !due.covers(
        #[trigger] m.finish(due, outcome).pending[i],
    ) by {
        assert(keep(m.pending.filter(keep)[i]));
    }
}

/// A click never changes what any window, the cursor or the history holds: only
/// the server does.
pub proof fn law_clicks_predict_nothing(
    m: InventoryModel,
    request: InventoryClickRequest,
    tick: u64,
    drag: Option<DragState>,
)
    ensures
        m.queued(request, tick, drag).player == m.player,
        m.queued(request, tick, drag).open == m.open,
        m.queued(request, tick, drag).cursor == m.cursor,
        m.queued(request, tick, drag).completed == m.completed,
        m.queued(request, tick, drag).selected == m.selected,
{
}

/// Once accepted, a transaction id is refused for as long as it is pending.
pub proof fn law_ids_are_used_once(
    m: InventoryModel,
    request: InventoryClickRequest,
    again: InventoryClickRequest,
    tick: u64,
    drag: Option<DragState>,
    creative_mode: bool,
)
    requires
        again.transaction_id == request.transaction_id,
    ensures
        m.queued(request, tick, drag).click(again, creative_mode) == Err::<
            (WireClick, Option<DragState>),
            InventoryError,
        >(
            if m.pending.len() + 1 >= MAX_PENDING_TRANSACTIONS {
                InventoryError::QueueFull
            } else {
                InventoryError::DuplicateTransaction { transaction_id: again.transaction_id }
            },
        ),
{
    let after = m.queued(request, tick, drag);
    assert(after.pending[m.pending.len() as int].request.transaction_id == again.transaction_id);
}

/// A drag runs from its start, over any of the window's slots, to its end: each
/// step with the button that started it is accepted, and the end leaves no drag.
/// While it runs, every other kind of click is refused.
pub proof fn law_drag_lifecycle(
    button: DragButton,
    slot: i16,
    slot_count: usize,
    creative_mode: bool,
    other: InventoryClick,
)
    requires
        button != DragButton::Middle || creative_mode,
        slot_exists(slot, slot_count),
        !(other is QuickCraft),
    ensures
        click_rule(
            None,
            InventoryClick::QuickCraft { phase: DragPhase::Start, button, slot: None },
            slot_count,
            creative_mode,
        ) matches Ok((_, drag)) && drag == Some(DragState { button }),
        click_rule(
            Some(DragState { button }),
            InventoryClick::QuickCraft { phase: DragPhase::AddSlot, button, slot: Some(slot) },
            slot_count,
            creative_mode,
        ) matches Ok((_, drag)) && drag == Some(DragState { button }),
        click_rule(
            Some(DragState { button }),
            InventoryClick::QuickCraft { phase: DragPhase::End, button, slot: None },
            slot_count,
            creative_mode,
        ) matches Ok((_, drag)) && drag is None,
        click_rule(Some(DragState { button }), other, slot_count, creative_mode) == Err::<
            (WireClick, Option<DragState>),
            InventoryError,
        >(InventoryError::DragInProgress),
{
}

/// What opening a window comes to.
pub open spec fn window_opened(
    before: InventoryModel,
    p: PacketOpenWindow,
    after: InventoryModel,
    events: Seq<InventoryEvent>,
) -> bool {
    &&& (after == (InventoryModel {
        open: Some(
            WindowModel::fresh(p.window_id, p.inventory_type, p.window_title),
        ),
        drag: None,
        ..before.closed()
    }))
    &&& (events =~= before.close_reports().push(
        InventoryEvent::WindowOpened { window_id: p.window_id },
    ))
}

/// What closing a window comes to.
pub open spec fn window_closed(
    before: InventoryModel,
    p: PacketCloseWindow,
    after: InventoryModel,
    events: Seq<InventoryEvent>,
) -> bool {
    &&& (before.open matches Some(w) && w.id == p.window_id ==> {
        &&& after == (InventoryModel { drag: None, ..before.closed() })
        &&& events =~= before.close_reports()
    })
    &&& (!(before.open matches Some(w) && w.id == p.window_id) ==> {
        &&& after == before
        &&& events.len() == 0
    })
}

/// What the contents of a window come to.
pub open spec fn window_filled(
    before: InventoryModel,
    p: PacketWindowItems,
    after: InventoryModel,
    events: Seq<InventoryEvent>,
) -> bool {
    ({
        let m = InventoryModel { cursor: p.carried_item, ..before };
        let due = Due::Window(p.window_id);
        let outcome = InventoryOutcome::Corrected { state_id: p.state_id };
        match m.window(p.window_id) {
            None => after == m && events =~= seq![InventoryEvent::CursorUpdated],
            Some(w) => {
                &&& after == m.with_window(
                    p.window_id,
                    w.refreshed(p.items@, p.state_id),
                ).finish(due, outcome)
                &&& events =~= seq![
                    InventoryEvent::CursorUpdated,
                    InventoryEvent::WindowSynchronized {
                        window_id: p.window_id,
                        state_id: p.state_id,
                    },
                ] + m.finish_reports(due, outcome)
            },
        }
    })
}

/// What the contents of a slot come to.
pub open spec fn slot_set(
    before: InventoryModel,
    p: PacketSetSlot,
    after: InventoryModel,
    events: Seq<InventoryEvent>,
) -> bool {
    &&& (p.window_id == -1 ==> {
        &&& after == (InventoryModel { cursor: p.item, ..before })
        &&& events =~= seq![InventoryEvent::CursorUpdated]
    })
    &&& (p.window_id != -1 ==> match before.window(p.window_id) {
        None => after == before && events.len() == 0,
        Some(w) => {
            let set = (WindowModel { state_id: p.state_id, ..w }).with_slot(
                p.slot,
                p.item,
            );
            let m = before.with_window(p.window_id, set);
            let due = Due::Confirmed { window_id: p.window_id, state_id: p.state_id };
            let outcome = InventoryOutcome::Confirmed { state_id: p.state_id };
            if WindowModel::accepts(p.slot) {
                &&& after == m.finish(due, outcome)
                &&& events =~= seq![
                    InventoryEvent::SlotUpdated {
                        window_id: p.window_id,
                        state_id: p.state_id,
                        slot: p.slot,
                    },
                ] + m.finish_reports(due, outcome)
            } else {
                after == m && events.len() == 0
            }
        },
    })
}

/// What the item on the cursor comes to.
pub open spec fn cursor_set(
    before: InventoryModel,
    p: PacketSetCursorItem,
    after: InventoryModel,
    event: InventoryEvent,
) -> bool {
    &&& (after == (InventoryModel { cursor: p.contents, ..before }))
    &&& (event == InventoryEvent::CursorUpdated)
}

/// What the contents of a slot of the player come to.
pub open spec fn own_slot_set(
    before: InventoryModel,
    p: PacketSetPlayerInventory,
    after: InventoryModel,
    events: Seq<InventoryEvent>,
) -> bool {
    &&& (0 <= p.slot_id < MAX_WINDOW_SLOTS ==> {
        &&& after == (InventoryModel {
            player: before.player.with_slot(p.slot_id as i16, p.contents),
            ..before
        })
        &&& events =~= seq![
            InventoryEvent::SlotUpdated {
                window_id: PLAYER_INVENTORY_WINDOW_ID,
                state_id: before.player.state_id,
                slot: p.slot_id as i16,
            },
        ]
    })
    &&& (!(0 <= p.slot_id < MAX_WINDOW_SLOTS) ==> after == before && events.len()
        == 0)
}

/// What a property of a window comes to.
pub open spec fn property_set(
    before: InventoryModel,
    p: PacketCraftProgressBar,
    after: InventoryModel,
    event: Option<InventoryEvent>,
) -> bool {
    match before.window(p.window_id) {
        Some(w) => if w.takes_property(p.property) {
            &&& after == before.with_window(
                p.window_id,
                w.with_property(p.property, p.value),
            )
            &&& event == Some(
                InventoryEvent::PropertyUpdated {
                    window_id: p.window_id,
                    property: p.property,
                },
            )
        } else {
            after == before && event is None
        },
        None => after == before && event is None,
    }
}

/// What the selection of a hotbar slot comes to.
pub open spec fn hotbar_selected(
    before: InventoryModel,
    p: PacketHeldItemSlot,
    after: InventoryModel,
    event: InventoryEvent,
) -> bool {
    &&& (after == (InventoryModel {
        selected: if 0 <= p.slot <= 8 {
            p.slot
        } else {
            before.selected
        },
        ..before
    }))
    &&& (event == (InventoryEvent::SelectedHotbarChanged {
        slot: after.selected,
        applied: 0 <= p.slot <= 8,
    }))
}

/// What sending a click comes to.
pub open spec fn click_sent(
    before: InventoryModel,
    transaction_id: u64,
    after: InventoryModel,
    events: Seq<InventoryEvent>,
) -> bool {
    &&& (!before.has_pending(transaction_id) ==> after == before && events.len()
        == 0)
    &&& (before.has_pending(transaction_id) && !before.is_unconfirmed_phase(
        transaction_id,
    ) ==> {
        &&& after == before.marked(transaction_id)
        &&& events =~= seq![InventoryEvent::TransactionSent { transaction_id }]
    })
    &&& (before.has_pending(transaction_id) && before.is_unconfirmed_phase(
        transaction_id,
    ) ==> {
        &&& after == before.marked(transaction_id).finish(
            Due::Id(transaction_id),
            InventoryOutcome::Sent,
        )
        &&& events =~= seq![
            InventoryEvent::TransactionSent { transaction_id },
            InventoryEvent::TransactionFinished {
                transaction_id,
                outcome: InventoryOutcome::Sent,
            },
        ]
    })
}

} // verus!
