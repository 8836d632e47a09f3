//! Item stacks as the wire describes them.
use std::sync::Arc;
use vstd::prelude::*;

use crate::minecraft::nbt::Nbt;
use crate::sharing::share;

verus! {

/// Which data component an item carries.
#[derive(Debug, Clone, Copy, PartialEq, Eq, Structural)]
pub enum SlotComponentType {
    CustomName,
    Lore,
    Enchantments,
    StoredEnchantments,
    Damage,
    /// A component this library does not look into, by registry id.
    Other(i32),
}

/// One enchantment of an item.
#[derive(Debug, Clone, Copy, PartialEq, Eq)]
pub struct Enchantment {
    pub id: i32,
    pub level: i32,
}

/// The value of a data component.
#[derive(Debug, PartialEq)]
pub enum SlotComponentData {
    CustomName(Nbt),
    Lore(Vec<Option<Nbt>>),
    Enchantments { enchantments: Vec<Enchantment>, show_tooltip: bool },
    StoredEnchantments { enchantments: Vec<Enchantment>, show_tooltip: bool },
    Damage(i32),
    /// The undecoded bytes of a component this library does not look into.
    Other(Vec<u8>),
}

/// A data component of an item.
#[derive(Debug, PartialEq)]
pub struct SlotComponent {
    pub kind: SlotComponentType,
    pub data: SlotComponentData,
}

/// What a non-empty slot holds.
#[derive(Debug, PartialEq)]
pub struct SlotValueDefault {
    pub item_id: i32,
    pub added_component_count: i32,
    pub removed_component_count: i32,
    pub components: Arc<Vec<SlotComponent>>,
    pub remove_components: Arc<Vec<i32>>,
}

/// Whether a slot is empty.
#[derive(Debug, PartialEq)]
pub enum SlotValue {
    /// Nothing in it.
    V0,
    Default(SlotValueDefault),
}

/// One item slot.
#[derive(Debug, PartialEq)]
pub struct Slot {
    pub item_count: i32,
    pub value: SlotValue,
}

impl Clone for SlotValueDefault {
    fn clone(&self) -> (r: Self)
        ensures
            r == *self,
    {
        SlotValueDefault {
            item_id: self.item_id,
            added_component_count: self.added_component_count,
            removed_component_count: self.removed_component_count,
            components: share(&self.components),
            remove_components: share(&self.remove_components),
        }
    }
}

impl Clone for SlotValue {
    fn clone(&self) -> (r: Self)
        ensures
            r == *self,
    {
        match self {
            SlotValue::V0 => SlotValue::V0,
            SlotValue::Default(data) => SlotValue::Default(data.clone()),
        }
    }
}

impl Clone for Slot {
    fn clone(&self) -> (r: Self)
        ensures
            r == *self,
    {
        Slot { item_count: self.item_count, value: self.value.clone() }
    }
}

/// The slot with nothing in it, as the wire sends it.
pub open spec fn no_item() -> Slot {
    Slot { item_count: 0, value: SlotValue::V0 }
}

/// An empty item slot (`item_count: 0`), matching what the wire sends for a
/// slot with nothing in it.
pub fn empty_slot() -> (s: Slot)
    ensures
        s == no_item(),
{
    Slot { item_count: 0, value: SlotValue::V0 }
}

} // verus!
