//! The player's inventory: an ordered list of item stacks plus four
//! equipment slots.

use vstd::prelude::*;
use crate::item::EquipmentType;
use crate::item::ItemRegister;
use crate::item::ItemType;
use crate::ui::InventorySlotRef;

verus! {

pub const INVENTORY_SIZE: usize = 18;

/// An item stack in the inventory.  Each slot holds up to 99 items; a
/// count of 0 is a bad state and is excluded.
#[derive(Copy, Clone, Debug, PartialEq, Eq, Structural)]
pub struct InventoryItem {
    pub item_type: ItemType,
    pub num: u8,
}

impl InventoryItem {
    pub fn new(item_type: ItemType, num: u8) -> (r: InventoryItem)
        requires
            0 < num < 100,
        ensures
            r.item_type == item_type,
            r.num == num,
    {
        InventoryItem { item_type, num }
    }
}

/// A slot holds a valid stack or is empty.
pub open spec fn slot_ok(s: Option<InventoryItem>) -> bool {
    match s {
        Option::Some(it) => 0 < it.num < 100,
        Option::None => true,
    }
}

/// Stack `item` onto an existing slot: same item type, and the combined
/// count stays under 100.
pub open spec fn stackable_at(
    items: Seq<Option<InventoryItem>>,
    item: InventoryItem,
    i: int,
) -> bool {
    match items[i] {
        Option::Some(it) => it.item_type == item.item_type && it.num + item.num < 100,
        Option::None => false,
    }
}

/// `i` is the first slot `item` stacks onto.
pub open spec fn is_first_stack(
    items: Seq<Option<InventoryItem>>,
    item: InventoryItem,
    i: int,
) -> bool {
    &&& 0 <= i < items.len()
    &&& stackable_at(items, item, i)
    &&& forall|j: int| 0 <= j < i ==> !stackable_at(items, item, j)
}

/// `i` is the first empty slot.
pub open spec fn is_first_empty(items: Seq<Option<InventoryItem>>, i: int) -> bool {
    &&& 0 <= i < items.len()
    &&& items[i] is None
    &&& forall|j: int| 0 <= j < i ==> items[j] is Some
}

/// The item type can go in the slot: anything fits a bag slot, and an
/// equipment slot only takes equipment of its kind.
pub open spec fn can_place_spec(
    slot: InventorySlotRef,
    equipment_type: Option<EquipmentType>,
) -> bool {
    match slot {
        InventorySlotRef::Inventory(_) => true,
        InventorySlotRef::Helmet => equipment_type == Option::Some(EquipmentType::Helmet),
        InventorySlotRef::Body => equipment_type == Option::Some(EquipmentType::Body),
        InventorySlotRef::Weapon => equipment_type == Option::Some(EquipmentType::Weapon),
        InventorySlotRef::Ring => equipment_type == Option::Some(EquipmentType::Ring),
    }
}

/// The player's inventory.  This is an ordered structure, because the
/// order of items in the inventory is important to the player.
#[derive(Clone, Debug)]
pub struct Inventory {
    /// The items in this inventory; `None` marks an empty slot.
    pub items: Vec<Option<InventoryItem>>,
    pub helmet: Option<InventoryItem>,
    pub body: Option<InventoryItem>,
    pub weapon: Option<InventoryItem>,
    pub ring: Option<InventoryItem>,
}

impl Inventory {
    /// The bag has its fixed size and every slot holds a valid stack.
    pub open spec fn wf(self) -> bool {
        &&& self.items@.len() == INVENTORY_SIZE
        &&& forall|i: int| 0 <= i < self.items@.len() ==> slot_ok(#[trigger] self.items@[i])
        &&& slot_ok(self.helmet)
        &&& slot_ok(self.body)
        &&& slot_ok(self.weapon)
        &&& slot_ok(self.ring)
    }

    /// An empty inventory.
    pub fn new() -> (r: Inventory)
        ensures
            r.wf(),
            forall|i: int| 0 <= i < INVENTORY_SIZE ==> (#[trigger] r.items@[i]) is None,
            r.helmet is None,
            r.body is None,
            r.weapon is None,
            r.ring is None,
    {
        let mut items: Vec<Option<InventoryItem>> = Vec::new();
        let mut i: usize = 0;
        while i < INVENTORY_SIZE
            invariant
                i <= INVENTORY_SIZE,
                items@.len() == i,
                forall|j: int| 0 <= j < i ==> (#[trigger] items@[j]) is None,
            decreases INVENTORY_SIZE - i,
        {
            items.push(None);
            i = i + 1;
        }
        Inventory { items, helmet: None, body: None, weapon: None, ring: None }
    }

    /// Add an item to the inventory, stacking onto the first matching
    /// stack if possible, otherwise into the first open slot; reports
    /// failure when the inventory is full.
    pub fn add_item(&mut self, item: InventoryItem) -> (r: bool)
        requires
            old(self).wf(),
            0 < item.num < 100,
        ensures
            final(self).wf(),
            final(self).helmet == old(self).helmet,
            final(self).body == old(self).body,
            final(self).weapon == old(self).weapon,
            final(self).ring == old(self).ring,
            r <==> ((exists|i: int|
                0 <= i < old(self).items@.len() && stackable_at(old(self).items@, item, i))
                || (exists|i: int|
                0 <= i < old(self).items@.len() && (#[trigger] old(self).items@[i]) is None)),
            (exists|i: int|
                0 <= i < old(self).items@.len() && stackable_at(old(self).items@, item, i))
                ==> (exists|i: int|
                {
                    &&& #[trigger] is_first_stack(old(self).items@, item, i)
                    &&& final(self).items@ == old(self).items@.update(
                        i,
                        Option::Some(
                            InventoryItem {
                                item_type: old(self).items@[i]->Some_0.item_type,
                                num: (old(self).items@[i]->Some_0.num + item.num) as u8,
                            },
                        ),
                    )
                }),
            (!(exists|i: int|
                0 <= i < old(self).items@.len() && stackable_at(old(self).items@, item, i))
                && (exists|i: int|
                0 <= i < old(self).items@.len() && (#[trigger] old(self).items@[i]) is None))
                ==> (exists|i: int|
                {
                    &&& #[trigger] is_first_empty(old(self).items@, i)
                    &&& final(self).items@ == old(self).items@.update(i, Option::Some(item))
                }),
            !r ==> *final(self) == *old(self),
    {
        // First check for places to stack.
        let n = self.items.len();
        let mut i: usize = 0;
        while i < n
            invariant
                *self == *old(self),
                old(self).wf(),
                0 < item.num < 100,
                n == self.items@.len(),
                i <= n,
                forall|j: int| 0 <= j < i ==> !stackable_at(self.items@, item, j),
            decreases n - i,
        {
            let stack = match self.items[i] {
                Some(it) => it.item_type == item.item_type && it.num + item.num < 100,
                None => false,
            };
            if stack {
                let it = match self.items[i] {
                    Some(it) => it,
                    None => item,
                };
                self.items[i] = Some(InventoryItem {
                    item_type: it.item_type,
                    num: it.num + item.num,
                });
                proof {
                    assert(is_first_stack(old(self).items@, item, i as int));
                }
                return true;
            }
            i = i + 1;
        }

        // Then just check for open slots.
        let mut i: usize = 0;
        while i < n
            invariant
                *self == *old(self),
                old(self).wf(),
                0 < item.num < 100,
                n == self.items@.len(),
                i <= n,
                forall|j: int| 0 <= j < n ==> !stackable_at(self.items@, item, j),
                forall|j: int| 0 <= j < i ==> (#[trigger] self.items@[j]) is Some,
            decreases n - i,
        {
            let empty = match self.items[i] {
                Some(_) => false,
                None => true,
            };
            if empty {
                self.items[i] = Some(item);
                proof {
                    assert(is_first_empty(old(self).items@, i as int));
                }
                return true;
            }
            i = i + 1;
        }

        false
    }

    /// The item type in a slot, if any.
    pub fn get_item_type(&self, slot: InventorySlotRef) -> (r: Option<ItemType>)
        requires
            self.wf(),
            slot matches InventorySlotRef::Inventory(i) ==> i < INVENTORY_SIZE,
        ensures
            r == match self.slot_spec(slot) {
                Option::Some(it) => Option::Some(it.item_type),
                Option::None => Option::<ItemType>::None,
            },
    {
        let s = match slot {
            InventorySlotRef::Inventory(i) => self.items[i],
            InventorySlotRef::Helmet => self.helmet,
            InventorySlotRef::Body => self.body,
            InventorySlotRef::Weapon => self.weapon,
            InventorySlotRef::Ring => self.ring,
        };
        match s {
            Some(it) => Some(it.item_type),
            None => None,
        }
    }

    /// What a slot holds.
    pub open spec fn slot_spec(self, slot: InventorySlotRef) -> Option<InventoryItem> {
        match slot {
            InventorySlotRef::Inventory(i) => self.items@[i as int],
            InventorySlotRef::Helmet => self.helmet,
            InventorySlotRef::Body => self.body,
            InventorySlotRef::Weapon => self.weapon,
            InventorySlotRef::Ring => self.ring,
        }
    }

    /// Take an item from a slot, leaving the slot empty and returning the
    /// item.
    pub fn take_item(&mut self, slot: InventorySlotRef) -> (r: Option<InventoryItem>)
        requires
            old(self).wf(),
            slot matches InventorySlotRef::Inventory(i) ==> i < INVENTORY_SIZE,
        ensures
            final(self).wf(),
            r == old(self).slot_spec(slot),
            final(self).slot_spec(slot) is None,
            forall|other: InventorySlotRef|
                other != slot && (other matches InventorySlotRef::Inventory(i) ==> i
                    < INVENTORY_SIZE) ==> #[trigger] final(self).slot_spec(other)
                    == old(self).slot_spec(other),
    {
        let tmp = match slot {
            InventorySlotRef::Inventory(i) => self.items[i],
            InventorySlotRef::Helmet => self.helmet,
            InventorySlotRef::Body => self.body,
            InventorySlotRef::Weapon => self.weapon,
            InventorySlotRef::Ring => self.ring,
        };
        match slot {
            InventorySlotRef::Inventory(i) => {
                self.items[i] = None;
            },
            InventorySlotRef::Helmet => {
                self.helmet = None;
            },
            InventorySlotRef::Body => {
                self.body = None;
            },
            InventorySlotRef::Weapon => {
                self.weapon = None;
            },
            InventorySlotRef::Ring => {
                self.ring = None;
            },
        }
        tmp
    }

    /// Whether the item type can go in the slot.  This has no regard for
    /// the current stack size; it only checks kinds (only helmets in the
    /// helmet slot).
    pub fn can_place_item(&self, slot: InventorySlotRef, item_type: ItemType, reg:
        &ItemRegister) -> (r: bool)
        ensures
            r == can_place_spec(
                slot,
                if item_type.index() < reg.items().len() {
                    match reg.items()[item_type.index() as int].equipment_data {
                        Option::Some(d) => Option::Some(d.equipment_type),
                        Option::None => Option::<EquipmentType>::None,
                    }
                } else {
                    Option::<EquipmentType>::None
                },
            ),
    {
        match slot {
            InventorySlotRef::Inventory(_) => true,
            InventorySlotRef::Helmet => matches!(
                item_type.equipment_type(reg),
                Some(EquipmentType::Helmet)
            ),
            InventorySlotRef::Body => matches!(
                item_type.equipment_type(reg),
                Some(EquipmentType::Body)
            ),
            InventorySlotRef::Weapon => matches!(
                item_type.equipment_type(reg),
                Some(EquipmentType::Weapon)
            ),
            InventorySlotRef::Ring => matches!(
                item_type.equipment_type(reg),
                Some(EquipmentType::Ring)
            ),
        }
    }

    /// Overwrite the given slot with an item, checking item kinds for
    /// equipment slots.  Returns the item that was overwritten (`None` if
    /// there was none); if the kind check failed, returns `Err(())` and
    /// changes nothing.
    pub fn set_item(
        &mut self,
        slot: InventorySlotRef,
        item: Option<InventoryItem>,
        reg: &ItemRegister,
    ) -> (r: Result<Option<InventoryItem>, ()>)
        requires
            old(self).wf(),
            slot matches InventorySlotRef::Inventory(i) ==> i < INVENTORY_SIZE,
            slot_ok(item),
        ensures
            final(self).wf(),
            ({
                let placeable = match item {
                    Option::Some(it) => can_place_spec(
                        slot,
                        if it.item_type.index() < reg.items().len() {
                            match reg.items()[it.item_type.index() as int].equipment_data {
                                Option::Some(d) => Option::Some(d.equipment_type),
                                Option::None => Option::<EquipmentType>::None,
                            }
                        } else {
                            Option::<EquipmentType>::None
                        },
                    ),
                    Option::None => true,
                };
                &&& placeable <==> r is Ok
                &&& r is Err ==> *final(self) == *old(self)
                &&& r matches Ok(prev) ==> prev == old(self).slot_spec(slot)
                    && final(self).slot_spec(slot) == item && (forall|other: InventorySlotRef|
                    other != slot && (other matches InventorySlotRef::Inventory(i) ==> i
                        < INVENTORY_SIZE) ==> #[trigger] final(self).slot_spec(other)
                        == old(self).slot_spec(other))
            }),
    {
        let placeable = match &item {
            Some(it) => self.can_place_item(slot, it.item_type, reg),
            None => true,
        };
        if !placeable {
            return Err(());
        }
        let tmp = match slot {
            InventorySlotRef::Inventory(i) => self.items[i],
            InventorySlotRef::Helmet => self.helmet,
            InventorySlotRef::Body => self.body,
            InventorySlotRef::Weapon => self.weapon,
            InventorySlotRef::Ring => self.ring,
        };
        match slot {
            InventorySlotRef::Inventory(i) => {
                self.items[i] = item;
            },
            InventorySlotRef::Helmet => {
                self.helmet = item;
            },
            InventorySlotRef::Body => {
                self.body = item;
            },
            InventorySlotRef::Weapon => {
                self.weapon = item;
            },
            InventorySlotRef::Ring => {
                self.ring = item;
            },
        }
        Ok(tmp)
    }
}

} // verus!
