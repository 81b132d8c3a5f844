//! The item registry: a list of all item definitions, referenced by
//! index.
//!
//! The registry is loaded once at startup from asset definitions and read
//! everywhere else.  It is an explicit value passed to the lookups, so
//! independent sessions (and tests) never share state, and every lookup by
//! a caller-supplied item id reports absence instead of panicking.

use vstd::prelude::*;
use crate::tex_key::TextureKey;

verus! {

/// The type of equipment an item is; an item that is not equipment has no
/// value of this.
#[derive(Clone, Copy, PartialEq, Eq, Debug, Structural)]
pub enum EquipmentType {
    Helmet,
    Body,
    Weapon,
    Ring,
}

/// Equipment-specific item data.
#[derive(Clone, Copy, PartialEq, Eq, Debug, Structural)]
pub struct EquipmentData {
    pub equipment_type: EquipmentType,
    /// The key of the animation used to render this equipment on a
    /// creature; absent for equipment that is never drawn, like rings.
    pub anim_key: Option<TextureKey>,
}

/// One item definition.
pub struct ItemDetails {
    /// Icon in the inventory and other stores.
    pub icon: TextureKey,
    /// Present exactly when the item is a piece of equipment.
    pub equipment_data: Option<EquipmentData>,
    /// Whether the item stacks (up to 99) in the inventory.
    pub stacks: bool,
    pub name: String,
}

/// The item register: all item definitions, referenced by index.
pub struct ItemRegister {
    item_list: Vec<ItemDetails>,
}

/// An item's identity: an index into the item register.
#[derive(Copy, Clone, Debug, PartialOrd, Ord, PartialEq, Eq, Hash, Structural)]
pub struct ItemType(usize);

impl ItemRegister {
    /// The registered definitions, in registration order.
    pub closed spec fn items(self) -> Seq<ItemDetails> {
        self.item_list@
    }

    /// An empty register.
    pub fn new() -> (r: ItemRegister)
        ensures
            r.items() == Seq::<ItemDetails>::empty(),
    {
        ItemRegister { item_list: Vec::new() }
    }

    /// Register one definition; its id is its position.
    pub fn push_item(&mut self, d: ItemDetails) -> (t: ItemType)
        ensures
            final(self).items() == old(self).items().push(d),
            t.index() == old(self).items().len(),
    {
        let ix = self.item_list.len();
        self.item_list.push(d);
        ItemType(ix)
    }
}

impl ItemType {
    /// The item's index in the register, as a specification value.
    pub closed spec fn index(self) -> usize {
        self.0
    }

    /// The texture key of this item's inventory icon, if the id is
    /// registered.
    pub fn get_icon_tex_key(self, reg: &ItemRegister) -> (r: Option<TextureKey>)
        ensures
            r == if self.index() < reg.items().len() {
                Option::Some(reg.items()[self.index() as int].icon)
            } else {
                Option::<TextureKey>::None
            },
    {
        if self.0 < reg.item_list.len() {
            Some(reg.item_list[self.0].icon)
        } else {
            None
        }
    }

    /// The kind of equipment this item is, if it is registered equipment.
    pub fn equipment_type(self, reg: &ItemRegister) -> (r: Option<EquipmentType>)
        ensures
            r == if self.index() < reg.items().len() {
                match reg.items()[self.index() as int].equipment_data {
                    Option::Some(d) => Option::Some(d.equipment_type),
                    Option::None => Option::<EquipmentType>::None,
                }
            } else {
                Option::<EquipmentType>::None
            },
    {
        if self.0 < reg.item_list.len() {
            match reg.item_list[self.0].equipment_data {
                Some(d) => Some(d.equipment_type),
                None => None,
            }
        } else {
            None
        }
    }

    /// The key of the animation for wearing this equipment; absent when
    /// the id is unregistered, the item is not equipment, or the
    /// equipment has no animation (rings, weapons).
    pub fn get_equipment_anim(self, reg: &ItemRegister) -> (r: Option<TextureKey>)
        ensures
            r == if self.index() < reg.items().len() {
                match reg.items()[self.index() as int].equipment_data {
                    Option::Some(d) => d.anim_key,
                    Option::None => Option::<TextureKey>::None,
                }
            } else {
                Option::<TextureKey>::None
            },
    {
        if self.0 < reg.item_list.len() {
            match reg.item_list[self.0].equipment_data {
                Some(d) => d.anim_key,
                None => None,
            }
        } else {
            None
        }
    }

    /// Whether this item stacks in the inventory, if the id is
    /// registered.
    pub fn stacks(self, reg: &ItemRegister) -> (r: Option<bool>)
        ensures
            r == if self.index() < reg.items().len() {
                Option::Some(reg.items()[self.index() as int].stacks)
            } else {
                Option::<bool>::None
            },
    {
        if self.0 < reg.item_list.len() {
            Some(reg.item_list[self.0].stacks)
        } else {
            None
        }
    }
}

/// Equipment data as it appears in item definitions, with assets still
/// referred to by name; `link_assets` resolves the names through the
/// asset table.
pub struct EquipmentDataDef {
    pub equipment_type: EquipmentType,
    pub anim_key: Option<String>,
}

impl EquipmentDataDef {
    /// Resolve the named animation through the asset table.  A named
    /// asset nobody registered is reported, not invented.
    pub fn link_assets(&self, names: &crate::tex_key::AssetNameMap) -> (r: Result<
        EquipmentData,
        (),
    >)
        ensures
            match self.anim_key {
                Option::Some(name) => match names.spec_lookup(name@) {
                    Option::Some(k) => r == Ok::<EquipmentData, ()>(
                        EquipmentData {
                            equipment_type: self.equipment_type,
                            anim_key: Option::Some(k),
                        },
                    ),
                    Option::None => r is Err,
                },
                Option::None => r == Ok::<EquipmentData, ()>(
                    EquipmentData { equipment_type: self.equipment_type, anim_key: Option::None },
                ),
            },
    {
        match &self.anim_key {
            Some(name) => match crate::tex_key::get_asset_by_name(names, name.as_str()) {
                Some(k) => Ok(EquipmentData {
                    equipment_type: self.equipment_type,
                    anim_key: Some(k),
                }),
                None => Err(()),
            },
            None => Ok(EquipmentData { equipment_type: self.equipment_type, anim_key: None }),
        }
    }
}

/// The item type with the given name: a linear search, so it should only
/// be called sparingly or at setup, like when building drop tables.
pub fn get_item_type_with_name(name: &str, reg: &ItemRegister) -> (r: Option<ItemType>)
    ensures
        match r {
            Option::Some(t) => t.index() < reg.items().len() && reg.items()[t.index()
                as int].name@ == name@ && forall|j: int|
                0 <= j < t.index() ==> (#[trigger] reg.items()[j]).name@ != name@,
            Option::None => forall|j: int|
                0 <= j < reg.items().len() ==> (#[trigger] reg.items()[j]).name@ != name@,
        },
{
    let needle: String = name.to_string();
    let n = reg.item_list.len();
    let mut i: usize = 0;
    while i < n
        invariant
            n == reg.items().len(),
            i <= n,
            needle@ == name@,
            forall|j: int| 0 <= j < i ==> (#[trigger] reg.items()[j]).name@ != name@,
        decreases n - i,
    {
        if reg.item_list[i].name == needle {
            return Some(ItemType(i));
        }
        i = i + 1;
    }
    None
}

} // verus!
