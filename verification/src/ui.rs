//! User interface state shared between the update and render layers.

use vstd::prelude::*;

verus! {

/// A reference into the inventory: either a numbered bag slot or one of
/// the equipment slots.
#[derive(Copy, Clone, Debug, PartialEq, Eq, Structural)]
pub enum InventorySlotRef {
    Inventory(usize),
    Helmet,
    Body,
    Weapon,
    Ring,
}

} // verus!
