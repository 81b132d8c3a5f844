//! Keys and entries for drop tables.  The probability-weighted selection
//! itself belongs to the random-number layer outside this crate; these
//! are the plain values it works over.

use vstd::prelude::*;
use crate::item::ItemType;

verus! {

/// A key for accessing drop tables.
#[derive(Copy, Clone, Debug, PartialOrd, Ord, PartialEq, Eq, Structural)]
pub enum DropTableKey {
    /// Drop table for slimes.
    Slime,
}

/// A possible drop.
#[derive(Copy, Clone, Debug, PartialEq, Eq, Structural)]
pub struct Drop {
    pub item: ItemType,
    /// The minimum number of items in this stack (inclusive).
    pub min_num: u8,
    /// The maximum number of items in this stack (exclusive).
    pub max_num: u8,
}

} // verus!
