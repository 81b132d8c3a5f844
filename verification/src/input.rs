//! Commands issued as a result of player input.  The mapping from raw
//! window events to commands lives with the windowing layer; the
//! simulation only sees commands.

use vstd::prelude::*;

verus! {

/// A command to be issued as a result of some input.
#[derive(Debug, Clone, Copy, PartialEq, Eq, Hash, Structural)]
pub enum Command {
    MoveLeft,
    MoveRight,
    MoveDown,
    MoveUp,
    /// Used to attack, but also to navigate through dialogues.
    Primary,
    ToggleInventory,
}

} // verus!
