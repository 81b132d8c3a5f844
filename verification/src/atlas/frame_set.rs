//! Frame sets: a list of animations in a sprite sheet.
//!
//! A frame set holds one `Frames` entry per animation; each entry resolves
//! an animation-local frame number to a sheet-wide frame index.  All
//! addressing is checked: an index past the end of an animation is an
//! explicit error, never a silent overflow.

use vstd::prelude::*;
use crate::kvmap::KvMap;

verus! {

/// Failure to resolve an animation frame to a sheet position.
#[derive(Clone, Copy, Debug, PartialEq, Eq, Structural)]
pub enum FrameAddressingError {
    /// The frame set id is not registered.
    MissingFrameSet,
    /// The animation index is past the end of the frame set.
    AnimOutOfRange,
    /// The frame number is past the end of the animation, or past the end
    /// of the sheet grid.
    FrameOutOfRange,
}

/// Draw a fresh frame set id from an explicit counter.  The counter is
/// owned by the caller (normally the atlas builder), not hidden global
/// state, so independent build sessions never share ids.
pub fn gen_new_frame_set_id(next_id: &mut usize) -> (id: usize)
    requires
        *old(next_id) < usize::MAX,
    ensures
        id == *old(next_id),
        *final(next_id) == *old(next_id) + 1,
{
    let id = *next_id;
    *next_id = *next_id + 1;
    id
}

/// A list of frames that can be played, by their ordering scheme.
#[derive(Clone, Copy, Debug, PartialEq, Eq, Structural)]
pub enum Frames {
    /// Frames are ordered from left to right like a book, wrapping at the
    /// edges.  Contains (start, end) sheet-wide frame indices, end
    /// inclusive.
    Ordered(usize, usize),
}

impl Frames {
    /// The sheet-wide index (read like a book) of a frame of this
    /// animation.  A frame number that runs past the inclusive end of the
    /// range is reported as an error.
    pub fn get_frame(&self, frame_num: usize) -> (r: Result<usize, FrameAddressingError>)
        ensures
            match *self {
                Frames::Ordered(start, end) => {
                    &&& r is Ok <==> start + frame_num <= end
                    &&& (r matches Ok(ix) ==> ix == start + frame_num)
                    &&& (r is Err ==> r == Err::<usize, FrameAddressingError>(
                        FrameAddressingError::FrameOutOfRange,
                    ))
                },
            },
    {
        match self {
            Frames::Ordered(start, end) => {
                if *start <= *end && frame_num <= *end - *start {
                    Ok(*start + frame_num)
                } else {
                    Err(FrameAddressingError::FrameOutOfRange)
                }
            },
        }
    }
}

/// A named list of animations: one `Frames` entry per animation.
pub struct FrameSet {
    pub frames: Vec<Frames>,
}

/// A table of frame sets, keyed by the id the builder assigned.
pub struct FrameSetMap {
    map: KvMap<FrameSet>,
}

impl FrameSetMap {
    /// The table's keys are unique.
    pub closed spec fn wf(self) -> bool {
        self.map.wf()
    }

    /// An empty table.
    pub fn new() -> (r: FrameSetMap)
        ensures
            r.wf(),
            r@ == Map::<usize, FrameSet>::empty(),
    {
        FrameSetMap { map: KvMap::new() }
    }

    /// Bind an id to a frame set, overwriting any existing binding.
    pub fn insert(&mut self, id: usize, f: FrameSet)
        requires
            old(self).wf(),
        ensures
            final(self).wf(),
            final(self)@ == old(self)@.insert(id, f),
    {
        self.map.insert(id, f);
    }

    /// Look an id up; a missing id is reported, never invented.
    pub fn get(&self, id: usize) -> (r: Option<&FrameSet>)
        requires
            self.wf(),
        ensures
            match r {
                Some(f) => self@.contains_key(id) && *f == self@[id],
                None => !self@.contains_key(id),
            },
    {
        self.map.get(id)
    }
}

impl View for FrameSetMap {
    type V = Map<usize, FrameSet>;

    closed spec fn view(&self) -> Map<usize, FrameSet> {
        self.map@
    }
}

/// How the frames of one animation entry are laid out in the sheet.
#[derive(Clone, Copy, Debug, PartialEq, Eq, Structural)]
pub enum FrameSetEntryType {
    Ordered,
}

/// One animation entry of a frame set definition, as read from asset
/// definitions: an ordering scheme and an inclusive index range.
#[derive(Clone, Copy, Debug, PartialEq, Eq, Structural)]
pub struct FrameSetEntry {
    pub entry_type: FrameSetEntryType,
    pub start: usize,
    pub end: usize,
}

impl FrameSetEntry {
    /// Convert this to a `Frames` value, used for frame sets.
    pub fn to_frames(&self) -> (r: Frames)
        ensures
            r == Frames::Ordered(self.start, self.end),
    {
        match self.entry_type {
            FrameSetEntryType::Ordered => Frames::Ordered(self.start, self.end),
        }
    }
}

} // verus!
