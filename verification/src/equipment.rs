//! Equipment kinds and their worn-animation lookups.

use vstd::prelude::*;
use crate::tex_key::AssetNameMap;
use crate::tex_key::TextureKey;
use crate::tex_key::get_asset_by_name;

verus! {

pub enum Helmet {
    BronzeHelmet,
}

impl Helmet {
    /// The key of the animation used to draw this helmet on a creature,
    /// if the asset is registered.
    pub fn get_anim_key(&self, names: &AssetNameMap) -> (r: Option<TextureKey>)
        ensures
            r == names.spec_lookup("BronzeHelmetAnim"@),
    {
        match self {
            Helmet::BronzeHelmet => get_asset_by_name(names, "BronzeHelmetAnim"),
        }
    }
}

} // verus!
