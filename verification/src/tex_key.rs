//! Texture keys and the asset name table.
//!
//! Textures are addressed by an opaque integer key.  Asset definitions
//! refer to assets by name, so a name-to-key table is built once at load
//! time; lookups report absence instead of panicking.

use vstd::prelude::*;

verus! {

/// An opaque runtime key for a texture packed in the atlas.
pub type TextureKey = usize;

/// The key bound to a name in a sequence of bindings, front to back:
/// the binding nearest the front wins.
pub open spec fn lookup_name(s: Seq<(String, TextureKey)>, name: Seq<char>) -> Option<
    TextureKey,
>
    decreases s.len(),
{
    if s.len() == 0 {
        Option::None
    } else if s[0].0@ == name {
        Option::Some(s[0].1)
    } else {
        lookup_name(s.drop_first(), name)
    }
}

/// The table of asset names, filled by the asset loader and then read by
/// everything that refers to assets by name.
pub struct AssetNameMap {
    entries: Vec<(String, TextureKey)>,
}

impl AssetNameMap {
    /// The key bound to a name, as a specification value.
    pub closed spec fn spec_lookup(self, name: Seq<char>) -> Option<TextureKey> {
        lookup_name(self.entries@, name)
    }

    /// An empty table.
    pub fn new() -> (r: AssetNameMap)
        ensures
            forall|n: Seq<char>| #[trigger] r.spec_lookup(n) is None,
    {
        AssetNameMap { entries: Vec::new() }
    }

    /// Bind a name to a key, shadowing any earlier binding of the name.
    pub fn insert(&mut self, name: String, key: TextureKey)
        ensures
            forall|n: Seq<char>| #[trigger]
                final(self).spec_lookup(n) == if n == name@ {
                    Option::Some(key)
                } else {
                    old(self).spec_lookup(n)
                },
    {
        self.entries.insert(0, (name, key));
        proof {
            assert forall|n: Seq<char>| #[trigger]
                final(self).spec_lookup(n) == if n == name@ {
                    Option::<TextureKey>::Some(key)
                } else {
                    old(self).spec_lookup(n)
                } by {
                assert(self.entries@.drop_first() =~= old(self).entries@);
            }
        }
    }
}

/// The key registered for an asset name; a name nobody registered is
/// reported as absent, never invented.
pub fn get_asset_by_name(names: &AssetNameMap, name: &str) -> (r: Option<TextureKey>)
    ensures
        r == names.spec_lookup(name@),
{
    let needle: String = name.to_string();
    let n = names.entries.len();
    let mut i: usize = 0;
    proof {
        assert(names.entries@.skip(0) =~= names.entries@);
    }
    while i < n
        invariant
            n == names.entries@.len(),
            i <= n,
            needle@ == name@,
            lookup_name(names.entries@.skip(i as int), name@) == names.spec_lookup(name@),
        decreases n - i,
    {
        proof {
            assert(names.entries@.skip(i as int).drop_first() =~= names.entries@.skip(
                i as int + 1,
            ));
            assert(names.entries@.skip(i as int)[0] == names.entries@[i as int]);
        }
        if names.entries[i].0 == needle {
            return Some(names.entries[i].1);
        }
        i = i + 1;
    }
    proof {
        assert(names.entries@.skip(n as int) =~= Seq::<(String, TextureKey)>::empty());
    }
    None
}

} // verus!
