//! The version descriptor resolver: walks a child-to-parent inheritance
//! chain, detecting revisits, and resolves the inherited fields — main
//! class, asset index, Java requirement — first found wins, so a child's
//! value always beats its ancestors'.
//!
//! Loading each descriptor from disk is the shell's work; the walker here
//! decides which identifier to load next and rejects a cyclic chain, and
//! the resolution functions work on the loaded chain.

use vstd::prelude::*;
use crate::errors::LauncherError;
use crate::models::{AssetIndex, VersionEntry};
use crate::strutil::{in_list, list_contains, views};

verus! {

/// The first main class set along the chain, child first.
pub open spec fn first_main_class(chain: Seq<VersionEntry>) -> Option<Seq<char>>
    decreases chain.len(),
{
    if chain.len() == 0 {
        None
    } else {
        match chain[0].descriptor.main_class {
            Some(m) => Some(m@),
            None => first_main_class(chain.drop_first()),
        }
    }
}

/// The first asset index set along the chain, child first.
pub open spec fn first_asset_index(chain: Seq<VersionEntry>) -> Option<AssetIndex>
    decreases chain.len(),
{
    if chain.len() == 0 {
        None
    } else {
        match chain[0].descriptor.asset_index {
            Some(a) => Some(a),
            None => first_asset_index(chain.drop_first()),
        }
    }
}

/// The first explicit Java requirement set along the chain, child first.
pub open spec fn first_java_major(chain: Seq<VersionEntry>) -> Option<u32>
    decreases chain.len(),
{
    if chain.len() == 0 {
        None
    } else {
        match chain[0].descriptor.java_version {
            Some(j) => Some(j.major_version),
            None => first_java_major(chain.drop_first()),
        }
    }
}

/// The resolved main class of a chain: the child's value wins over every
/// ancestor's.
pub fn resolved_main_class(chain: &Vec<VersionEntry>) -> (r: Option<&String>)
    ensures
        match r {
            Some(m) => first_main_class(chain@) == Some(m@),
            None => first_main_class(chain@) is None,
        },
{
    let mut i: usize = 0;
    proof {
        assert(chain@.skip(0) =~= chain@);
    }
    while i < chain.len()
        invariant
            0 <= i <= chain@.len(),
            first_main_class(chain@) == first_main_class(chain@.skip(i as int)),
        decreases chain@.len() - i,
    {
        proof {
            assert(chain@.skip(i as int)[0] == chain@[i as int]);
            assert(chain@.skip(i as int).drop_first() =~= chain@.skip(i + 1));
        }
        if let Some(m) = &chain[i].descriptor.main_class {
            return Some(m);
        }
        i += 1;
    }
    None
}

/// The resolved asset index of a chain, child first.
pub fn resolved_asset_index(chain: &Vec<VersionEntry>) -> (r: Option<&AssetIndex>)
    ensures
        match r {
            Some(a) => first_asset_index(chain@) == Some(*a),
            None => first_asset_index(chain@) is None,
        },
{
    let mut i: usize = 0;
    proof {
        assert(chain@.skip(0) =~= chain@);
    }
    while i < chain.len()
        invariant
            0 <= i <= chain@.len(),
            first_asset_index(chain@) == first_asset_index(chain@.skip(i as int)),
        decreases chain@.len() - i,
    {
        proof {
            assert(chain@.skip(i as int)[0] == chain@[i as int]);
            assert(chain@.skip(i as int).drop_first() =~= chain@.skip(i + 1));
        }
        if let Some(a) = &chain[i].descriptor.asset_index {
            return Some(a);
        }
        i += 1;
    }
    None
}

/// The resolved explicit Java requirement of a chain, child first.
pub fn resolved_java_major(chain: &Vec<VersionEntry>) -> (r: Option<u32>)
    ensures
        r == first_java_major(chain@),
{
    let mut i: usize = 0;
    proof {
        assert(chain@.skip(0) =~= chain@);
    }
    while i < chain.len()
        invariant
            0 <= i <= chain@.len(),
            first_java_major(chain@) == first_java_major(chain@.skip(i as int)),
        decreases chain@.len() - i,
    {
        proof {
            assert(chain@.skip(i as int)[0] == chain@[i as int]);
            assert(chain@.skip(i as int).drop_first() =~= chain@.skip(i + 1));
        }
        if let Some(j) = &chain[i].descriptor.java_version {
            return Some(j.major_version);
        }
        i += 1;
    }
    None
}

/// The decision when a version descriptor fails to load while the chain is
/// walked, `loaded` being how many descriptors were loaded before it: a
/// missing starting version is fatal (`NotFound`); a missing ancestor
/// merely ends the chain early, tolerating partially-downloaded loader
/// profiles.
pub fn on_missing_descriptor(loaded: usize) -> (r: Result<(), LauncherError>)
    ensures
        r is Ok <==> loaded > 0,
        r matches Err(e) ==> e is NotFound,
{
    if loaded == 0 {
        Err(LauncherError::NotFound)
    } else {
        Ok(())
    }
}

/// Tracks the identifiers already loaded while a chain is walked, so that a
/// cyclic `inheritsFrom` chain is caught instead of looped.
pub struct ChainWalker {
    visited: Vec<String>,
}

impl ChainWalker {
    /// The identifiers visited so far, in visiting order.
    pub closed spec fn visited_ids(&self) -> Seq<Seq<char>> {
        views(self.visited@)
    }

    /// A fresh walker that has visited nothing.
    pub fn new() -> (r: Self)
        ensures
            r.visited_ids() == Seq::<Seq<char>>::empty(),
    {
        let w = ChainWalker { visited: Vec::new() };
        proof {
            assert(w.visited_ids() =~= Seq::<Seq<char>>::empty());
        }
        w
    }

    /// Records one identifier about to be loaded. A revisit means the
    /// `inheritsFrom` chain is cyclic: the walk stops with `Malformed` and
    /// the walker is unchanged.
    pub fn visit(&mut self, id: &str) -> (r: Result<(), LauncherError>)
        ensures
            match r {
                Ok(()) => !old(self).visited_ids().contains(id@) && final(self).visited_ids()
                    == old(self).visited_ids().push(id@),
                Err(e) => old(self).visited_ids().contains(id@) && e is Malformed
                    && final(self).visited_ids() == old(self).visited_ids(),
            },
{
        proof {
            if in_list(self.visited@, id@) {
                let w = choose|w: int|
                    0 <= w < self.visited@.len() && self.visited@[w]@ == id@;
                assert(self.visited_ids()[w] == id@);
            }
            if self.visited_ids().contains(id@) {
                let w = choose|w: int|
                    0 <= w < self.visited_ids().len() && self.visited_ids()[w] == id@;
                assert(self.visited@[w]@ == id@);
            }
        }
        if list_contains(&self.visited, id) {
            return Err(LauncherError::Malformed);
        }
        let owned = id.to_owned();
        self.visited.push(owned);
        proof {
            assert(self.visited_ids() =~= old(self).visited_ids().push(id@));
        }
        Ok(())
    }
}

} // verus!
