//! Mod packs, this application's unit of mod configuration, and the paths
//! of the mods in them.

use vstd::prelude::*;
use vstd::string::StringExecFns;
use vstd::string::StrSliceExecFns;

verus! {

/// One mod of a pack, with the directory it is installed in.
#[derive(Clone, Debug, PartialEq, Eq)]
pub struct ModPackMod {
    pub name: String,
    pub enabled: bool,
    pub path: String,
}

/// What a [`ModPackMod`] holds.
pub struct PackModView {
    pub name: Seq<char>,
    pub enabled: bool,
    pub path: Seq<char>,
}

impl View for ModPackMod {
    type V = PackModView;

    open spec fn view(&self) -> PackModView {
        PackModView { name: self.name@, enabled: self.enabled, path: self.path@ }
    }
}

/// A named list of mods, this application's unit of mod configuration.
#[derive(Clone, Debug, PartialEq, Eq)]
pub struct ModPack {
    pub name: String,
    pub mods: Vec<ModPackMod>,
}

/// What a [`ModPack`] holds.
pub struct PackView {
    pub name: Seq<char>,
    pub mods: Seq<PackModView>,
}

impl View for ModPack {
    type V = PackView;

    open spec fn view(&self) -> PackView {
        PackView { name: self.name@, mods: self.mods@.map_values(|m: ModPackMod| m@) }
    }
}

impl ModPack {
    /// A pack named `name` without mods.
    pub fn new(name: String) -> (out: Self)
        ensures
            out@ == (PackView { name: name@, mods: Seq::empty() }),
    {
        let out = ModPack { name, mods: Vec::new() };
        assert(out@.mods =~= Seq::empty());
        out
    }
}

/// The path of the entry `name` below the directory `root`: `name` alone
/// where it starts at the file system's root or `root` is empty, else the
/// two joined by one `/`.
pub open spec fn join_path(root: Seq<char>, name: Seq<char>) -> Seq<char> {
    if name.len() > 0 && name[0] == '/' {
        name
    } else if root.len() == 0 || root.last() == '/' {
        root + name
    } else {
        root + seq!['/'] + name
    }
}

/// Computes [`join_path`].
pub fn path_below(root: &str, name: &str) -> (out: String)
    ensures
        out@ == join_path(root@, name@),
{
    let root_len = root.unicode_len();
    let name_len = name.unicode_len();
    if name_len > 0 && name.get_char(0) == '/' {
        return String::from_str(name);
    }
    let mut out = String::from_str(root);
    if root_len > 0 && root.get_char(root_len - 1) != '/' {
        out.push('/');
    }
    out.append(name);
    out
}

/// What the packs `packs` hold, in order.
pub open spec fn pack_views(packs: Seq<ModPack>) -> Seq<PackView> {
    packs.map_values(|p: ModPack| p@)
}

} // verus!
