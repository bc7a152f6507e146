//! Import of loadouts from another mod manager's configuration: converting
//! chosen loadouts into mod packs, deriving the load order and applying
//! first-run setup.

use vstd::prelude::*;
use vstd::string::StringExecFns;
use crate::config::DivaConfig;
use crate::listing::choices;
use crate::listing::chosen_loadouts;
use crate::listing::chosen_names;
use crate::listing::Loadout;
use crate::modpacks::join_path;
use crate::modpacks::pack_views;
use crate::modpacks::path_below;
use crate::modpacks::ModPack;
use crate::modpacks::ModPackMod;
use crate::modpacks::PackModView;
use crate::modpacks::PackView;
use crate::namemap::NameMap;
use crate::namemap::value_of;
use crate::text::same_text;
use crate::text::texts;

verus! {

/// The file name that `filenamify::filenamify` makes of a text.
pub uninterp spec fn filenamified(name: Seq<char>) -> Seq<char>;

/// Calls `filenamify::filenamify`, which replaces what a file name may not
/// hold. The result depends on the text alone and is only named here.
#[verifier::external_body]
pub(crate) fn safe_file_name(name: &str) -> (out: String)
    ensures
        out@ == filenamified(name@),
{
    filenamify::filenamify(name)
}

/// One mod of a loadout, as the other manager records it.
#[derive(Debug, PartialEq, Eq)]
pub struct DmmLoadoutMod {
    pub name: String,
    pub enabled: bool,
}

/// What a [`DmmLoadoutMod`] holds.
pub struct LoadoutModView {
    pub name: Seq<char>,
    pub enabled: bool,
}

impl View for DmmLoadoutMod {
    type V = LoadoutModView;

    open spec fn view(&self) -> LoadoutModView {
        LoadoutModView { name: self.name@, enabled: self.enabled }
    }
}

impl Clone for DmmLoadoutMod {
    fn clone(&self) -> (out: Self)
        ensures
            out == *self,
    {
        DmmLoadoutMod { name: self.name.clone(), enabled: self.enabled }
    }
}

/// What the mods `mods` of a loadout hold, in order.
pub open spec fn mods_view(mods: Seq<DmmLoadoutMod>) -> Seq<LoadoutModView> {
    mods.map_values(|m: DmmLoadoutMod| m@)
}

/// The settings of one game profile. `loadouts` maps a loadout's name to its
/// mods.
#[derive(Clone, Debug, PartialEq, Eq)]
pub struct DmmPDMMConfig {
    pub launcher: Option<String>,
    pub game_path: Option<String>,
    pub mods_folder: Option<String>,
    pub current_loadout: Option<String>,
    pub loadouts: NameMap<Vec<DmmLoadoutMod>>,
}

/// The other manager's configuration. `configs` maps a game profile's name to
/// its settings.
#[derive(Clone, Debug, PartialEq, Eq)]
pub struct DmmConfig {
    pub current_game: String,
    pub configs: NameMap<DmmPDMMConfig>,
}

impl DmmLoadoutMod {
    /// This mod as a pack's mod, installed below `mods_dir`.
    pub fn to_packmod(&self, mods_dir: &str) -> (out: ModPackMod)
        ensures
            out@ == pack_mod_of(self@, mods_dir@),
    {
        ModPackMod {
            name: self.name.clone(),
            enabled: self.enabled,
            path: path_below(mods_dir, self.name.as_str()),
        }
    }
}

/// The pack's mod that stands for the loadout's mod `m` installed below
/// `root`.
pub open spec fn pack_mod_of(m: LoadoutModView, root: Seq<char>) -> PackModView {
    PackModView { name: m.name, enabled: m.enabled, path: join_path(root, m.name) }
}

/// The pack that a loadout named `name` with the mods `mods` becomes: named
/// by the file name of `name`, it holds the enabled mods alone, in their
/// order, each installed below `root`.
pub open spec fn converted(name: Seq<char>, mods: Seq<LoadoutModView>, root: Seq<char>) -> PackView {
    PackView {
        name: filenamified(name),
        mods: mods.filter(|m: LoadoutModView| m.enabled).map_values(
            |m: LoadoutModView| pack_mod_of(m, root),
        ),
    }
}

/// Every mod of a converted pack is enabled and lies below `root` under its
/// own name: conversion keeps no disabled mod and invents none.
pub proof fn converted_mods_are_enabled(
    name: Seq<char>,
    mods: Seq<LoadoutModView>,
    root: Seq<char>,
    i: int,
)
    requires
        0 <= i < converted(name, mods, root).mods.len(),
    ensures
        converted(name, mods, root).mods[i].enabled,
        converted(name, mods, root).mods[i].path == join_path(
            root,
            converted(name, mods, root).mods[i].name,
        ),
        exists|k: int|
            0 <= k < mods.len() && mods[k].enabled && mods[k].name == converted(
                name,
                mods,
                root,
            ).mods[i].name,
        converted(name, mods, root).mods.len() <= mods.len(),
{
    let enabled = |m: LoadoutModView| m.enabled;
    let kept = mods.filter(enabled);
    mods.lemma_filter_pred(enabled, i);
    mods.lemma_filter_len(enabled);
    assert(kept.contains(kept[i]));
    mods.lemma_filter_contains_rev(enabled, kept[i]);
    let k = choose|k: int| 0 <= k < mods.len() && mods[k] == kept[i];
    assert(mods[k].enabled && mods[k].name == converted(name, mods, root).mods[i].name);
}

/// Converts a loadout into a pack. Disabled mods are left out.
pub fn convert(name: &str, mods: &Vec<DmmLoadoutMod>, game_install_root: &str) -> (pack: ModPack)
    ensures
        pack@ == converted(name@, mods_view(mods@), game_install_root@),
{
    let mut kept: Vec<ModPackMod> = Vec::new();
    let ghost enabled = |m: LoadoutModView| m.enabled;
    let ghost install = |m: LoadoutModView| pack_mod_of(m, game_install_root@);
    let ghost all = mods_view(mods@);
    assert(all.take(0).filter(enabled).map_values(install) =~= kept@.map_values(
        |m: ModPackMod| m@,
    )) by {
        reveal(Seq::filter);
    }
    for i in 0..mods.len()
        invariant
            all == mods_view(mods@),
            enabled == |m: LoadoutModView| m.enabled,
            install == |m: LoadoutModView| pack_mod_of(m, game_install_root@),
            kept@.map_values(|m: ModPackMod| m@) == all.take(i as int).filter(enabled).map_values(
                install,
            ),
    {
        let ghost before = kept@;
        proof {
            all.lemma_take_succ_push(i as int);
            all.take(i as int).lemma_filter_push(all[i as int], enabled);
        }
        if mods[i].enabled {
            kept.push(mods[i].to_packmod(game_install_root));
            proof {
                let kept_before = all.take(i as int).filter(enabled);
                kept_before.lemma_push_map_commute(install, all[i as int]);
                assert(kept@.map_values(|m: ModPackMod| m@) =~= before.map_values(
                    |m: ModPackMod| m@,
                ).push(kept@.last()@));
            }
        }
    }
    assert(all.take(mods.len() as int) =~= all);
    ModPack { name: safe_file_name(name), mods: kept }
}


/// The packs that the chosen loadouts become: one for each chosen name that
/// the profile's `loadouts` hold, in the order of `chosen`, installed below
/// `root`.
pub open spec fn packs_of(
    loadouts: Seq<(Seq<char>, Vec<DmmLoadoutMod>)>,
    chosen: Seq<Seq<char>>,
    root: Seq<char>,
) -> Seq<PackView> {
    chosen.filter(|n: Seq<char>| value_of(loadouts, n) is Some).map_values(
        |n: Seq<char>|
            match value_of(loadouts, n) {
                Some(mods) => converted(n, mods_view(mods@), root),
                None => converted(n, Seq::empty(), root),
            },
    )
}

/// Converts each chosen loadout that `profile` holds into a pack. Two
/// loadouts with one file name give two packs of one name, in the order in
/// which they were chosen: whoever stores them lets the later one win.
pub fn convert_chosen(profile: &DmmPDMMConfig, chosen: &Vec<String>, game_install_root: &str) -> (packs:
    Vec<ModPack>)
    ensures
        pack_views(packs@) == packs_of(profile.loadouts@, texts(chosen@), game_install_root@),
{
    let mut packs: Vec<ModPack> = Vec::new();
    let ghost loadouts = profile.loadouts@;
    let ghost held = |n: Seq<char>| value_of(loadouts, n) is Some;
    let ghost pack = |n: Seq<char>|
        match value_of(loadouts, n) {
            Some(mods) => converted(n, mods_view(mods@), game_install_root@),
            None => converted(n, Seq::empty(), game_install_root@),
        };
    let ghost all = texts(chosen@);
    assert(all.take(0).filter(held).map_values(pack) =~= pack_views(packs@)) by {
        reveal(Seq::filter);
    }
    for i in 0..chosen.len()
        invariant
            loadouts == profile.loadouts@,
            all == texts(chosen@),
            held == |n: Seq<char>| value_of(loadouts, n) is Some,
            pack == |n: Seq<char>|
                match value_of(loadouts, n) {
                    Some(mods) => converted(n, mods_view(mods@), game_install_root@),
                    None => converted(n, Seq::empty(), game_install_root@),
                },
            pack_views(packs@) == all.take(i as int).filter(held).map_values(pack),
    {
        let ghost before = packs@;
        proof {
            all.lemma_take_succ_push(i as int);
            all.take(i as int).lemma_filter_push(all[i as int], held);
        }
        match profile.loadouts.get(chosen[i].as_str()) {
            Some(mods) => {
                let made = convert(chosen[i].as_str(), mods, game_install_root);
                packs.push(made);
                proof {
                    all.take(i as int).filter(held).lemma_push_map_commute(pack, all[i as int]);
                    assert(pack_views(packs@) =~= pack_views(before).push(made@));
                }
            },
            None => {},
        }
    }
    assert(all.take(chosen.len() as int) =~= all);
    packs
}

/// Whether the loadout `name` can give the load order: the profile's
/// `loadouts` hold it and its file name is that of the loadout `current`.
pub open spec fn supplies_priority(
    loadouts: Seq<(Seq<char>, Vec<DmmLoadoutMod>)>,
    current: Seq<char>,
    name: Seq<char>,
) -> bool {
    value_of(loadouts, name) is Some && filenamified(name) == filenamified(current)
}

/// The first name of `chosen` that can give the load order.
pub open spec fn first_supplier(
    loadouts: Seq<(Seq<char>, Vec<DmmLoadoutMod>)>,
    current: Seq<char>,
    chosen: Seq<Seq<char>>,
) -> Option<Seq<char>>
    decreases chosen.len(),
{
    if chosen.len() == 0 {
        None
    } else if supplies_priority(loadouts, current, chosen[0]) {
        Some(chosen[0])
    } else {
        first_supplier(loadouts, current, chosen.drop_first())
    }
}

/// The names of the mods `mods`, enabled or not, in order.
pub open spec fn mod_names(mods: Seq<DmmLoadoutMod>) -> Seq<Seq<char>> {
    mods.map_values(|m: DmmLoadoutMod| m.name@)
}

/// The load order that importing the loadouts `chosen` of `profile` gives:
/// the mods of the first chosen loadout whose file name is that of the
/// profile's current loadout, in their stored order, and nothing where the
/// profile has no current loadout or none of the chosen ones matches it.
pub open spec fn priority_of(profile: DmmPDMMConfig, chosen: Seq<Seq<char>>) -> Seq<Seq<char>> {
    match profile.current_loadout {
        Some(current) => match first_supplier(profile.loadouts@, current@, chosen) {
            Some(name) => match value_of(profile.loadouts@, name) {
                Some(mods) => mod_names(mods@),
                None => Seq::empty(),
            },
            None => Seq::empty(),
        },
        None => Seq::empty(),
    }
}

/// What [`first_supplier`] finds is one of `chosen` and supplies the load
/// order; it finds nothing only where none of `chosen` does.
pub proof fn first_supplier_is_chosen(
    loadouts: Seq<(Seq<char>, Vec<DmmLoadoutMod>)>,
    current: Seq<char>,
    chosen: Seq<Seq<char>>,
)
    ensures
        match first_supplier(loadouts, current, chosen) {
            Some(name) => chosen.contains(name) && supplies_priority(loadouts, current, name),
            None => forall|i: int|
                0 <= i < chosen.len() ==> !supplies_priority(loadouts, current, #[trigger] chosen[i]),
        },
    decreases chosen.len(),
{
    if chosen.len() > 0 && !supplies_priority(loadouts, current, chosen[0]) {
        let rest = chosen.drop_first();
        first_supplier_is_chosen(loadouts, current, rest);
        match first_supplier(loadouts, current, rest) {
            Some(name) => {
                let i = choose|i: int| 0 <= i < rest.len() && rest[i] == name;
                assert(chosen[i + 1] == name);
            },
            None => {
                assert forall|i: int| 0 <= i < chosen.len() implies !supplies_priority(
                    loadouts,
                    current,
                    #[trigger] chosen[i],
                ) by {
                    if i > 0 {
                        assert(chosen[i] == rest[i - 1]);
                    }
                }
            },
        }
    } else if chosen.len() > 0 {
        assert(chosen[0] == chosen[0]);
    }
}

/// Without a chosen loadout whose file name is that of the profile's
/// current loadout, importing gives no load order.
pub proof fn priority_needs_a_match(profile: DmmPDMMConfig, chosen: Seq<Seq<char>>)
    requires
        profile.current_loadout matches Some(current) ==> forall|i: int|
            0 <= i < chosen.len() ==> filenamified(#[trigger] chosen[i]) != filenamified(current@),
    ensures
        priority_of(profile, chosen).len() == 0,
{
    match profile.current_loadout {
        Some(current) => {
            first_supplier_is_chosen(profile.loadouts@, current@, chosen);
            match first_supplier(profile.loadouts@, current@, chosen) {
                Some(name) => {
                    let i = choose|i: int| 0 <= i < chosen.len() && chosen[i] == name;
                    assert(filenamified(chosen[i]) != filenamified(current@));
                },
                None => {},
            }
        },
        None => {},
    }
}

/// Where the one chosen loadout is held by the profile and has the file name
/// of the profile's current loadout, importing gives the names of all its
/// mods, in their stored order.
pub proof fn priority_of_the_current_loadout(
    profile: DmmPDMMConfig,
    name: Seq<char>,
    mods: Vec<DmmLoadoutMod>,
)
    requires
        profile.current_loadout matches Some(current) && filenamified(name) == filenamified(
            current@,
        ),
        value_of(profile.loadouts@, name) == Some(mods),
    ensures
        priority_of(profile, seq![name]) == mod_names(mods@),
{
}

/// The names of the mods `mods`, enabled or not, in order.
pub fn names_of_mods(mods: &Vec<DmmLoadoutMod>) -> (names: Vec<String>)
    ensures
        texts(names@) == mod_names(mods@),
{
    let mut names: Vec<String> = Vec::new();
    for i in 0..mods.len()
        invariant
            names@.len() == i,
            forall|k: int| 0 <= k < i ==> (#[trigger] names@[k])@ == mods@[k].name@,
    {
        names.push(mods[i].name.clone());
    }
    assert(texts(names@) =~= mod_names(mods@));
    names
}

/// The load order that importing the loadouts `chosen` gives to `profile`.
pub fn profile_priority(profile: &DmmPDMMConfig, chosen: &Vec<String>) -> (priority: Vec<String>)
    ensures
        texts(priority@) == priority_of(*profile, texts(chosen@)),
{
    let current = match &profile.current_loadout {
        Some(current) => current,
        None => {
            let none: Vec<String> = Vec::new();
            assert(texts(none@) =~= Seq::empty());
            return none;
        },
    };
    let wanted = safe_file_name(current.as_str());
    let ghost loadouts = profile.loadouts@;
    let ghost all = texts(chosen@);
    assert(all.skip(0) =~= all);
    for i in 0..chosen.len()
        invariant
            loadouts == profile.loadouts@,
            all == texts(chosen@),
            wanted@ == filenamified(current@),
            profile.current_loadout == Some(*current),
            first_supplier(loadouts, current@, all) == first_supplier(
                loadouts,
                current@,
                all.skip(i as int),
            ),
    {
        let name = chosen[i].as_str();
        proof {
            assert(all.skip(i as int)[0] == name@);
            assert(all.skip(i as int).drop_first() =~= all.skip(i + 1));
        }
        let safe = safe_file_name(name);
        if same_text(safe.as_str(), wanted.as_str()) {
            match profile.loadouts.get(name) {
                Some(mods) => {
                    return names_of_mods(mods);
                },
                None => {},
            }
        }
    }
    let none: Vec<String> = Vec::new();
    assert(texts(none@) =~= Seq::empty());
    none
}

/// The load order that importing the loadouts `chosen` of the profile
/// `profile_key` gives; empty where the configuration has no such profile.
pub fn derive_priority(config: &DmmConfig, profile_key: &str, chosen: &Vec<String>) -> (priority:
    Vec<String>)
    ensures
        texts(priority@) == match value_of(config.configs@, profile_key@) {
            Some(profile) => priority_of(profile, texts(chosen@)),
            None => Seq::empty(),
        },
{
    match config.configs.get(profile_key) {
        Some(profile) => profile_priority(profile, chosen),
        None => {
            let none: Vec<String> = Vec::new();
            assert(texts(none@) =~= Seq::empty());
            none
        },
    }
}

/// What an import hands on: the packs to store and the load order to adopt.
#[derive(Clone, Debug, PartialEq, Eq)]
pub struct ImportPlan {
    pub packs: Vec<ModPack>,
    pub priority: Vec<String>,
}

/// Plans the import of the loadouts `chosen` of the profile `profile_key`:
/// the packs they become below `game_install_root` and the load order they
/// give. A configuration without that profile gives neither.
pub fn import_loadouts(
    config: &DmmConfig,
    profile_key: &str,
    chosen: &Vec<String>,
    game_install_root: &str,
) -> (plan: ImportPlan)
    ensures
        match value_of(config.configs@, profile_key@) {
            Some(profile) => {
                &&& pack_views(plan.packs@) == packs_of(
                    profile.loadouts@,
                    texts(chosen@),
                    game_install_root@,
                )
                &&& texts(plan.priority@) == priority_of(profile, texts(chosen@))
            },
            None => plan.packs@.len() == 0 && plan.priority@.len() == 0,
        },
{
    match config.configs.get(profile_key) {
        Some(profile) => ImportPlan {
            packs: convert_chosen(profile, chosen, game_install_root),
            priority: profile_priority(profile, chosen),
        },
        None => ImportPlan { packs: Vec::new(), priority: Vec::new() },
    }
}


/// Why the other manager's configuration could not be loaded.
#[derive(Clone, Debug, PartialEq, Eq)]
pub enum ImportError {
    /// The chosen directory holds no configuration file.
    NotFound,
    /// The file does not hold a configuration; the text says why.
    Decode(String),
}

impl ImportError {
    /// What [`ImportError::message`] says.
    pub open spec fn message_text(&self) -> Seq<char> {
        match self {
            ImportError::NotFound => "Config.json was not found in the selected folder"@,
            ImportError::Decode(reason) => reason@,
        }
    }

    /// The notice to show to the user.
    pub fn message(&self) -> (out: String)
        ensures
            out@ == self.message_text(),
    {
        match self {
            ImportError::NotFound => String::from_str(
                "Config.json was not found in the selected folder",
            ),
            ImportError::Decode(reason) => reason.clone(),
        }
    }
}

/// What reading the configuration file of a chosen directory came to.
#[derive(Clone, Debug, PartialEq, Eq)]
pub enum ConfigFile {
    /// There is no such file.
    Absent,
    /// The file holds no configuration: its bytes are no text or its text
    /// is of another shape. The text says why.
    Malformed(String),
    /// The configuration that the file holds.
    Decoded(DmmConfig),
}

/// Takes in what reading the configuration file came to. A configuration
/// that was read replaces the one held so far; a failure leaves `held` as it
/// was and is reported.
pub fn load_legacy_config(held: &mut Option<DmmConfig>, file: ConfigFile) -> (loaded: Result<
    (),
    ImportError,
>)
    ensures
        match file {
            ConfigFile::Absent => loaded == Err::<(), ImportError>(ImportError::NotFound)
                && *final(held) == *old(held),
            ConfigFile::Malformed(reason) => loaded == Err::<(), ImportError>(
                ImportError::Decode(reason),
            ) && *final(held) == *old(held),
            ConfigFile::Decoded(config) => loaded is Ok && *final(held) == Some(config),
        },
{
    match file {
        ConfigFile::Absent => Err(ImportError::NotFound),
        ConfigFile::Malformed(reason) => Err(ImportError::Decode(reason)),
        ConfigFile::Decoded(config) => {
            *held = Some(config);
            Ok(())
        },
    }
}

/// The profile whose loadouts setup offers for import.
pub const PDMM_PROFILE: &'static str = "Project DIVA Mega Mix+";

/// What was found on disk at the game directory that the user entered.
#[derive(Clone, Copy, Debug, PartialEq, Eq)]
pub struct GameDirProbe {
    /// The path exists and is a directory.
    pub is_directory: bool,
    /// The directory holds the game's executable.
    pub has_executable: bool,
}

/// Why setup cannot be applied.
#[derive(Clone, Debug, PartialEq, Eq)]
pub enum SetupError {
    /// The game directory does not exist or is a file.
    NotADirectory,
    /// The game directory does not hold the game's executable.
    MissingExecutable,
}

impl SetupError {
    /// What [`SetupError::message`] says.
    pub open spec fn message_text(&self) -> Seq<char> {
        match self {
            SetupError::NotADirectory => "Selected Project Diva directory does not exist or is a file"@,
            SetupError::MissingExecutable => "Selected Directory does not contain DivaMegaMix.exe"@,
        }
    }

    /// The notice to show to the user.
    pub fn message(&self) -> (out: String)
        ensures
            out@ == self.message_text(),
    {
        match self {
            SetupError::NotADirectory => String::from_str(
                "Selected Project Diva directory does not exist or is a file",
            ),
            SetupError::MissingExecutable => String::from_str(
                "Selected Directory does not contain DivaMegaMix.exe",
            ),
        }
    }
}

/// Whether the game directory that was found can be used.
pub open spec fn game_dir_checked(probe: GameDirProbe) -> Result<(), SetupError> {
    if !probe.is_directory {
        Err(SetupError::NotADirectory)
    } else if !probe.has_executable {
        Err(SetupError::MissingExecutable)
    } else {
        Ok(())
    }
}

/// Decides whether the game directory that was found can be used.
pub fn check_game_dir(probe: &GameDirProbe) -> (checked: Result<(), SetupError>)
    ensures
        checked == game_dir_checked(*probe),
{
    if !probe.is_directory {
        Err(SetupError::NotADirectory)
    } else if !probe.has_executable {
        Err(SetupError::MissingExecutable)
    } else {
        Ok(())
    }
}

/// The packs that applying setup stores: those of the marked loadouts of
/// the profile [`PDMM_PROFILE`], and none without a configuration or
/// without that profile.
pub open spec fn setup_packs(imported: Option<DmmConfig>, shown: Seq<Loadout>, root: Seq<char>) -> Seq<
    PackView,
> {
    match imported {
        Some(config) => match value_of(config.configs@, PDMM_PROFILE@) {
            Some(profile) => packs_of(profile.loadouts@, chosen_names(choices(shown)), root),
            None => Seq::empty(),
        },
        None => Seq::empty(),
    }
}

/// The load order that applying setup derives, empty where it derives none.
pub open spec fn setup_priority(imported: Option<DmmConfig>, shown: Seq<Loadout>) -> Seq<Seq<char>> {
    match imported {
        Some(config) => match value_of(config.configs@, PDMM_PROFILE@) {
            Some(profile) => priority_of(profile, chosen_names(choices(shown))),
            None => Seq::empty(),
        },
        None => Seq::empty(),
    }
}

/// Applies first-run setup. With a usable game directory the settings take
/// the colour scheme and the directory, setup counts as done, and the marked
/// loadouts of the configuration `imported` become the packs handed back; a
/// load order derived from them replaces the one in the settings, and where
/// none is derived the settings keep theirs. Otherwise the settings stay as
/// they were and the reason is handed back.
pub fn apply_setup(
    settings: &mut DivaConfig,
    imported: &Option<DmmConfig>,
    shown: &Vec<Loadout>,
    probe: &GameDirProbe,
    diva_dir: &str,
    dark_mode: bool,
) -> (applied: Result<Vec<ModPack>, SetupError>)
    ensures
        match applied {
            Ok(packs) => {
                &&& game_dir_checked(*probe) is Ok
                &&& pack_views(packs@) == setup_packs(*imported, shown@, diva_dir@)
                &&& final(settings).dark_mode == dark_mode
                &&& final(settings).diva_dir@ == diva_dir@
                &&& !final(settings).first_run
                &&& setup_priority(*imported, shown@).len() > 0 ==> texts(final(settings).priority@)
                    == setup_priority(*imported, shown@)
                &&& setup_priority(*imported, shown@).len() == 0 ==> final(settings).priority
                    == old(settings).priority
            },
            Err(reason) => {
                &&& game_dir_checked(*probe) == Err::<(), SetupError>(reason)
                &&& *final(settings) == *old(settings)
            },
        },
{
    match check_game_dir(probe) {
        Err(reason) => {
            return Err(reason);
        },
        Ok(_) => {},
    }
    let plan = match imported {
        Some(config) => {
            let chosen = chosen_loadouts(shown);
            import_loadouts(config, PDMM_PROFILE, &chosen, diva_dir)
        },
        None => ImportPlan { packs: Vec::new(), priority: Vec::new() },
    };
    assert(pack_views(plan.packs@) =~= setup_packs(*imported, shown@, diva_dir@));
    assert(texts(plan.priority@) =~= setup_priority(*imported, shown@));
    settings.dark_mode = dark_mode;
    settings.diva_dir = String::from_str(diva_dir);
    settings.first_run = false;
    if plan.priority.len() > 0 {
        settings.priority = plan.priority;
    }
    Ok(plan.packs)
}

} // verus!
