use rust4diva::config::DivaConfig;
use rust4diva::firstlaunch::apply_setup;
use rust4diva::firstlaunch::check_game_dir;
use rust4diva::listing::chosen_loadouts;
use rust4diva::firstlaunch::convert;
use rust4diva::firstlaunch::convert_chosen;
use rust4diva::firstlaunch::derive_priority;
use rust4diva::firstlaunch::import_loadouts;
use rust4diva::listing::list_loadouts;
use rust4diva::firstlaunch::load_legacy_config;
use rust4diva::modpacks::path_below;
use rust4diva::firstlaunch::ConfigFile;
use rust4diva::firstlaunch::DmmConfig;
use rust4diva::firstlaunch::DmmLoadoutMod;
use rust4diva::firstlaunch::DmmPDMMConfig;
use rust4diva::firstlaunch::GameDirProbe;
use rust4diva::firstlaunch::ImportError;
use rust4diva::listing::Loadout;
use rust4diva::modpacks::ModPack;
use rust4diva::firstlaunch::SetupError;
use rust4diva::firstlaunch::PDMM_PROFILE;
use rust4diva::namemap::NameMap;

fn entry(name: &str, enabled: bool) -> DmmLoadoutMod {
    DmmLoadoutMod { name: name.to_string(), enabled }
}

fn profile(current: Option<&str>, loadouts: Vec<(&str, Vec<DmmLoadoutMod>)>) -> DmmPDMMConfig {
    let mut table = NameMap::new();
    for (name, mods) in loadouts {
        table.insert(name.to_string(), mods);
    }
    DmmPDMMConfig {
        launcher: None,
        game_path: None,
        mods_folder: None,
        current_loadout: current.map(|c| c.to_string()),
        loadouts: table,
    }
}

fn config_of(key: &str, profile: DmmPDMMConfig) -> DmmConfig {
    let mut configs = NameMap::new();
    configs.insert(key.to_string(), profile);
    DmmConfig { current_game: key.to_string(), configs }
}

fn names(shown: &[Loadout]) -> Vec<String> {
    shown.iter().map(|l| l.name.clone()).collect()
}

#[test]
fn convert_keeps_enabled_mods_only() {
    let mods = vec![entry("A", true), entry("B", false)];
    let pack = convert("Main", &mods, "/games/diva");
    assert_eq!(pack.name, "Main");
    assert_eq!(pack.mods.len(), 1);
    assert_eq!(pack.mods[0].name, "A");
    assert!(pack.mods[0].enabled);
    assert_eq!(pack.mods[0].path, "/games/diva/A");
}

#[test]
fn convert_keeps_the_order_of_the_mods() {
    let mods = vec![entry("Z", true), entry("off", false), entry("A", true), entry("M", true)];
    let pack = convert("Order", &mods, "/d");
    let kept: Vec<&str> = pack.mods.iter().map(|m| m.name.as_str()).collect();
    assert_eq!(kept, vec!["Z", "A", "M"]);
    assert_eq!(pack.mods[2].path, "/d/M");
}

#[test]
fn convert_names_the_pack_by_file_name() {
    let pack = convert("a/b: c?", &Vec::new(), "/d");
    assert_eq!(pack.name, "a_b_ c_");
    assert!(pack.mods.is_empty());
    let reserved = convert("con", &Vec::new(), "/d");
    assert_eq!(reserved.name, "con_");
}

#[test]
fn new_pack_is_empty() {
    let pack = ModPack::new("Fresh".to_string());
    assert_eq!(pack.name, "Fresh");
    assert!(pack.mods.is_empty());
}

#[test]
fn to_packmod_joins_directory_and_name() {
    let made = entry("Eden", true).to_packmod("/games/diva");
    assert_eq!(made.name, "Eden");
    assert!(made.enabled);
    assert_eq!(made.path, "/games/diva/Eden");
    let off = entry("Eden", false).to_packmod("/games/diva/");
    assert!(!off.enabled);
    assert_eq!(off.path, "/games/diva/Eden");
}

#[test]
fn path_below_handles_the_edges() {
    assert_eq!(path_below("/games/diva", "A"), "/games/diva/A");
    assert_eq!(path_below("/games/diva/", "A"), "/games/diva/A");
    assert_eq!(path_below("", "A"), "A");
    assert_eq!(path_below("/games/diva", "/abs"), "/abs");
    assert_eq!(path_below("/games/diva", ""), "/games/diva/");
    assert_eq!(path_below("/jeux/d\u{e9}", "m\u{f6}d"), "/jeux/d\u{e9}/m\u{f6}d");
}

#[test]
fn list_loadouts_sorts_by_file_name() {
    let config = config_of(
        PDMM_PROFILE,
        profile(None, vec![("zeta", vec![]), ("Alpha", vec![]), ("beta", vec![]), ("alpha", vec![])]),
    );
    let shown = list_loadouts(&config, PDMM_PROFILE);
    assert_eq!(names(&shown), vec!["Alpha", "alpha", "beta", "zeta"]);
    assert!(shown.iter().all(|l| l.import));
}

#[test]
fn list_loadouts_does_not_depend_on_stored_order() {
    let one = config_of("p", profile(None, vec![("b", vec![]), ("a", vec![]), ("c", vec![])]));
    let two = config_of("p", profile(None, vec![("c", vec![]), ("b", vec![]), ("a", vec![])]));
    assert_eq!(names(&list_loadouts(&one, "p")), names(&list_loadouts(&two, "p")));
    assert_eq!(names(&list_loadouts(&one, "p")), vec!["a", "b", "c"]);
}

#[test]
fn list_loadouts_keeps_names_whose_file_names_collide() {
    let config = config_of(
        "p",
        profile(None, vec![("My Loadout?", vec![]), ("My Loadout*", vec![]), ("My Loadout!", vec![])]),
    );
    let shown = list_loadouts(&config, "p");
    assert_eq!(shown.len(), 3);
    assert_eq!(names(&shown), vec!["My Loadout!", "My Loadout*", "My Loadout?"]);
}

#[test]
fn list_loadouts_of_missing_profile_is_empty() {
    let config = config_of("other", profile(None, vec![("a", vec![])]));
    assert!(list_loadouts(&config, PDMM_PROFILE).is_empty());
}

#[test]
fn chosen_loadouts_are_the_marked_ones() {
    let shown = vec![
        Loadout { name: "a".to_string(), import: true },
        Loadout { name: "b".to_string(), import: false },
        Loadout { name: "c".to_string(), import: true },
    ];
    assert_eq!(chosen_loadouts(&shown), vec!["a".to_string(), "c".to_string()]);
    assert!(chosen_loadouts(&Vec::new()).is_empty());
}

#[test]
fn derive_priority_takes_the_current_loadout() {
    let config = config_of(
        PDMM_PROFILE,
        profile(
            Some("Main"),
            vec![("Main", vec![entry("X", true), entry("Y", false)]), ("Other", vec![entry("Q", true)])],
        ),
    );
    let chosen = vec!["Other".to_string(), "Main".to_string()];
    assert_eq!(derive_priority(&config, PDMM_PROFILE, &chosen), vec!["X".to_string(), "Y".to_string()]);
    let different = vec!["Other".to_string()];
    assert!(derive_priority(&config, PDMM_PROFILE, &different).is_empty());
}

#[test]
fn derive_priority_compares_file_names() {
    let config = config_of(
        "p",
        profile(Some("Main?"), vec![("Main*", vec![entry("X", true)]), ("Main?", vec![entry("Y", true)])]),
    );
    let chosen = vec!["Main*".to_string(), "Main?".to_string()];
    assert_eq!(derive_priority(&config, "p", &chosen), vec!["X".to_string()]);
}

#[test]
fn derive_priority_without_current_loadout_is_empty() {
    let config = config_of("p", profile(None, vec![("Main", vec![entry("X", true)])]));
    assert!(derive_priority(&config, "p", &vec!["Main".to_string()]).is_empty());
    assert!(derive_priority(&config, "absent", &vec!["Main".to_string()]).is_empty());
}

#[test]
fn derive_priority_skips_unknown_loadouts() {
    let config = config_of("p", profile(Some("Main"), vec![("Main", vec![entry("X", true)])]));
    let chosen = vec!["Main".to_string()];
    assert_eq!(derive_priority(&config, "p", &chosen), vec!["X".to_string()]);
    let config = config_of("p", profile(Some("Main"), vec![("Else", vec![entry("X", true)])]));
    assert!(derive_priority(&config, "p", &chosen).is_empty());
}

#[test]
fn convert_chosen_skips_unknown_loadouts() {
    let held = profile(None, vec![("a", vec![entry("m", true)]), ("b", vec![entry("n", false)])]);
    let chosen = vec!["b".to_string(), "gone".to_string(), "a".to_string()];
    let packs = convert_chosen(&held, &chosen, "/d");
    assert_eq!(packs.len(), 2);
    assert_eq!(packs[0].name, "b");
    assert!(packs[0].mods.is_empty());
    assert_eq!(packs[1].name, "a");
    assert_eq!(packs[1].mods[0].path, "/d/m");
}

#[test]
fn import_loadouts_gives_packs_and_priority() {
    let config = config_of(
        PDMM_PROFILE,
        profile(Some("Main"), vec![("Main", vec![entry("X", true), entry("Y", false)])]),
    );
    let plan = import_loadouts(&config, PDMM_PROFILE, &vec!["Main".to_string()], "/games/diva");
    assert_eq!(plan.packs.len(), 1);
    assert_eq!(plan.packs[0].mods.len(), 1);
    assert_eq!(plan.packs[0].mods[0].path, "/games/diva/X");
    assert_eq!(plan.priority, vec!["X".to_string(), "Y".to_string()]);
    let none = import_loadouts(&config, "absent", &vec!["Main".to_string()], "/games/diva");
    assert!(none.packs.is_empty());
    assert!(none.priority.is_empty());
}

#[test]
fn load_legacy_config_reports_a_missing_file() {
    let mut held = None;
    assert_eq!(load_legacy_config(&mut held, ConfigFile::Absent), Err(ImportError::NotFound));
    assert!(held.is_none());
}

#[test]
fn load_legacy_config_reports_malformed_text_and_keeps_what_is_held() {
    let mut held = Some(config_of("kept", profile(None, vec![("a", vec![])])));
    let outcome = load_legacy_config(&mut held, ConfigFile::Malformed("expected value at line 1".to_string()));
    assert_eq!(outcome, Err(ImportError::Decode("expected value at line 1".to_string())));
    let kept = held.expect("the configuration stays");
    assert_eq!(kept.current_game, "kept");
    assert_eq!(kept.configs.len(), 1);
}

#[test]
fn load_legacy_config_holds_what_was_read() {
    let mut held = None;
    let read = config_of("game", profile(None, vec![("a", vec![])]));
    assert_eq!(load_legacy_config(&mut held, ConfigFile::Decoded(read)), Ok(()));
    assert_eq!(held.expect("held").current_game, "game");
}

#[test]
fn import_error_messages() {
    assert_eq!(ImportError::NotFound.message(), "Config.json was not found in the selected folder");
    assert_eq!(ImportError::Decode("bad".to_string()).message(), "bad");
}

#[test]
fn check_game_dir_names_what_is_wrong() {
    assert_eq!(check_game_dir(&GameDirProbe { is_directory: false, has_executable: false }), Err(SetupError::NotADirectory));
    assert_eq!(check_game_dir(&GameDirProbe { is_directory: false, has_executable: true }), Err(SetupError::NotADirectory));
    assert_eq!(check_game_dir(&GameDirProbe { is_directory: true, has_executable: false }), Err(SetupError::MissingExecutable));
    assert_eq!(check_game_dir(&GameDirProbe { is_directory: true, has_executable: true }), Ok(()));
    assert_eq!(SetupError::NotADirectory.message(), "Selected Project Diva directory does not exist or is a file");
    assert_eq!(SetupError::MissingExecutable.message(), "Selected Directory does not contain DivaMegaMix.exe");
}

#[test]
fn apply_setup_imports_and_sets_priority() {
    let mut settings = DivaConfig::new();
    settings.priority = vec!["old".to_string()];
    let imported = Some(config_of(
        PDMM_PROFILE,
        profile(Some("Main"), vec![("Main", vec![entry("X", true), entry("Y", false)]), ("Skip", vec![entry("S", true)])]),
    ));
    let shown = vec![
        Loadout { name: "Main".to_string(), import: true },
        Loadout { name: "Skip".to_string(), import: false },
    ];
    let probe = GameDirProbe { is_directory: true, has_executable: true };
    let packs = apply_setup(&mut settings, &imported, &shown, &probe, "/games/diva", true).expect("applied");
    assert_eq!(packs.len(), 1);
    assert_eq!(packs[0].name, "Main");
    assert_eq!(packs[0].mods[0].path, "/games/diva/X");
    assert!(settings.dark_mode);
    assert!(!settings.first_run);
    assert_eq!(settings.diva_dir, "/games/diva");
    assert_eq!(settings.priority, vec!["X".to_string(), "Y".to_string()]);
}

#[test]
fn apply_setup_keeps_priority_when_none_is_derived() {
    let mut settings = DivaConfig::new();
    settings.priority = vec!["old".to_string()];
    let probe = GameDirProbe { is_directory: true, has_executable: true };
    let packs = apply_setup(&mut settings, &None, &Vec::new(), &probe, "/g", false).expect("applied");
    assert!(packs.is_empty());
    assert_eq!(settings.priority, vec!["old".to_string()]);
    assert!(!settings.first_run);
    assert_eq!(settings.diva_dir, "/g");
}

#[test]
fn apply_setup_refuses_a_bad_directory() {
    let mut settings = DivaConfig::new();
    let probe = GameDirProbe { is_directory: true, has_executable: false };
    let refused = apply_setup(&mut settings, &None, &Vec::new(), &probe, "/g", true);
    assert_eq!(refused.err(), Some(SetupError::MissingExecutable));
    assert!(settings.first_run);
    assert!(!settings.dark_mode);
    assert_eq!(settings.diva_dir, "");
}

#[test]
fn fresh_settings() {
    let settings = DivaConfig::new();
    assert!(settings.first_run);
    assert!(!settings.dark_mode);
    assert!(settings.diva_dir.is_empty());
    assert!(settings.priority.is_empty());
}

#[test]
fn invalid_json_ends_as_a_decode_error() {
    let text = "{ \"CurrentGame\": ";
    let file = match sonic_rs::from_str::<sonic_rs::Value>(text) {
        Ok(_) => panic!("the text is no JSON"),
        Err(e) => ConfigFile::Malformed(e.to_string()),
    };
    let mut held = None;
    let outcome = load_legacy_config(&mut held, file);
    assert!(matches!(outcome, Err(ImportError::Decode(_))));
    assert!(held.is_none());
}
