use prex::error::LaunchError;
use prex::proton::{checked_target, resolve_launch_context};
use prex::steam::vdf::{
    AppLaunchConfig, AppState, CompatToolEntry, FriendsConfig, InstallConfigStore, LibraryEntry,
    LibraryFolders, LocalSoftwareConfig, LocalSteamSettings, LocalValveConfig, SoftwareConfig,
    SteamSettings, UserLocalConfigStore, ValveConfig,
};
use prex::steam::{compat_tool_name, get_game_name, listing_tool_name_of, pick_existing, tool_folder_name, Steam};

fn library(path: &str, apps: &[&str]) -> LibraryEntry {
    LibraryEntry {
        path: path.to_string(),
        apps: apps.iter().map(|a| (a.to_string(), "1000".to_string())).collect(),
    }
}

fn config(mapping: Vec<(&str, Option<&str>)>) -> InstallConfigStore {
    InstallConfigStore {
        software: SoftwareConfig {
            valve: ValveConfig {
                steam: SteamSettings {
                    compat_tool_mapping: mapping
                        .into_iter()
                        .map(|(k, v)| (k.to_string(), CompatToolEntry { name: v.map(|s| s.to_string()) }))
                        .collect(),
                },
            },
        },
    }
}

fn local(apps: Option<Vec<(&str, Option<&str>)>>, persona: Option<&str>) -> UserLocalConfigStore {
    UserLocalConfigStore {
        software: LocalSoftwareConfig {
            valve: LocalValveConfig {
                steam: LocalSteamSettings {
                    apps: apps.map(|v| {
                        v.into_iter()
                            .map(|(k, o)| {
                                (k.to_string(), AppLaunchConfig { launch_options: o.map(|s| s.to_string()) })
                            })
                            .collect()
                    }),
                },
            },
        },
        friends: Some(FriendsConfig { persona_name: persona.map(|s| s.to_string()) }),
    }
}

fn steam() -> Steam {
    Steam::new(Some("/".to_string()), None).unwrap()
}

#[test]
fn steam_root_from_dir_or_home() {
    assert_eq!(steam().root_path(), "/");
    assert!(matches!(Steam::new(None, None), Err(LaunchError::HomeNotSet)));
    let r = Steam::new(None, Some("/nonexistent-home-dir".to_string()));
    assert!(matches!(r, Err(LaunchError::SteamDirNotFound(p)) if p == "/nonexistent-home-dir/.local/share/Steam"));
}

#[test]
fn first_library_listing_the_app_wins() {
    let folders = LibraryFolders::from_entries(vec![
        ("10".to_string(), library("/lib10", &["7"])),
        ("2".to_string(), library("/lib2", &["7", "8"])),
        ("0".to_string(), library("/lib0", &["9"])),
    ]);
    let keys: Vec<&str> = folders.libraries.iter().map(|(k, _)| k.as_str()).collect();
    assert_eq!(keys, vec!["0", "2", "10"]);
    assert_eq!(steam().find_library_for_app(&folders, "7").unwrap(), "/lib2");
    assert_eq!(steam().find_library_for_app(&folders, "9").unwrap(), "/lib0");
}

#[test]
fn app_absent_from_every_library_is_not_found() {
    let folders = LibraryFolders::from_entries(vec![("0".to_string(), library("/lib0", &["9"]))]);
    let r = steam().find_library_for_app(&folders, "12345");
    assert!(matches!(r, Err(LaunchError::AppNotFound(id)) if id == "12345"));
}

#[test]
fn document_paths() {
    let s = Steam::new(Some("/tmp".to_string()), None).unwrap();
    assert_eq!(s.library_folders_path(), "/tmp/config/libraryfolders.vdf");
    assert_eq!(s.config_path(), "/tmp/config/config.vdf");
    assert_eq!(s.local_config_path("123"), "/tmp/userdata/123/config/localconfig.vdf");
    assert_eq!(s.manifest_path("/lib", "42"), "/lib/steamapps/appmanifest_42.acf");
    let m = AppState { installdir: "Game Dir".to_string(), name: None };
    assert_eq!(s.get_install_dir("/lib/", &m), "/lib/steamapps/common/Game Dir");
    assert_eq!(s.get_compat_data_path("/lib", "42"), "/lib/steamapps/compatdata/42");
}

#[test]
fn unmapped_app_uses_default_tool_folder() {
    let c = config(vec![("5", Some("GE-Proton9"))]);
    let tool = steam().get_compat_tool(&c, "42");
    assert!(tool.is_none());
    let name = compat_tool_name(&tool);
    assert_eq!(name, "proton_experimental");
    assert_eq!(tool_folder_name(&name), "Proton - Experimental");
}

#[test]
fn mapped_tool_name_and_empty_name() {
    let c = config(vec![("5", Some("GE-Proton9")), ("6", Some("")), ("7", None)]);
    let t5 = steam().get_compat_tool(&c, "5");
    assert_eq!(compat_tool_name(&t5), "GE-Proton9");
    assert_eq!(tool_folder_name("GE-Proton9"), "GE-Proton9");
    assert_eq!(compat_tool_name(&steam().get_compat_tool(&c, "6")), "proton_experimental");
    assert_eq!(compat_tool_name(&steam().get_compat_tool(&c, "7")), "proton_experimental");
    assert_eq!(listing_tool_name_of(&steam().get_compat_tool(&c, "6")), "default");
    assert_eq!(listing_tool_name_of(&t5), "GE-Proton9");
}

#[test]
fn runtime_found_in_order_or_both_named() {
    assert_eq!(pick_existing("/a".to_string(), true, "/b".to_string(), true).unwrap(), "/a");
    assert_eq!(pick_existing("/a".to_string(), false, "/b".to_string(), true).unwrap(), "/b");
    let r = pick_existing("/a".to_string(), false, "/b".to_string(), false);
    assert!(matches!(r, Err(LaunchError::ProtonNotFound(a, b)) if a == "/a" && b == "/b"));
    let r = steam().get_proton_path("/nonexistent-lib", "proton_experimental");
    assert!(matches!(r, Err(LaunchError::ProtonNotFound(a, b))
        if a == "/nonexistent-lib/steamapps/common/Proton - Experimental/proton"
            && b == "/steamapps/common/Proton - Experimental/proton"));
}

#[test]
fn missing_executable_names_path_and_directory() {
    let m = AppState { installdir: "Game".to_string(), name: None };
    let c = config(vec![]);
    let r = resolve_launch_context(&steam(), "/nonexistent-lib", &m, &c, "42", "bin/game.exe", true, "/");
    assert!(matches!(r, Err(LaunchError::ExecutableNotFound(e, Some(d)))
        if e == "bin/game.exe" && d == "/nonexistent-lib/steamapps/common/Game"));
    let r = resolve_launch_context(&steam(), "/nonexistent-lib", &m, &c, "42", "game.exe", false, "/work");
    assert!(matches!(r, Err(LaunchError::ExecutableNotFound(e, None)) if e == "/work/game.exe"));
}

#[test]
fn existing_executable_then_missing_runtime() {
    let m = AppState { installdir: "Game".to_string(), name: None };
    let c = config(vec![]);
    let r = resolve_launch_context(&steam(), "/nonexistent-lib", &m, &c, "42", "/", false, "/work");
    assert!(matches!(r, Err(LaunchError::ProtonNotFound(_, _))));
}

#[test]
fn user_detection() {
    let s = steam();
    assert!(matches!(s.detect_user_id(&vec![]), Err(LaunchError::NoUsers)));
    assert_eq!(s.detect_user_id(&vec![("11".to_string(), None)]).unwrap(), "11");
    let r = s.detect_user_id(&vec![("11".to_string(), None), ("22".to_string(), Some("b".to_string()))]);
    assert!(matches!(r, Err(LaunchError::MultipleUsers(ids)) if ids == vec!["11", "22"]));
    assert_eq!(s.choose_user_id(Some("33".to_string()), &vec![]).unwrap(), "33");
}

#[test]
fn launch_options_lookup() {
    let cfg = local(Some(vec![("42", Some("gamemoderun %command%")), ("43", None)]), Some("me"));
    let s = steam();
    assert_eq!(s.get_launch_options(&cfg, "42").unwrap(), "gamemoderun %command%");
    assert!(s.get_launch_options(&cfg, "43").is_none());
    assert!(s.get_launch_options(&cfg, "44").is_none());
    assert!(s.get_launch_options(&local(None, None), "42").is_none());
    assert_eq!(Steam::get_persona_name(&cfg).unwrap(), "me");
}

#[test]
fn runtime_components_are_recognised() {
    let m = |dir: &str, name: Option<&str>| AppState { installdir: dir.to_string(), name: name.map(|s| s.to_string()) };
    assert!(Steam::is_runtime_app(&m("Proton 9.0", None)));
    assert!(Steam::is_runtime_app(&m("SteamLinuxRuntime_sniper", None)));
    assert!(Steam::is_runtime_app(&m("x", Some("Steamworks Common Redistributables"))));
    assert!(Steam::is_runtime_app(&m("x", Some("Steam Linux Runtime 3.0"))));
    assert!(!Steam::is_runtime_app(&m("Elden Ring", Some("ELDEN RING"))));
}

#[test]
fn game_name_defaults_to_unknown() {
    let m = AppState { installdir: "x".to_string(), name: Some("Game".to_string()) };
    assert_eq!(get_game_name(Some(&m)), "Game");
    assert_eq!(get_game_name(None), "(unknown)");
}

#[test]
fn users_are_numbered_dirs_in_numeric_order() {
    let users = steam().list_users(vec![
        ("200".to_string(), Some("b".to_string())),
        ("abc".to_string(), None),
        ("30".to_string(), None),
    ]);
    assert_eq!(users, vec![("30".to_string(), None), ("200".to_string(), Some("b".to_string()))]);
}

#[test]
fn proton_games_listing() {
    let c = config(vec![("20", Some("GE-Proton9"))]);
    let m = |dir: &str, name: Option<&str>| Some(AppState { installdir: dir.to_string(), name: name.map(|s| s.to_string()) });
    let found = vec![
        ("300".to_string(), m("Game3", None)),
        ("20".to_string(), m("Game2", Some("Two"))),
        ("1493710".to_string(), m("Proton - Experimental", Some("Proton Experimental"))),
        ("20".to_string(), m("Other", Some("Dup"))),
        ("pfx".to_string(), m("x", None)),
        ("5".to_string(), None),
    ];
    let games = steam().list_proton_games(&c, &found);
    assert_eq!(
        games,
        vec![
            ("20".to_string(), "Two".to_string(), "GE-Proton9".to_string()),
            ("300".to_string(), "(unknown)".to_string(), "default".to_string()),
        ]
    );
}

#[test]
fn root_and_target_checks() {
    assert_eq!(Steam::from_root("/s".to_string(), true).unwrap().root_path(), "/s");
    assert!(matches!(Steam::from_root("/s".to_string(), false), Err(LaunchError::SteamDirNotFound(p)) if p == "/s"));
    assert_eq!(checked_target("g.exe", "/i".to_string(), "/i/g.exe".to_string(), true, true).unwrap(), "/i/g.exe");
    let r = checked_target("g.exe", "/i".to_string(), "/i/g.exe".to_string(), true, false);
    assert!(matches!(r, Err(LaunchError::ExecutableNotFound(e, Some(d))) if e == "g.exe" && d == "/i"));
    let r = checked_target("g.exe", "/i".to_string(), "/w/g.exe".to_string(), false, false);
    assert!(matches!(r, Err(LaunchError::ExecutableNotFound(e, None)) if e == "/w/g.exe"));
}

#[test]
fn manifest_of_a_prefix() {
    assert_eq!(
        prex::steam::game_manifest_path("/lib/steamapps/compatdata/42", "42").unwrap(),
        "/lib/steamapps/appmanifest_42.acf"
    );
    assert!(prex::steam::game_manifest_path("/", "42").is_none());
}

#[test]
fn prefix_of_a_registered_program() {
    assert_eq!(
        prex::steam::prefix_of_registered("/lib/steamapps/compatdata/42/pfx/drive_c/mo2/mo.exe", "42").unwrap(),
        "/lib/steamapps/compatdata/42"
    );
    assert!(prex::steam::prefix_of_registered("/lib/steamapps/compatdata/420/pfx/x.exe", "42").is_none());
    assert!(prex::steam::prefix_of_registered("/opt/x.exe", "42").is_none());
}

#[test]
fn text_search() {
    assert_eq!(prex::text::find_text("abcabc", "ca"), Some(2));
    assert_eq!(prex::text::find_text("abc", ""), Some(0));
    assert_eq!(prex::text::find_text("abc", "x"), None);
}
