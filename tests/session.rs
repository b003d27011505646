use prex::error::LaunchError;
use prex::wineserver::{parse_environ, session_from_process, WineserverInfo};

fn environ() -> Vec<u8> {
    b"A=1\0SteamAppId=42\0STEAM_COMPAT_DATA_PATH=/lib/steamapps/compatdata/42\0WINEFSYNC=1\0A=2\0broken\0\xff=x\0".to_vec()
}

fn info(appid: &str) -> WineserverInfo {
    WineserverInfo {
        appid: appid.to_string(),
        compatdata: format!("/c/{appid}"),
        wine64: "/nonexistent/wine64".to_string(),
        env: vec![],
    }
}

#[test]
fn environment_block_later_values_win() {
    let env = parse_environ(&environ());
    assert_eq!(env.len(), 4);
    assert!(env.contains(&("A".to_string(), "2".to_string())));
    assert!(env.contains(&("SteamAppId".to_string(), "42".to_string())));
    assert!(env.contains(&("WINEFSYNC".to_string(), "1".to_string())));
}

#[test]
fn value_keeps_later_equals_signs() {
    let env = parse_environ(b"K=a=b");
    assert_eq!(env, vec![("K".to_string(), "a=b".to_string())]);
    assert!(parse_environ(b"").is_empty());
}

#[test]
fn server_process_becomes_session() {
    let s = session_from_process("wineserver\n", &environ(), Some("/opt/proton/files/bin/wineserver")).unwrap();
    assert_eq!(s.appid, "42");
    assert_eq!(s.compatdata, "/lib/steamapps/compatdata/42");
    assert_eq!(s.wine64, "/opt/proton/files/bin/wine64");
}

#[test]
fn other_processes_are_skipped() {
    assert!(session_from_process("bash\n", &environ(), Some("/bin/bash")).is_none());
    assert!(session_from_process("wineserver\n", &environ(), None).is_none());
    assert!(session_from_process("wineserver\n", b"SteamAppId=\0STEAM_COMPAT_DATA_PATH=/x", Some("/b/wineserver")).is_none());
    assert!(session_from_process("wineserver\n", b"SteamAppId=1", Some("/b/wineserver")).is_none());
}

#[test]
fn single_matching_session_is_found() {
    let found = WineserverInfo::find_by_appid(vec![info("1"), info("42"), info("7")], "42").unwrap();
    assert_eq!(found.appid, "42");
    assert_eq!(found.compatdata, "/c/42");
}

#[test]
fn no_session_is_an_error() {
    let r = WineserverInfo::find_by_appid(vec![], "42");
    assert!(matches!(r, Err(LaunchError::NoRunningSession(id)) if id == "42"));
    let r = WineserverInfo::find_by_appid(vec![info("1")], "42");
    assert!(matches!(r, Err(LaunchError::NoRunningSession(_))));
}

#[test]
fn missing_wine64_is_reported() {
    let r = info("1").wine_command("game.exe", &vec![], None, "d");
    assert!(matches!(r, Err(LaunchError::Wine64NotFound(p)) if p == "/nonexistent/wine64"));
}

#[test]
fn attach_line_without_disk() {
    let i = info("1");
    let args = vec!["x".to_string()];
    assert_eq!(i.command_line("a.exe", &args, None, "d"), vec!["/nonexistent/wine64", "a.exe", "x"]);
    assert_eq!(
        i.command_line("a.exe", &vec![], Some("800x600"), "d1"),
        vec!["/nonexistent/wine64", "explorer", "/desktop=d1,800x600", "a.exe"]
    );
}

#[test]
fn attach_command_lines() {
    let mut i = info("1");
    i.wine64 = "/".to_string();
    let args = vec!["-a".to_string(), "b c".to_string()];
    assert_eq!(i.wine_command("game.exe", &args, None, "d").unwrap(), vec!["/", "game.exe", "-a", "b c"]);
    assert_eq!(
        i.wine_command("game.exe", &args, Some("1280x720"), "parton7").unwrap(),
        vec!["/", "explorer", "/desktop=parton7,1280x720", "game.exe", "-a", "b c"]
    );
}

#[test]
fn environment_to_apply() {
    let s = session_from_process("wineserver", &environ(), Some("/b/wineserver")).unwrap();
    assert_eq!(
        s.env_to_apply(),
        vec![
            ("WINEFSYNC".to_string(), "1".to_string()),
            ("SteamAppId".to_string(), "42".to_string()),
            ("STEAM_COMPAT_DATA_PATH".to_string(), "/lib/steamapps/compatdata/42".to_string()),
            ("WINEPREFIX".to_string(), "/lib/steamapps/compatdata/42/pfx".to_string()),
        ]
    );
}
