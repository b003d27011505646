use prex::error::LaunchError;
use prex::proton::{cmd_exe_path, format_command, runtime_wine64, terminal_env, ProtonCommand};

fn command(launch_options: Option<&str>, args: Vec<&str>, use_run_verb: bool) -> ProtonCommand {
    ProtonCommand {
        proton_path: "/a/b/proton".to_string(),
        exe_path: "/a/b/game.exe".to_string(),
        compat_data_path: "/lib/steamapps/compatdata/42".to_string(),
        steam_client_path: "/home/u/.local/share/Steam".to_string(),
        app_id: "42".to_string(),
        launch_options: launch_options.map(|s| s.to_string()),
        args: args.into_iter().map(|s| s.to_string()).collect(),
        use_run_verb,
        log_output: false,
    }
}

#[test]
fn plain_invocation_waits_for_exit() {
    let cmd = command(None, vec![], false).build_command().unwrap();
    assert_eq!(cmd, "/a/b/proton waitforexitandrun /a/b/game.exe");
}

#[test]
fn run_verb_when_not_waiting() {
    let cmd = command(None, vec![], true).build_command().unwrap();
    assert_eq!(cmd, "/a/b/proton run /a/b/game.exe");
}

#[test]
fn template_placeholder_is_substituted() {
    let cmd = command(Some("gamemoderun %command%"), vec![], false).build_command().unwrap();
    assert_eq!(cmd, "gamemoderun /a/b/proton waitforexitandrun /a/b/game.exe");
}

#[test]
fn every_placeholder_is_substituted() {
    let cmd = command(Some("%command% && %command%"), vec![], true).build_command().unwrap();
    assert_eq!(cmd, "/a/b/proton run /a/b/game.exe && /a/b/proton run /a/b/game.exe");
}

#[test]
fn template_without_placeholder_is_a_prefix() {
    let cmd = command(Some("gamemoderun"), vec![], false).build_command().unwrap();
    assert_eq!(cmd, "gamemoderun /a/b/proton waitforexitandrun /a/b/game.exe");
}

#[test]
fn arguments_are_quoted_in_order() {
    let cmd = command(None, vec!["-x", "a b", ""], false).build_command().unwrap();
    assert_eq!(cmd, "/a/b/proton waitforexitandrun /a/b/game.exe -x 'a b' ''");
}

#[test]
fn paths_with_spaces_are_quoted() {
    let mut c = command(None, vec![], false);
    c.proton_path = "/x/Proton - Experimental/proton".to_string();
    let cmd = c.build_command().unwrap();
    assert_eq!(cmd, "'/x/Proton - Experimental/proton' waitforexitandrun /a/b/game.exe");
}

#[test]
fn nul_in_argument_is_refused() {
    let r = command(None, vec!["ok", "bad\0arg"], false).build_command();
    assert!(matches!(r, Err(LaunchError::UnquotableWord(w)) if w == "bad\0arg"));
}

#[test]
fn nul_in_executable_is_refused() {
    let mut c = command(None, vec![], false);
    c.exe_path = "/a\0b".to_string();
    assert!(matches!(c.build_command(), Err(LaunchError::UnquotableWord(_))));
}

#[test]
fn environment_has_four_entries() {
    let env = command(None, vec![], false).build_env();
    assert_eq!(
        env,
        vec![
            ("STEAM_COMPAT_DATA_PATH".to_string(), "/lib/steamapps/compatdata/42".to_string()),
            (
                "STEAM_COMPAT_CLIENT_INSTALL_PATH".to_string(),
                "/home/u/.local/share/Steam".to_string()
            ),
            ("SteamAppId".to_string(), "42".to_string()),
            ("SteamGameId".to_string(), "42".to_string()),
        ]
    );
}

#[test]
fn printed_command_line() {
    let argv = vec!["/p/wine64".to_string(), "a b".to_string(), "x\0y".to_string(), "".to_string()];
    assert_eq!(format_command(&argv), "/p/wine64 'a b' x\0y ''");
    assert_eq!(format_command(&vec![]), "");
}

#[test]
fn prefix_command_interpreter() {
    assert_eq!(cmd_exe_path("/c/42"), "/c/42/pfx/drive_c/windows/system32/cmd.exe");
    assert_eq!(runtime_wine64("/t/Proton 9/proton").unwrap(), "/t/Proton 9/files/bin/wine64");
    assert!(runtime_wine64("/").is_none());
    assert_eq!(
        terminal_env("/c/42", "42"),
        vec![
            ("WINEPREFIX".to_string(), "/c/42/pfx".to_string()),
            ("STEAM_COMPAT_DATA_PATH".to_string(), "/c/42".to_string()),
            ("SteamAppId".to_string(), "42".to_string()),
            ("SteamGameId".to_string(), "42".to_string()),
        ]
    );
}
