//! Resolving a launch context and composing the runtime invocation.
use vstd::prelude::*;
use vstd::string::*;
use crate::error::LaunchError;
use crate::text::{contains_text, replace_all, replace_text, views};
use crate::paths::{join, join_spec, parent_dir, path_exists, path_parent};
use crate::steam::{
    compat_data_spec, found_outcome, install_dir_spec, proton_candidate, tool_entry_of, tool_folder,
    tool_name_of, Steam,
};
use crate::steam::vdf::{AppState, InstallConfigStore};

verus! {

#[verifier::external_type_specification]
#[verifier::external_body]
pub struct ExQuoteError(shlex::QuoteError);

/// What the shell-quoting routine makes of a word.
pub uninterp spec fn shell_quote(word: Seq<char>) -> Seq<char>;

/// A character that a shell reads as itself outside quotes.
pub open spec fn unquoted_ok(c: char) -> bool {
    ('0' <= c && c <= '9') || ('A' <= c && c <= 'Z') || ('a' <= c && c <= 'z') || c == '+'
        || c == '-' || c == '.' || c == '/' || c == ':' || c == '@' || c == ']' || c == '_'
}

/// A non-empty word made only of characters that need no quoting.
pub open spec fn plain_word(word: Seq<char>) -> bool {
    word.len() > 0 && forall|i: int| 0 <= i < word.len() ==> unquoted_ok(#[trigger] word[i])
}

/// Relies on `shlex::try_quote`: it fails exactly on a word holding a nul
/// character, quotes the empty word as `''`, and hands a plain word back as
/// it is.
#[verifier::external_body]
fn quote_word(word: &str) -> (r: Result<String, shlex::QuoteError>)
    ensures
        r is Err <==> word@.contains('\0'),
        r is Ok ==> r->Ok_0@ == shell_quote(word@),
        word@.len() == 0 ==> (r is Ok && r->Ok_0@ == "''"@),
        plain_word(word@) ==> (r is Ok && r->Ok_0@ == word@),
{
    shlex::try_quote(word).map(|q| q.into_owned())
}

/// The runtime verb: `run` starts the program without waiting for it,
/// `waitforexitandrun` waits and hands on its exit code.
pub open spec fn verb_of(use_run_verb: bool) -> Seq<char> {
    if use_run_verb {
        "run"@
    } else {
        "waitforexitandrun"@
    }
}

/// Each argument, quoted, preceded by one space.
pub open spec fn quoted_args(args: Seq<Seq<char>>) -> Seq<char>
    decreases args.len(),
{
    if args.len() == 0 {
        Seq::empty()
    } else {
        quoted_args(args.drop_last()) + " "@ + shell_quote(args.last())
    }
}

/// `<runtime> <verb> <executable>` followed by the arguments, each word quoted.
pub open spec fn invocation(
    proton: Seq<char>,
    use_run_verb: bool,
    exe: Seq<char>,
    args: Seq<Seq<char>>,
) -> Seq<char> {
    shell_quote(proton) + " "@ + verb_of(use_run_verb) + " "@ + shell_quote(exe) + quoted_args(
        args,
    )
}

/// The placeholder that a launch-option template puts where the invocation goes.
pub open spec fn placeholder() -> Seq<char> {
    "%command%"@
}

/// The final command: the template with every placeholder replaced by the
/// invocation, or the template as a leading wrapper when it has no placeholder,
/// or the invocation alone when there is no template.
pub open spec fn apply_launch_options(options: Option<Seq<char>>, inv: Seq<char>) -> Seq<char> {
    match options {
        Some(o) => if contains_text(o, placeholder()) {
            replace_all(o, placeholder(), inv)
        } else {
            o + " "@ + inv
        },
        None => inv,
    }
}

/// Some word of the command holds a nul character.
pub open spec fn has_nul_word(proton: Seq<char>, exe: Seq<char>, args: Seq<Seq<char>>) -> bool {
    proton.contains('\0') || exe.contains('\0') || exists|i: int|
        0 <= i < args.len() && (#[trigger] args[i]).contains('\0')
}

/// The paths that launching an application's program needs.
pub struct LaunchContext {
    pub exe_full_path: String,
    pub compat_data_path: String,
    pub proton_path: String,
}

/// Where the program is looked for: below the install directory, or, when
/// given as it is, relative to the working directory unless it is absolute.
pub open spec fn target_path(
    install_dir: Seq<char>,
    cwd: Seq<char>,
    exe: Seq<char>,
    resolve_in_game_dir: bool,
) -> Seq<char> {
    if resolve_in_game_dir {
        join_spec(install_dir, exe)
    } else {
        join_spec(cwd, exe)
    }
}

/// The error for a missing program: the requested path and the directory
/// searched, or the full path when no directory was searched.
pub open spec fn missing_exe(
    e: LaunchError,
    install_dir: Seq<char>,
    cwd: Seq<char>,
    exe: Seq<char>,
    resolve_in_game_dir: bool,
) -> bool {
    e is ExecutableNotFound && if resolve_in_game_dir {
        e->ExecutableNotFound_0@ == exe && e->ExecutableNotFound_1 is Some
            && e->ExecutableNotFound_1->Some_0@ == install_dir
    } else {
        e->ExecutableNotFound_0@ == target_path(install_dir, cwd, exe, false)
            && e->ExecutableNotFound_1 is None
    }
}

/// Resolves the runtime binary, the program and the prefix directory of an
/// application installed in `library_path`, whose manifest is `manifest`.
/// `cwd` is the working directory that a relative program path is read
/// against when it is not looked for in the install directory.
pub fn resolve_launch_context(
    steam: &Steam,
    library_path: &str,
    manifest: &AppState,
    config: &InstallConfigStore,
    appid: &str,
    exe: &str,
    resolve_in_game_dir: bool,
    cwd: &str,
) -> (r: Result<LaunchContext, LaunchError>)
    ensures
        ({
            let install = install_dir_spec(library_path@, manifest.installdir@);
            let folder = tool_folder(
                tool_name_of(tool_entry_of(config.software.valve.steam.compat_tool_mapping@, appid@)),
            );
            let first = proton_candidate(library_path@, folder);
            let second = proton_candidate(steam@, folder);
            match r {
                Ok(c) => c.exe_full_path@ == target_path(install, cwd@, exe@, resolve_in_game_dir)
                    && c.compat_data_path@ == compat_data_spec(library_path@, appid@) && found_outcome(
                    Ok(c.proton_path),
                    first,
                    second,
                ),
                Err(e) => missing_exe(e, install, cwd@, exe@, resolve_in_game_dir) || found_outcome(
                    Err(e),
                    first,
                    second,
                ),
            }
        }),
{
    let install_dir = steam.get_install_dir(library_path, manifest);
    let exe_full_path = if resolve_in_game_dir {
        join(install_dir.as_str(), exe)
    } else {
        join(cwd, exe)
    };
    let exists = path_exists(exe_full_path.as_str());
    let exe_full_path = checked_target(exe, install_dir, exe_full_path, resolve_in_game_dir, exists)?;
    let (proton_path, compat_data_path) = steam.resolve_proton_paths(library_path, config, appid)?;
    Ok(LaunchContext { exe_full_path, compat_data_path, proton_path })
}

/// The program's full path when it exists on disk (`exists`), else the
/// error for a missing program: the requested path and the directory
/// searched, or the full path when no directory was searched.
pub fn checked_target(
    exe: &str,
    install_dir: String,
    exe_full_path: String,
    resolve_in_game_dir: bool,
    exists: bool,
) -> (r: Result<String, LaunchError>)
    ensures
        exists ==> (r is Ok && r->Ok_0@ == exe_full_path@),
        (!exists && resolve_in_game_dir) ==> (r is Err && r->Err_0 is ExecutableNotFound
            && r->Err_0->ExecutableNotFound_0@ == exe@ && r->Err_0->ExecutableNotFound_1 is Some
            && r->Err_0->ExecutableNotFound_1->Some_0@ == install_dir@),
        (!exists && !resolve_in_game_dir) ==> (r is Err && r->Err_0 is ExecutableNotFound
            && r->Err_0->ExecutableNotFound_0@ == exe_full_path@
            && r->Err_0->ExecutableNotFound_1 is None),
{
    if exists {
        Ok(exe_full_path)
    } else if resolve_in_game_dir {
        Err(LaunchError::ExecutableNotFound(String::from_str(exe), Some(install_dir)))
    } else {
        Err(LaunchError::ExecutableNotFound(exe_full_path, None))
    }
}

/// How a word is shown in a printed command line: quoted, or as it is when
/// it cannot be quoted.
pub open spec fn shown_word(word: Seq<char>) -> Seq<char> {
    if word.contains('\0') {
        word
    } else {
        shell_quote(word)
    }
}

/// The words of a command line, each shown as `shown_word` says, separated
/// by single spaces.
pub open spec fn shown_line(words: Seq<Seq<char>>) -> Seq<char>
    decreases words.len(),
{
    if words.len() == 0 {
        Seq::empty()
    } else if words.len() == 1 {
        shown_word(words[0])
    } else {
        shown_line(words.drop_last()) + " "@ + shown_word(words.last())
    }
}

/// The printable form of a command line (see `shown_line`).
pub fn format_command(argv: &Vec<String>) -> (r: String)
    ensures
        r@ == shown_line(views(argv@)),
{
    proof {
        reveal_strlit(" ");
    }
    let ghost words = views(argv@);
    let mut out = String::new();
    let mut k: usize = 0;
    proof {
        assert(words.subrange(0, 0) =~= Seq::<Seq<char>>::empty());
    }
    while k < argv.len()
        invariant
            k <= argv@.len(),
            words == views(argv@),
            out@ == shown_line(words.subrange(0, k as int)),
        decreases argv@.len() - k,
    {
        let word = match quote_word(argv[k].as_str()) {
            Ok(q) => q,
            Err(_) => argv[k].clone(),
        };
        proof {
            let prefix = words.subrange(0, k + 1);
            assert(prefix.drop_last() =~= words.subrange(0, k as int));
            assert(prefix.last() == words[k as int]);
            assert(words[k as int] == argv@[k as int]@);
            if k == 0 {
                assert(prefix =~= seq![words[0]]);
            }
        }
        if k > 0 {
            out.append(" ");
        }
        out.append(word.as_str());
        k = k + 1;
    }
    proof {
        assert(words.subrange(0, k as int) =~= words);
    }
    out
}

/// `<prefix>/pfx/drive_c/windows/system32/cmd.exe`, the prefix's command
/// interpreter.
pub fn cmd_exe_path(compat_data_path: &str) -> (r: String)
    ensures
        r@ == join_spec(compat_data_path@, "pfx/drive_c/windows/system32/cmd.exe"@),
{
    join(compat_data_path, "pfx/drive_c/windows/system32/cmd.exe")
}

/// The `wine64` shipped beside a runtime binary: `files/bin/wine64` in the
/// runtime's directory, if the runtime path has a parent.
pub fn runtime_wine64(proton_path: &str) -> (r: Option<String>)
    ensures
        match path_parent(proton_path@) {
            Some(dir) => r is Some && r->Some_0@ == join_spec(dir, "files/bin/wine64"@),
            None => r is None,
        },
{
    match parent_dir(proton_path) {
        Some(dir) => Some(join(dir.as_str(), "files/bin/wine64")),
        None => None,
    }
}

/// The environment for running the prefix's command interpreter directly in
/// the terminal: the prefix, the prefix directory, and the application id
/// under two names.
pub fn terminal_env(compat_data_path: &str, app_id: &str) -> (r: Vec<(String, String)>)
    ensures
        r@.len() == 4,
        r@[0].0@ == "WINEPREFIX"@,
        r@[0].1@ == join_spec(compat_data_path@, "pfx"@),
        r@[1].0@ == "STEAM_COMPAT_DATA_PATH"@,
        r@[1].1@ == compat_data_path@,
        r@[2].0@ == "SteamAppId"@,
        r@[2].1@ == app_id@,
        r@[3].0@ == "SteamGameId"@,
        r@[3].1@ == app_id@,
{
    let mut r: Vec<(String, String)> = Vec::new();
    r.push((String::from_str("WINEPREFIX"), join(compat_data_path, "pfx")));
    r.push((String::from_str("STEAM_COMPAT_DATA_PATH"), String::from_str(compat_data_path)));
    r.push((String::from_str("SteamAppId"), String::from_str(app_id)));
    r.push((String::from_str("SteamGameId"), String::from_str(app_id)));
    r
}

/// A fully resolved launch of a program through the runtime.
pub struct ProtonCommand {
    pub proton_path: String,
    pub exe_path: String,
    pub compat_data_path: String,
    pub steam_client_path: String,
    pub app_id: String,
    pub launch_options: Option<String>,
    pub args: Vec<String>,
    pub use_run_verb: bool,
    pub log_output: bool,
}

/// Quotes one word, reporting the word when it cannot be quoted.
fn quote_or_fail(word: &String) -> (r: Result<String, LaunchError>)
    ensures
        r is Err <==> word@.contains('\0'),
        r is Ok ==> r->Ok_0@ == shell_quote(word@),
        r is Err ==> r->Err_0 is UnquotableWord,
{
    match quote_word(word.as_str()) {
        Ok(q) => Ok(q),
        Err(_) => Err(LaunchError::UnquotableWord(word.clone())),
    }
}

impl ProtonCommand {
    /// The shell command that runs the program through the runtime.
    pub fn build_command(&self) -> (r: Result<String, LaunchError>)
        ensures
            r is Err <==> has_nul_word(self.proton_path@, self.exe_path@, views(self.args@)),
            r is Err ==> r->Err_0 is UnquotableWord,
            r is Ok ==> r->Ok_0@ == apply_launch_options(
                match self.launch_options {
                    Some(o) => Some(o@),
                    None => None,
                },
                invocation(
                    self.proton_path@,
                    self.use_run_verb,
                    self.exe_path@,
                    views(self.args@),
                ),
            ),
    {
        proof {
            reveal_strlit(" ");
            reveal_strlit("run");
            reveal_strlit("waitforexitandrun");
            reveal_strlit("%command%");
        }
        let ghost args = views(self.args@);
        let proton = quote_or_fail(&self.proton_path)?;
        let exe = quote_or_fail(&self.exe_path)?;
        let mut cmd = proton;
        cmd.append(" ");
        if self.use_run_verb {
            cmd.append("run");
        } else {
            cmd.append("waitforexitandrun");
        }
        cmd.append(" ");
        cmd.append(exe.as_str());
        assert(cmd@ == invocation(
            self.proton_path@,
            self.use_run_verb,
            self.exe_path@,
            args.subrange(0, 0),
        )) by {
            assert(quoted_args(args.subrange(0, 0)) =~= Seq::<char>::empty());
        }
        let mut k: usize = 0;
        while k < self.args.len()
            invariant
                k <= self.args@.len(),
                args == views(self.args@),
                !self.proton_path@.contains('\0'),
                !self.exe_path@.contains('\0'),
                forall|i: int| 0 <= i < k ==> !(#[trigger] args[i]).contains('\0'),
                cmd@ == invocation(
                    self.proton_path@,
                    self.use_run_verb,
                    self.exe_path@,
                    args.subrange(0, k as int),
                ),
            decreases self.args@.len() - k,
        {
            let q = match quote_word(self.args[k].as_str()) {
                Ok(q) => q,
                Err(_) => {
                    assert(args[k as int] == self.args@[k as int]@);
                    assert(args[k as int].contains('\0'));
                    return Err(LaunchError::UnquotableWord(self.args[k].clone()));
                },
            };
            proof {
                let prefix = args.subrange(0, k + 1);
                assert(prefix.drop_last() =~= args.subrange(0, k as int));
                assert(prefix.last() == args[k as int]);
            }
            cmd.append(" ");
            cmd.append(q.as_str());
            k = k + 1;
        }
        assert(args.subrange(0, k as int) =~= args);
        assert(!has_nul_word(self.proton_path@, self.exe_path@, args));
        match &self.launch_options {
            Some(opts) => {
                let (replaced, found) = replace_text(opts.as_str(), "%command%", cmd.as_str());
                if found {
                    Ok(replaced)
                } else {
                    let mut o = opts.clone();
                    o.append(" ");
                    o.append(cmd.as_str());
                    Ok(o)
                }
            },
            None => Ok(cmd),
        }
    }

    /// The environment handed to the runtime: the prefix directory, the
    /// client install directory, and the application id under two names.
    pub fn build_env(&self) -> (r: Vec<(String, String)>)
        ensures
            r@.len() == 4,
            r@[0].0@ == "STEAM_COMPAT_DATA_PATH"@,
            r@[0].1@ == self.compat_data_path@,
            r@[1].0@ == "STEAM_COMPAT_CLIENT_INSTALL_PATH"@,
            r@[1].1@ == self.steam_client_path@,
            r@[2].0@ == "SteamAppId"@,
            r@[2].1@ == self.app_id@,
            r@[3].0@ == "SteamGameId"@,
            r@[3].1@ == self.app_id@,
    {
        let mut r: Vec<(String, String)> = Vec::new();
        r.push((String::from_str("STEAM_COMPAT_DATA_PATH"), self.compat_data_path.clone()));
        r.push(
            (String::from_str("STEAM_COMPAT_CLIENT_INSTALL_PATH"), self.steam_client_path.clone()),
        );
        r.push((String::from_str("SteamAppId"), self.app_id.clone()));
        r.push((String::from_str("SteamGameId"), self.app_id.clone()));
        r
    }
}

} // verus!
