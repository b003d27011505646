//! The errors that the library reports.
use vstd::prelude::*;

verus! {

/// Why an operation could not be completed.
#[derive(Debug)]
pub enum LaunchError {
    /// No home directory is known, so the per-user data directory has no location.
    DataDirUnavailable,
    /// A path that must be handed on as text is not valid UTF-8.
    NonUtf8Path,
    /// Neither an explicit Steam directory nor a home directory was given.
    HomeNotSet,
    /// The Steam installation directory does not exist.
    SteamDirNotFound(String),
    /// No library lists the application id.
    AppNotFound(String),
    /// The executable is missing; the second field is the directory searched, if any.
    ExecutableNotFound(String, Option<String>),
    /// The runtime binary exists at neither candidate location.
    ProtonNotFound(String, String),
    /// No user directory exists.
    NoUsers,
    /// Several users exist and none was chosen; their ids are listed.
    MultipleUsers(Vec<String>),
    /// A word of the command holds a nul character and cannot be quoted for the shell.
    UnquotableWord(String),
    /// No running session belongs to the application id.
    NoRunningSession(String),
    /// The session's wine64 binary does not exist.
    Wine64NotFound(String),
    /// The child's process id does not fit a signed process id.
    PidOutOfRange,
    /// The child exited unsuccessfully, with this code if it had one.
    ExitStatus(Option<i32>),
    /// No registration exists for the application id.
    NotRegistered(String),
    /// More than one registration is marked active.
    MultipleActive,
}

} // verus!
