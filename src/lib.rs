//! Launching Windows programs inside per-application compatibility prefixes
//! of a Steam installation: resolving which runtime and prefix belong to an
//! application, finding a running session of it, composing the runtime
//! invocation, deciding how a supervised run proceeds and ends, and keeping
//! the registrations of mod managers.
use vstd::prelude::*;

pub mod db;
pub mod error;
pub mod paths;
pub mod process;
pub mod proton;
pub mod sorting;
pub mod steam;
pub mod text;
pub mod wineserver;

verus! {

} // verus!
