use vstd::prelude::*;

pub mod files;
pub mod hex;
pub mod lock;
pub mod megacmd;
pub mod options;
pub mod paths;
pub mod status;
pub mod text;

verus! {

/// Name of the settings file at the root of a repository.
pub const OPTIONS_PATH: &'static str = ".mega.toml";

/// Name of the snapshot file at the root of a repository.
pub const LOCK_PATH: &'static str = ".mega.lock";

} // verus!
