//! The configuration: where downloads are saved.

use vstd::prelude::*;
use crate::errors::ErrorKind;

verus! {

/// The persisted configuration.
#[derive(Debug)]
pub struct AppConfig {
    pub save_path: String,
    pub version: u32,
}

/// The name of the directory, below the user's documents, that downloads
/// are saved in unless the user chose another.
pub const DEFAULT_FOLDER: &'static str = "slisic";

/// The name of the configuration file.
pub const CONFIG_FILE: &'static str = "config.json";

/// The version that a new configuration carries.
pub fn default_version() -> (v: u32)
    ensures
        v == 1,
{
    1
}

/// What was found where the configuration is kept.
#[derive(Debug)]
pub enum Found {
    /// No file.
    Missing,
    /// A file that holds this configuration.
    Loaded(AppConfig),
}

/// The configuration to work with, given what was found and the default
/// save directory. A missing file gives the default directory under the
/// default version; a save path that is empty gives the default directory
/// and keeps the version; anything else stays. The flag says whether the
/// configuration must be written back.
pub fn load_or_init_config(found: Found, default_dir: String) -> (r: (AppConfig, bool))
    ensures
        match found {
            Found::Missing => r.0.save_path == default_dir && r.0.version == 1 && r.1,
            Found::Loaded(c) => if c.save_path@.len() == 0 {
                r.0.save_path == default_dir && r.0.version == c.version && r.1
            } else {
                r.0.save_path == c.save_path && r.0.version == c.version && !r.1
            },
        },
{
    match found {
        Found::Missing => (AppConfig { save_path: default_dir, version: default_version() }, true),
        Found::Loaded(c) => {
            if c.save_path.as_str().unicode_len() == 0 {
                (AppConfig { save_path: default_dir, version: c.version }, true)
            } else {
                (c, false)
            }
        },
    }
}

/// What `update_save_path` does with a path, given what is on disk there.
#[derive(Debug, Clone, Copy, PartialEq, Eq, Structural)]
pub enum SavePathStep {
    /// Nothing is there: the directory is created, then taken.
    Create,
    /// A directory is there: it is taken.
    Take,
}

/// What becomes of a new save path: created where nothing is there,
/// taken where a directory is there, refused as invalid input otherwise.
pub open spec fn save_path_step(exists: bool, is_dir: bool) -> Result<SavePathStep, ErrorKind> {
    if !exists {
        Ok(SavePathStep::Create)
    } else if is_dir {
        Ok(SavePathStep::Take)
    } else {
        Err(ErrorKind::InvalidInput)
    }
}

/// Whether a path can be the save path. One that exists and is no
/// directory is refused.
pub fn update_save_path(exists: bool, is_dir: bool) -> (r: Result<SavePathStep, ErrorKind>)
    ensures
        r == save_path_step(exists, is_dir),
{
    if !exists {
        Ok(SavePathStep::Create)
    } else if is_dir {
        Ok(SavePathStep::Take)
    } else {
        Err(ErrorKind::InvalidInput)
    }
}

/// The message with which a save path that is no directory is refused.
pub fn save_path_message() -> (m: &'static str)
    ensures
        m@ == "save_path must be a directory"@,
{
    "save_path must be a directory"
}

} // verus!
