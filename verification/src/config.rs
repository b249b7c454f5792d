//! The configuration of a pipeline, resolved once at startup from the
//! values that were looked up and the defaults for those that are missing.
//!
//! Nothing here reads the process environment: the caller does the lookups
//! and hands over what it found.

use crate::filter::AllowedExtensions;
use crate::paths::Directories;
use crate::text::{decimal_u32, parse_u32, split_on};
use crate::worker::{Ownership, TranscodeSettings};
use vstd::prelude::*;

verus! {

/// Watch root used when none is configured.
pub const DEFAULT_WATCH_DIR: &'static str = "/data/watch";

/// Completion root used when none is configured.
pub const DEFAULT_COMPLETE_DIR: &'static str = "/data/complete";

/// Staging root used when none is configured.
pub const DEFAULT_TRANSCODING_DIR: &'static str = "/data/transcoding";

/// Allow-list used when none is configured: a set of common media
/// extensions.
pub const DEFAULT_ALLOWED_EXTENSIONS: &'static str = "mkv,mp4,avi,mov,flv";

/// Hardware-acceleration selector used when none is configured.
pub const DEFAULT_HWACCEL: &'static str = "auto";

/// Owning user and group used when none is configured.
pub const DEFAULT_OWNER_ID: &'static str = "1000";

/// The value of a setting: what was looked up, or the default when nothing
/// was found.
pub open spec fn setting(value: Option<String>, default: Seq<char>) -> Seq<char> {
    match value {
        Some(found) => found@,
        None => default,
    }
}

/// The value of a setting, given what its lookup found.
pub fn get_env(value: Option<String>, default: &str) -> (text: String)
    ensures
        text@ == setting(value, default@),
{
    match value {
        Some(found) => found,
        None => default.to_owned(),
    }
}

/// The value of a numeric setting, given what its lookup found. The setting
/// must write a `u32` in decimal; `parse_u32` tells whether a text does.
pub fn get_int_env(value: Option<String>, default: &str) -> (number: u32)
    requires
        decimal_u32(setting(value, default@)) is Some,
    ensures
        decimal_u32(setting(value, default@)) == Some(number),
{
    let text = get_env(value, default);
    parse_u32(text.as_str()).unwrap()
}

/// What the lookups of the recognised options found; `None` where an option
/// is not set.
#[derive(Clone, Debug, Default, PartialEq, Eq)]
pub struct Lookups {
    pub watch_dir: Option<String>,
    pub complete_dir: Option<String>,
    pub transcoding_dir: Option<String>,
    pub allowed_extensions: Option<String>,
    pub hwaccel: Option<String>,
    pub uid: Option<String>,
    pub gid: Option<String>,
}

/// Why a configuration could not be resolved.
#[derive(Clone, Copy, Debug, PartialEq, Eq, Structural)]
pub enum ConfigError {
    /// The owning user identifier does not write a `u32`.
    InvalidUid,
    /// The owning group identifier does not write a `u32`.
    InvalidGid,
}

/// Everything a pipeline is built from.
#[derive(Clone, Debug)]
pub struct Config {
    /// The extensions that make a file eligible.
    pub allowed: AllowedExtensions,
    /// What every transcode job shares.
    pub transcode: TranscodeSettings,
}

impl Config {
    /// Whether `config` is what `lookups` and the pass-through arguments
    /// `args` resolve to: each setting is the value found or else its
    /// default, the allow-list is split at its commas, and the owner
    /// identifiers are read as decimal numbers.
    pub open spec fn resolves(config: Config, lookups: Lookups, args: Vec<String>) -> bool {
        &&& config.allowed@ == split_on(
            setting(lookups.allowed_extensions, DEFAULT_ALLOWED_EXTENSIONS@),
            ',',
        ).to_set()
        &&& config.transcode.directories.watch@ == setting(lookups.watch_dir, DEFAULT_WATCH_DIR@)
        &&& config.transcode.directories.staging@ == setting(
            lookups.transcoding_dir,
            DEFAULT_TRANSCODING_DIR@,
        )
        &&& config.transcode.directories.completion@ == setting(
            lookups.complete_dir,
            DEFAULT_COMPLETE_DIR@,
        )
        &&& config.transcode.hwaccel@ == setting(lookups.hwaccel, DEFAULT_HWACCEL@)
        &&& config.transcode.pass_through == args
        &&& Some(config.transcode.owner.uid) == decimal_u32(
            setting(lookups.uid, DEFAULT_OWNER_ID@),
        )
        &&& Some(config.transcode.owner.gid) == decimal_u32(
            setting(lookups.gid, DEFAULT_OWNER_ID@),
        )
    }

    /// Resolves the configuration. It fails only on an owner identifier that
    /// is no decimal `u32`; where both are bad, the user identifier is
    /// reported.
    pub fn resolve(lookups: Lookups, args: Vec<String>) -> (resolved: Result<Config, ConfigError>)
        ensures
            match resolved {
                Ok(config) => Config::resolves(config, lookups, args),
                Err(ConfigError::InvalidUid) => decimal_u32(
                    setting(lookups.uid, DEFAULT_OWNER_ID@),
                ) is None,
                Err(ConfigError::InvalidGid) => {
                    &&& decimal_u32(setting(lookups.uid, DEFAULT_OWNER_ID@)) is Some
                    &&& decimal_u32(setting(lookups.gid, DEFAULT_OWNER_ID@)) is None
                },
            },
    {
        let uid_text = get_env(lookups.uid, DEFAULT_OWNER_ID);
        let uid = match parse_u32(uid_text.as_str()) {
            Some(uid) => uid,
            None => {
                return Err(ConfigError::InvalidUid);
            },
        };
        let gid_text = get_env(lookups.gid, DEFAULT_OWNER_ID);
        let gid = match parse_u32(gid_text.as_str()) {
            Some(gid) => gid,
            None => {
                return Err(ConfigError::InvalidGid);
            },
        };
        let list = get_env(lookups.allowed_extensions, DEFAULT_ALLOWED_EXTENSIONS);
        let directories = Directories {
            watch: get_env(lookups.watch_dir, DEFAULT_WATCH_DIR),
            staging: get_env(lookups.transcoding_dir, DEFAULT_TRANSCODING_DIR),
            completion: get_env(lookups.complete_dir, DEFAULT_COMPLETE_DIR),
        };
        Ok(
            Config {
                allowed: AllowedExtensions::parse(list.as_str()),
                transcode: TranscodeSettings {
                    directories,
                    hwaccel: get_env(lookups.hwaccel, DEFAULT_HWACCEL),
                    pass_through: args,
                    owner: Ownership { uid, gid },
                },
            },
        )
    }
}

} // verus!
