//! What the user configures.

use crate::show::NameKind;
use vstd::prelude::*;

verus! {

/// Where media are searched by default.
#[derive(Debug, Clone, Copy, PartialEq, Eq, Structural)]
pub enum SourceType {
    RqNyaa,
}

impl Default for SourceType {
    fn default() -> (s: SourceType)
        ensures
            s == SourceType::RqNyaa,
    {
        SourceType::RqNyaa
    }
}

/// How the player is used.
#[derive(Debug, Clone, Copy, PartialEq, Eq, Structural)]
pub struct PlayerConfig {
    /// An episode counts as watched once no more than this many seconds of it
    /// are left.
    pub max_remaining_to_complete: u32,
}

impl Default for PlayerConfig {
    fn default() -> (c: PlayerConfig)
        ensures
            c.max_remaining_to_complete == 120,
    {
        PlayerConfig { max_remaining_to_complete: 120 }
    }
}

impl PlayerConfig {
    /// Whether an episode is to be marked as watched: it is not marked yet
    /// and no more than the configured time of it is left.
    pub fn completes(&self, remaining: u32, watched: bool) -> (b: bool)
        ensures
            b == (!watched && remaining <= self.max_remaining_to_complete),
    {
        !watched && remaining <= self.max_remaining_to_complete
    }
}

/// The configuration of the program.
#[derive(Debug, Clone)]
pub struct Config {
    pub default_source_type: SourceType,
    pub preferred_name_kind: NameKind,
    pub anilist: crate::anilist::Config,
    pub nyaa: crate::source::Config,
    pub player: PlayerConfig,
    pub db_path: Option<String>,
}

impl Default for Config {
    fn default() -> (c: Config)
        ensures
            c.default_source_type == SourceType::RqNyaa,
            c.preferred_name_kind == NameKind::English,
            c.player.max_remaining_to_complete == 120,
            !c.anilist.sync_on_startup,
            c.anilist.api_key is None,
            c.nyaa.min_seeders == 5,
            c.nyaa.max_size == 900 * crate::source::MIB,
            c.nyaa.preferred_size == 400 * crate::source::MIB,
            c.nyaa.nyaa.instance_url@ == "https://nyaa.si"@,
            c.nyaa.nyaa.timeout is None,
            c.db_path is None,
    {
        Config {
            default_source_type: SourceType::RqNyaa,
            preferred_name_kind: NameKind::English,
            anilist: crate::anilist::Config::default(),
            nyaa: crate::source::Config::default(),
            player: PlayerConfig::default(),
            db_path: None,
        }
    }
}

} // verus!
