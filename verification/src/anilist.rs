//! How the metadata provider is used.

use vstd::prelude::*;

verus! {

/// The settings of the metadata provider.
#[derive(Debug, Clone)]
pub struct Config {
    /// Whether the list is fetched when the program starts.
    pub sync_on_startup: bool,
    pub api_key: Option<String>,
}

impl Default for Config {
    fn default() -> (c: Config)
        ensures
            !c.sync_on_startup,
            c.api_key is None,
    {
        Config { sync_on_startup: false, api_key: None }
    }
}

} // verus!
