//! The application configuration, as an explicit value. Nothing here reads
//! ambient state: the caller resolves the platform directories and hands
//! the paths in, so tests can inject isolated temporary configurations.

use vstd::prelude::*;

use crate::sort_order::SortOrder;

verus! {

/// The configuration the replication subsystem works from.
#[derive(Debug)]
pub struct Config {
    /// The data directory holding the store file.
    pub data_path: String,
    /// Whether every change to the store should be synced at once.
    pub auto_sync_enabled: bool,
    /// The remote to sync with, if one is configured.
    pub git_remote: Option<String>,
    /// How the task list is ordered.
    pub sort_order: SortOrder,
}

impl Config {
    /// A fresh configuration for the given data directory: auto-sync off,
    /// no remote, the default sort order.
    pub fn new(data_path: String) -> (r: Config)
        ensures
            r.data_path@ == data_path@,
            !r.auto_sync_enabled,
            r.git_remote is None,
            r.sort_order.criteria@ == seq![crate::sort_order::SortCriteria::CreatedDesc],
    {
        Config {
            data_path,
            auto_sync_enabled: false,
            git_remote: None,
            sort_order: SortOrder::default(),
        }
    }

    /// The full path of the store file inside the data directory.
    pub fn get_todos_file_path(&self) -> (r: String)
        ensures
            r@ == self.data_path@ + "/todos.json"@,
    {
        let mut r = self.data_path.clone();
        r.append("/todos.json");
        r
    }

    /// Switches auto-sync on or off.
    pub fn set_auto_sync(&mut self, enabled: bool)
        ensures
            *final(self) == (Config { auto_sync_enabled: enabled, ..*old(self) }),
    {
        self.auto_sync_enabled = enabled;
    }

    /// Points the configuration at a sync remote.
    pub fn set_git_remote(&mut self, path: String)
        ensures
            *final(self) == (Config { git_remote: Some(path), ..*old(self) }),
    {
        self.git_remote = Some(path);
    }

    /// The configured sort order.
    pub fn get_sort_order(&self) -> (r: &SortOrder)
        ensures
            r == &self.sort_order,
    {
        &self.sort_order
    }

    /// Replaces the sort order.
    pub fn set_sort_order(&mut self, sort_order: SortOrder)
        ensures
            *final(self) == (Config { sort_order: sort_order, ..*old(self) }),
    {
        self.sort_order = sort_order;
    }

    /// The full path of the configuration file under the platform's
    /// configuration directory, which the caller resolves and passes in.
    pub fn get_config_file_path(config_dir: &str) -> (r: String)
        ensures
            r@ == config_dir@ + "/unsafeToDo/config.json"@,
    {
        let mut r = String::from_str(config_dir);
        r.append("/unsafeToDo/config.json");
        r
    }
}

/// Whether auto-sync is switched on in the given configuration.
pub fn is_auto_sync_enabled(config: &Config) -> (r: bool)
    ensures
        r == config.auto_sync_enabled,
{
    config.auto_sync_enabled
}

/// Decides whether a sync must now run because the store changed: with
/// auto-sync on, the sync machine's starting phase and action; with it
/// off, nothing.
pub fn auto_sync_if_enabled(config: &Config) -> (r: Option<
    (crate::sync::SyncPhase, crate::sync::SyncAction),
>)
    ensures
        config.auto_sync_enabled ==> r == Some(
            (crate::sync::SyncPhase::Staging, crate::sync::SyncAction::Stage),
        ),
        !config.auto_sync_enabled ==> r is None,
{
    if config.auto_sync_enabled {
        Some(crate::sync::sync_start())
    } else {
        None
    }
}

} // verus!
