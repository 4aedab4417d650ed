//! The editor's screens and the entries of its file browser.

use vstd::prelude::*;

use crate::config::Config;

verus! {

/// Which screen the TUI is currently displaying.
#[derive(Debug, Clone, PartialEq, Eq, Structural)]
pub enum Screen {
    MainMenu,
    ScaffoldChooseType,
    ScaffoldConnection,
    ScaffoldForwards,
    ScaffoldPreview,
    Browse,
    BrowseDetail,
    Run,
}

/// Whether we are scaffolding a client or server config.
#[derive(Debug, Clone, Copy, PartialEq, Eq, Structural)]
pub enum ConfigKind {
    Client,
    Server,
}

/// An entry in the filesystem browser.
#[derive(Debug, Clone)]
pub enum BrowseEntry {
    /// Navigate to parent directory.
    ParentDir,
    /// A subdirectory.
    Directory { name: String, path: String },
    /// A YAML config file (eagerly parsed).
    ConfigFile { name: String, path: String, config: Option<Config>, error: Option<String> },
}

} // verus!
