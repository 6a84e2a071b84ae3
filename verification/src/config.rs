//! The configuration model: display preferences persisted to disk, and
//! the error taxonomy of the library.

use vstd::prelude::*;

verus! {

/// Horizontal alignment of rendered output.
#[derive(Clone, Copy, Debug, PartialEq, Eq, Structural)]
pub enum Alignment {
    Left,
    Right,
}

/// User-configurable display preferences. Constructed with fixed
/// defaults when no config file exists, otherwise loaded from disk;
/// immutable after load.
#[derive(Clone, Copy, Debug, PartialEq, Eq, Structural)]
pub struct Config {
    pub alignment: Alignment,
    /// Number of separator spaces between rendered elements.
    pub spacing: u64,
    pub show_cpu: bool,
    pub show_ram: bool,
    pub show_os: bool,
    pub show_battery: bool,
    pub show_disk: bool,
    pub show_network: bool,
}

/// The default preferences: left alignment, spacing 2, every section shown.
pub open spec fn spec_default_config() -> Config {
    Config {
        alignment: Alignment::Left,
        spacing: 2,
        show_cpu: true,
        show_ram: true,
        show_os: true,
        show_battery: true,
        show_disk: true,
        show_network: true,
    }
}

impl Default for Config {
    fn default() -> (c: Config)
        ensures
            c == spec_default_config(),
    {
        Config {
            alignment: Alignment::Left,
            spacing: 2,
            show_cpu: true,
            show_ram: true,
            show_os: true,
            show_battery: true,
            show_disk: true,
            show_network: true,
        }
    }
}

/// What can go wrong while resolving, reading or understanding the
/// configuration. Provider (system-information) failures are not here:
/// they degrade per field instead of surfacing as errors.
#[derive(Clone, Copy, Debug, PartialEq, Eq, Structural)]
pub enum FetchError {
    /// A required environment fact (the home directory) is unavailable.
    Environment,
    /// A filesystem operation failed.
    Io,
    /// On-disk config content does not describe a `Config`.
    Parse,
}

} // verus!
