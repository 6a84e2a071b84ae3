//! A small "system fetch" library: typed display preferences, a text
//! config format with a verified renderer and parser, a load-or-create
//! decision for the config file, and a presenter that decides which
//! host-information sections to print and exactly what each line says.

pub mod codec;
pub mod config;
pub mod presenter;
pub mod store;
pub mod text;

pub use codec::parse_config;
pub use codec::render_config;
pub use config::Alignment;
pub use config::Config;
pub use config::FetchError;
pub use presenter::DiskInfo;
pub use presenter::NetInfo;
pub use presenter::SystemReport;
pub use presenter::render_output;
pub use store::Loaded;
pub use store::config_path_for_home;
pub use store::load_or_initialize;
pub use store::resolve_config_path;
