//! Verified core of the AzurNext launcher: configuration reading and
//! rewriting, progress tracking for the setup scripts, backend launch
//! settings, the autostart task, and the updater's state.
pub mod text;
pub mod encoding;
pub mod deploy;
pub mod platform;
pub mod config_text;
pub mod backend;
pub mod percent;
pub mod progress;
pub mod pypi;
pub mod runtime;
pub mod updater;
pub mod autostart;
pub mod layout;
pub mod commands;
pub mod setup_flow;
pub mod notify;
