//! Local service supervisor: a registry of named shell commands, the rules
//! that keep it consistent, and the decisions that drive a terminal
//! multiplexer session per service.
//!
//! The library holds no I/O. The configuration store says which paths a
//! load or save touches and performs the registry operations of each
//! load-modify-save cycle; the tmux runner says which `tmux` command lines
//! to run and what their outcomes mean; restarts are a state machine that
//! the caller drives.

pub mod config;
pub mod doctor;
pub mod error;
pub mod models;
pub mod output;
pub mod runner;
pub mod text;
pub mod validation;

pub use config::{apply_setting, ConfigManager};
pub use error::{ConfigError, LarsError, ValidationError};
pub use models::{
    AppConfig, AppSettings, RunnerType, Service, ShutdownBehavior, Timestamp, CURRENT_CONFIG_VERSION,
};
pub use output::{ExitCode, OutputContext};
pub use runner::{create_runner, RestartStep, StartStep, TmuxRunner};
pub use validation::{
    generate_service_name, sanitize_for_shell, validate_not_empty, validate_service_name,
};
