pub mod commands;
pub mod config;
pub mod discovery;
pub mod error;
pub mod ssh;
pub mod terminal;
pub mod text;
pub mod tmux;
pub mod wol;

pub use config::{Config, Machine, MachineOs};
pub use discovery::DiscoveryResult;
pub use error::{OrchestratorError, Result};
pub use ssh::{CmdOutput, SystemSsh};
pub use terminal::Terminal;
pub use tmux::{Controller, SessionInfo};
pub use wol::{MachineStatus, WakePolicy};
