//! Supervision logic for OpenSSH port-forwarding tunnels.

pub mod text;
pub mod config;
pub mod ssh;
pub mod ssh_log;
pub mod log;
pub mod local_clock;
pub mod ssh_config;
pub mod modal;
pub mod commit;
pub mod tray;
pub mod friday;
pub mod supervisor;
pub mod logger;
pub mod cli;
pub mod windows;
pub mod dashboard;
