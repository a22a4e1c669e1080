//! AgentSSH: an SSH toolkit for programs.

pub mod ansi;
pub mod auth;
pub mod cli;
pub mod client;
pub mod connection;
pub mod daemon;
pub mod encoding;
pub mod error;
pub mod exec;
pub mod interactive;
pub mod json;
pub mod kernel;
pub mod known_hosts;
pub mod number;
pub mod output;
pub mod printing;
pub mod profile;
pub mod protocol;
pub mod proxy;
pub mod send;
pub mod service;
pub mod session;
pub mod sftp;
pub mod shell;
pub mod socks5;
pub mod sorted;
pub mod ssh_backend;
pub mod state;
pub mod text;
pub mod transfer;
pub mod util;
