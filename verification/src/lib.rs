//! A command-line coding agent: the verified core.
pub mod text;
pub mod permissions;
pub mod paths;
pub mod shell;
pub mod streaming;
pub mod context;
pub mod provider;
pub mod settings;
pub mod session;
pub mod files;
pub mod search;
pub mod agent_loop;
pub mod repl;
pub mod tui;
pub mod config_tree;
