//! Command-line, configuration, navigation and shell-editing logic of the
//! Arcadia desktop shell, with its contracts proved by Verus.

pub mod cli;
pub mod commands;
pub mod completion;
pub mod config;
pub mod lan;
pub mod late;
pub mod modules;
pub mod navigation;
pub mod platform;
pub mod session;
pub mod shell;
pub mod text;
pub mod theme;
