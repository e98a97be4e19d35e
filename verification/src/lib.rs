//! Core logic of a system-update helper: command resolution with privilege
//! elevation, a stream-draining supervisor for spawned processes, and the
//! pure parsers and localization rules around them.
pub mod cinnamon;
pub mod commands;
pub mod config;
pub mod flatpak;
pub mod i18n;
pub mod pacman;
pub mod supervisor;
pub mod text;
pub mod ui;
