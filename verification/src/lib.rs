//! Verified core of the NES front end: achievement archive and window, library
//! search and artwork bookkeeping, rewind history, memory viewer, controller
//! input masks and label text.
pub mod input;
pub mod archive;
pub mod channels;
pub mod text;
pub mod rewind;
pub mod artwork;
pub mod gamepad;
pub mod achievements;
pub mod achievements_ui;
pub mod session;
pub mod emulation;
pub mod cheats;
pub mod hex_view;
pub mod library;
