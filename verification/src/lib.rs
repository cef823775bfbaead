//! Core of an MRU ("Alt-Tab" style) window switcher daemon for a tiling
//! compositor.
//!
//! The library holds the verified logic: the window snapshot collector, the
//! MRU reconciler, the window manager, the switching session, the IPC wire
//! codec and the daemon state machine.  Everything that talks to the outside
//! world (sockets, the compositor connection, the UI process) lives behind
//! the [`sway_client::SwayClient`] trait or outside this crate.

pub mod config;
pub mod daemon;
pub mod ipc;
pub mod keyboard_monitor;
pub mod reconcile;
pub mod sway_client;
pub mod tree;
pub mod ui_commands;
pub mod window_manager;
pub mod window_switcher;
pub mod windows;
