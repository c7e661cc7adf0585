//! The control plane of a layered mod manager for one installed game.
//!
//! - [`workspace`] derives every well-known path of a game's working directory
//!   and prepares the directories without ever removing anything.
//! - [`mod_list_store`] keeps the document of mods and their archives, the one
//!   source of truth for archive status; an installed archive never changes
//!   status again.
//! - [`download_tracker`] recovers from interrupted downloads by their
//!   heartbeats, and paces the heartbeats of a download in flight.
//! - [`launch`] isolates the mount namespace, mounts the overlay of mods over
//!   the game, and drops privileges before the game is handed to Proton.
//!
//! Disk, network and terminal work is reached through the capability traits
//! of [`system`] and [`app_context`], or done by the caller with plain values
//! handed to and from the library.

pub mod app_context;
pub mod archive;
pub mod bay;
pub mod bundles;
pub mod cli;
pub mod config;
pub mod download_tracker;
pub mod error;
pub mod game;
pub mod launch;
pub mod manager;
pub mod mod_list_store;
pub mod nexus;
pub mod reorder;
pub mod skyrimse;
pub mod state;
pub mod system;
pub mod text;
pub mod types;
pub mod ui;
pub mod workspace;
