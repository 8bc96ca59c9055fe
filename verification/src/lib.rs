//! Core of a tab-rename controller for a terminal multiplexer.
//!
//! The library keeps a mapping from pane identifiers to the display
//! position and name of the tab holding each pane, rebuilt in full from
//! host snapshots, and offers command handlers that consume the mapping
//! to compute tab renames and to encode, clear or query a one-character
//! status marker kept as a textual prefix of the tab name.

pub mod commands;
pub mod numeral;
pub mod pane_index;
pub mod payload;
pub mod plugin;
pub mod snapshot;
pub mod status;
