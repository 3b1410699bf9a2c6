//! A two-pane file browser model: directory listings, cursor and selection
//! handling, key bindings, SSH target resolution and the dialog-driven
//! application state machine. All input and output (terminal, filesystem,
//! network) is performed by the caller, which feeds results back in.

pub mod text;
pub mod paths;
pub mod fs;
pub mod keybinds;
pub mod pane;
pub mod ssh;
pub mod app;
pub mod transfer;
pub mod removal;
pub mod view;
pub mod laws;
