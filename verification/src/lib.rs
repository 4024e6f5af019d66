//! The decisions of a Zellij plugin that marks tabs whose panes want attention.

pub mod codec;
pub mod config;
pub mod host;
pub mod laws;
pub mod laws_panes;
pub mod laws_plugin;
pub mod laws_shared;
pub mod laws_state;
pub mod laws_text;
pub mod message;
pub mod panes;
pub mod plugin;
pub mod shared;
pub mod state;
pub mod text;

pub use crate::plugin::State;
