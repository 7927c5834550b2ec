//! The logic of a command-line editor for translation tables.

pub mod args;
pub mod codec;
pub mod config;
pub mod edit;
pub mod github;
pub mod http;
pub mod json;
pub mod laws;
pub mod laws_args;
pub mod laws_net;
pub mod laws_sheet;
pub mod laws_sync;
pub mod laws_text;
pub mod menu;
pub mod sheet;
pub mod sync;
pub mod table;
pub mod text;
