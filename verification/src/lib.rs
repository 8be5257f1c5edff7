//! Verified core of a lobby-capable Minecraft limbo server: lobby session
//! bookkeeping, chat and private-message planning, visibility packet
//! planning, selector menus, command parsing and execution, the join and
//! configuration sequences, the spiral order of chunks, per-connection state
//! and configuration defaults.

pub mod protocol;
pub mod text;
pub mod profile;
pub mod lobby;
pub mod navigation;
pub mod server_commands;
pub mod commands;
pub mod chat;
pub mod visibility;
pub mod selector;
pub mod client;
pub mod menu;
pub mod chunks;
pub mod config;
pub mod play;
pub mod join;
pub mod connection;
pub mod bench;
