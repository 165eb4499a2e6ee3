//! Message formats, command parsing, group and user bookkeeping, and the
//! client-side chat state of a small group chat system.

pub mod text;
pub mod protocol;
pub mod command;
pub mod client;
pub mod group;
pub mod group_table;
pub mod server;
pub mod assoc;
pub mod user;
pub mod clock;
pub mod ui;
pub mod chat;
pub mod view;
pub mod message_list;
