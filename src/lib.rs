//! A multi-room chat server's core: the registry of live rooms, the per-room
//! broadcast rules, and the router that picks a room from raw request bytes.
pub mod chat_data;
pub mod name_extractor;
pub mod room_data;
pub mod chat_manager;
pub mod user;
pub mod chat_user;
pub mod db_command;
pub mod chat;
