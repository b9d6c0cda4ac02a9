//! A group-mention ("tag") bot: users join named tags inside a chat and can
//! then be called together. This crate holds the bot's logic: the text rules
//! for commands and tags, the tag store, and the replies each command gives.
pub mod commands;
pub mod db;
pub mod laws;
pub mod models;
pub mod text;
