//! Core logic of a chat bot that renders math snippets and forwards
//! queries to an upstream Q&A service, posting the results as rich
//! messages with editable and interactive components.
//!
//! This crate holds the bot's decision logic: the command grammar, the
//! live-entry records, the bounded registries that track still-editable
//! bot responses, and the event router that dispatches inbound events.
//! All I/O (the chat gateway, the rendering toolchain, the query API)
//! lives outside, in callers that perform the actions this crate plans.
use vstd::prelude::*;

pub mod errors;
pub mod pattern;
pub mod registry;
pub mod router;
pub mod markup;
pub mod message;
pub mod text;
pub mod utils;
pub mod wolfram;

verus! {

/// Capacity of the registry that serves message-edit lookups.
pub const EDIT_BUFFER_SIZE: usize = 10;

/// Capacity of the registry that serves component-interaction lookups.
pub const INTERACT_BUFFER_SIZE: usize = 10;

/// Static configuration of the bot process.
pub struct Config {
    pub discord_token: String,
    pub discord_appid: u64,
    pub prefix: String,
}

impl Config {
    pub fn new(discord_token: String, discord_appid: u64, prefix: String) -> (c: Config)
        ensures
            c.discord_token == discord_token,
            c.discord_appid == discord_appid,
            c.prefix == prefix,
    {
        Config { discord_token, discord_appid, prefix }
    }

    /// The command prefix every command message must start with.
    pub fn prefix(&self) -> (p: &str)
        ensures
            p@ == self.prefix@,
    {
        self.prefix.as_str()
    }
}

} // verus!
