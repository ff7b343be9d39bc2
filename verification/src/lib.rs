//! Resolves a chat channel from a sectioned configuration text and assembles
//! the flat payload of fields that is posted to the channel's webhook.

pub mod cli;
pub mod config;
pub mod error;
pub mod json;
pub mod payload;
pub mod value;
