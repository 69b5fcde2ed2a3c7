//! Command logic of the Chat Cats chat bot: parsing of chat commands,
//! the texts the bot answers with, and the small key/value cache it keeps.

pub mod text;
pub mod pattern;
pub mod commands;
pub mod remind;
pub mod time;
pub mod cache;
pub mod random;
pub mod slap;
pub mod love;
pub mod uwu;
pub mod hug;
pub mod definitions;
pub mod help;
pub mod stats;
pub mod whois;
pub mod profanity;
pub mod storage;
pub mod config;
