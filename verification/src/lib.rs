//! Verified core of a Twitch chat bot.
//!
//! The bot is made of services that talk through a broadcaster: the chat
//! connection forwards every chat message to the broadcaster, the broadcaster
//! hands each message to every other registered service, and the command
//! service answers chat commands such as `!first`. This crate holds the
//! decisions those services make; the threads, channels, sockets and files
//! that carry them live in the application around it.

pub mod broadcast;
pub mod common;
pub mod config;
pub mod services;
pub mod state;
pub mod text;
pub mod types;
