//! Shared Matrix infrastructure for the mxbot fleet.
//!
//! * [`bot`]: the options of a bot, and the services that every bot shares.
//! * [`format`] / [`send`]: mention-aware messages and idempotent sending.
//! * [`admin`]: admin commands in direct chats with configured admins.
//! * [`verify`]: who may verify with the bot, and how a verification goes.
//! * [`settings`]: runtime settings that admins can change over chat.
//! * [`rooms`] / [`config`]: invites, joining, room classification and the
//!   configuration behind them.
//!
//! The library decides and computes. Reading files, the environment and the
//! clock, and talking to a homeserver, is left to its callers: they hand in
//! what they found, and carry out what comes back.
#![allow(unused_imports)]

pub mod admin;
pub mod bot;
pub mod config;
pub mod format;
pub mod ids;
pub mod logging;
pub mod markup;
pub mod number;
pub mod order;
pub mod persist;
pub mod retry;
pub mod rooms;
pub mod send;
pub mod session;
pub mod settings;
pub mod sync;
pub mod text;
pub mod time;
pub mod verify;

pub use bot::{Bot, BotBuilder};
