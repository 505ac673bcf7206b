//! A chat-bot hub: the envelope types that travel between channels, reactors
//! and the hub, the hub's routing and acknowledgement bookkeeping, and the
//! rules by which reactors and channels turn input into messages.

pub mod strmap;
pub mod user;
pub mod message;
pub mod user_directory;
pub mod hub;
pub mod text;
pub mod config;
pub mod event;
pub mod reactor;
pub mod channel;
pub mod pattern;
