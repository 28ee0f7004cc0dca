//! Per-guild voice sessions and playback queues for a chat bot, with the
//! rules that decide what each command does stated as contracts.

pub mod config;
pub mod laws;
pub mod queue;
pub mod registry;
pub mod resolver;
pub mod session;
pub mod track;
