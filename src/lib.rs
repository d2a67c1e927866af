//! Dispatches chat-bot events to external executables: per-bot command
//! resolution by pattern and allow-list, argument expansion, the reply built
//! from an executable's output, and the paginated answer to inline queries.

pub mod text;
pub mod pattern;
pub mod config;
pub mod dispatch;
pub mod pagination;
pub mod reply;
