//! Watches note.com creators and YouTube channels for new posts and decides
//! which of them are announced to a Discord webhook.

pub mod config;
pub mod feed;
pub mod note;
pub mod notifier;
pub mod state;
pub mod text;
pub mod time;
pub mod watcher;
pub mod youtube;
