//! Plugin-driven resolution of short typed commands into destination URLs.
//!
//! Commands are implemented as Lua scripts loaded from plugin directories.
//! A [`registry::PluginRegistry`] snapshot maps binding tokens to loaded
//! plugins; the dispatcher resolves aliases, extracts the leading token,
//! executes the matching plugin in a fresh interpreter, and falls back to a
//! configurable search-engine URL when no plugin matches or execution fails.

pub mod config;
pub mod dispatch;
pub mod encode;
pub mod kvmap;
pub mod paths;
pub mod plugin;
pub mod registry;
pub mod sandbox;
pub mod text;
pub mod utils;
pub mod watcher;
