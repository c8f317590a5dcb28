//! A terminal note-taking editor's core: text buffers with a validated
//! cursor, a tab registry with debounced persistence, a stateful markdown
//! line renderer, wikilink resolution and backlinks, and a vault finder.

pub mod buffer;
pub mod config;
pub mod cursor;
pub mod editor;
pub mod file_tree;
pub mod finder;
pub mod links;
pub mod markdown;
pub mod mode;
pub mod order;
pub mod plugin;
pub mod render;
pub mod tabs;
pub mod text;
