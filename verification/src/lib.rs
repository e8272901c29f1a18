use vstd::prelude::*;

pub mod text;
pub mod api;
pub mod assoc;
pub mod cli;
pub mod custom_tag;
pub mod errors;
pub mod html;
pub mod inmemory_cache;
pub mod mime;
pub mod plugin;
pub mod plugin_manager;
pub mod plugins;
pub mod post;
pub mod posts_filesystem;
pub mod render;
pub mod report;
pub mod uuid;
pub mod render_flatbuffers;

verus! {
} // verus!
