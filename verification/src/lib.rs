//! Download-manager core: size and progress parsing of yt-dlp output, format
//! selection, themes, selection lists and notification queues.
use vstd::prelude::*;

pub mod text;
pub mod ids;
pub mod size;
pub mod scaling;
pub mod theme;
pub mod paths;
pub mod types;
pub mod num;
pub mod download;
pub mod tools;
pub mod record;
pub mod formats;
pub mod home;
pub mod tasks;
pub mod selector;
pub mod selection;
pub mod batch;
pub mod playlist;
pub mod notification;
pub mod settings;
pub mod channel;
pub mod tool_panel;
pub mod task_store;
pub mod laws;

verus! {

} // verus!
