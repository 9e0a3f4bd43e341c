//! Planning logic for a batch audio downloader: reading a list of links,
//! telling playlists from single videos, cleaning up titles and building the
//! command lines of the media tool that does the actual work.

pub mod command;
pub mod links;
pub mod pipeline;
pub mod task;
pub mod text;
pub mod title;
