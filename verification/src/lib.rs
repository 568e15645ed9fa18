//! Verified core of a bridge between mpv's JSON IPC and a web front end:
//! argument lists, IPC command encoding, the mpv subtitle session state
//! machine with its style filter, the subtitle store and media-request
//! planning.

pub mod text;
pub mod json;
pub mod protocol;
pub mod session;
pub mod store;
pub mod filter;
pub mod ass;

pub use text::parse_list;
pub use store::{Subtitle, SubtitleEvent};
