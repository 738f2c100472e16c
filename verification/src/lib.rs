//! A client core for twtxt, the plaintext federated microblogging format:
//! entries, feeds, the merged timeline and its rendering.

pub mod config;
pub mod duration;
pub mod entry;
pub mod feed;
pub mod follow;
pub mod heap;
pub mod number;
pub mod text;
pub mod timeline;
pub mod timestamp;
pub mod tweet;
