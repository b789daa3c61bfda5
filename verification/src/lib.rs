//! A polling notifier pipeline: fetch a remote file listing, diff it against a
//! durable registry of already-seen file ids, persist the new entries, refresh
//! an OAuth credential once when there is work to do, and emit one chat
//! notification per new file in reverse discovery order.

pub mod data;
pub mod diff;
pub mod ident;
pub mod jsonio;
pub mod message;
pub mod pipeline;
pub mod registry;
pub mod status;
pub mod token;

pub use ident::file_identity;
