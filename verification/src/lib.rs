//! A small bulletin-board library.
//!
//! Users submit an article (title, body, media attachments) as a sequence of
//! named form fields, each delivered as a stream of byte chunks; other users
//! browse articles ordered by recent activity and leave comments, which bump
//! the article back to the top of the listing.
//!
//! The library holds the verified core: decoding the field streams into typed
//! values, deriving a safe storage path from an untrusted client filename,
//! and the persistence rules (article, media and comment rows, and the
//! recency-ranking bump time). The surrounding process performs the actual
//! network, disk and database work and drives these functions.

pub mod clock;
pub mod errors;
pub mod paths;
pub mod store;
pub mod submit;
pub mod text;
