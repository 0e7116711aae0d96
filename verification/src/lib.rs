//! Background-worker filesystem browser: shallow directory listings and
//! recursive substring search, published wholesale to a shared result buffer
//! so that an interactive surface never blocks on traversal.
//!
//! The filesystem reads themselves and the cross-thread plumbing live outside
//! this crate; the modules here hold the verified logic: how raw entries
//! become display lines, which entries a search keeps, what a publish does to
//! the buffer, and which traversal each user action asks for.

pub mod buffer;
pub mod dispatch;
pub mod lister;
pub mod search;
