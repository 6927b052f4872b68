//! Collation of a message-log database into a navigable conversation history:
//! sender identity resolution, reaction association, conversation grouping and
//! chronological export.
pub mod text;
pub mod contacts;
pub mod identity;
pub mod reaction;
pub mod message;
pub mod store;
pub mod grouping;
pub mod render;
pub mod laws;
