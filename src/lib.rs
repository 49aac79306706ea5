//! Query engine of a read-only diagnostic console for a chat-room event store.
pub mod accounting;
pub mod command;
pub mod error;
pub mod projection;
pub mod report;
pub mod room;
pub mod selection;
pub mod text;
