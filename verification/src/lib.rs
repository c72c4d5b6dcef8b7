//! An in-memory notification store: an append-only, ordered history of
//! notifications with read/unread tracking, a backward-stepping unread
//! cursor, and an adapter that turns a notification into a template
//! rendering context.
//!
//! The sequential logic lives in [`store::Store`]; [`manager::Manager`]
//! shares one store between any number of cloned handles behind a verified
//! reader/writer lock, so that every operation is atomic with respect to
//! every other.

pub mod context;
pub mod manager;
pub mod notification;
pub mod store;

pub use manager::Manager;
pub use notification::Action;
pub use notification::Notification;
pub use notification::Urgency;
pub use store::Store;
