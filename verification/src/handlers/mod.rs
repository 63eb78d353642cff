//! What events in a mirrored guild lead to.
pub mod webhook;
pub mod rewrite;
pub mod reference;
pub mod format;
pub mod thread;
pub mod message;
pub mod edit;
pub mod delete;
pub mod channel;
pub mod role;
pub mod thread_event;
pub mod event;
pub mod failure;
