//! Mirrors guilds into others: their channels, roles, threads and messages.
//!
//! Whatever happens in a mirrored guild, and setting a mirror up, is a task. A task asks for
//! one operation after the other, on the service, the database or the clock, and goes on from
//! each answer until it is done or has failed. Performing the operations is left to whoever
//! runs the task, so what is asked for, in which order and on which answers is all decided
//! here.
pub mod keys;
pub mod text;
pub mod mention;
pub mod config;
pub mod blacklist;
pub mod errors;
pub mod model;
pub mod actions;
pub mod operation;
pub mod table;
pub mod validation;
pub mod handlers;
pub mod laws;
pub mod util;
pub mod timed_event;
pub mod event_handler;
