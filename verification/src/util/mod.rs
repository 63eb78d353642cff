//! Setting guilds up, and what events share with it.
pub mod create;
pub mod roles;
pub mod register;
pub mod channel_map;
pub mod reposition;
pub mod cleanup;
pub mod filter;
pub mod remove;
pub mod mirror;
pub mod setup;
pub mod scene;
pub mod settle;
pub mod again;
pub mod http;
