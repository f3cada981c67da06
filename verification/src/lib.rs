//! Core logic of a terminal web radio client: station lists, player
//! state, the key-driven application state machine and text helpers.

pub mod text;
pub mod station;
pub mod import;
pub mod icy;
pub mod player;
pub mod message;
pub mod app;
pub mod session;
pub mod layout;
pub mod cli;
