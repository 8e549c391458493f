//! Verified core of ani-tui: the AllAnime cipher, response parsing,
//! stream selection, player command lines and the TUI state machine.

pub mod action;
pub mod api;
pub mod app;
pub mod app_model;
pub mod config;
pub mod json;
pub mod model;
pub mod number;
pub mod player;
pub mod poster;
pub mod session;
pub mod text;
pub mod ui;
pub mod update;
