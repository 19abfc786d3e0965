//! Core logic of a remote-host session manager: health probing and
//! security classification, terminal detection, connection-launch
//! planning, and a live-session registry.
#![allow(unused_imports)]

pub mod config;
pub mod forms;
pub mod health;
pub mod manager;
pub mod models;
pub mod ssh;
pub mod text;
pub mod themes;
pub mod ui;
pub mod ui_state;
