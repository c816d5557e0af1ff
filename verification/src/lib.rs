pub mod application;
pub mod commands;
pub mod domain;
pub mod duration;
pub mod infrastructure;
pub mod ipc;
pub mod power;
pub mod text;
pub mod menu;
