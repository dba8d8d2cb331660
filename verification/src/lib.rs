pub mod cli;
pub mod clock;
pub mod config;
pub mod daemon;
pub mod desktop;
pub mod display;
pub mod game;
pub mod hotkeys;
pub mod json;
pub mod mount;
pub mod path;
pub mod picker;
pub mod platform;
pub mod text;
