//! Verified core of a terminal browser front-end that streams a headless
//! browser's frames over the Kitty graphics protocol.
pub mod text;
pub mod kitty;
pub mod render;
pub mod input;
pub mod browser;
pub mod config;
pub mod terminal;
