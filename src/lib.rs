//! A chat bot that answers a command by sending a random picture from a
//! pool loaded at start-up.
//!
//! The library holds the bot's decisions: which file names count as images,
//! the image pool and its random pick, how a message is parsed into a command,
//! and what the bot does for each inbound event. Talking to the chat platform,
//! reading files and the configuration file live in the application around it.

pub mod text;
pub mod image;

pub use image::is_img;
pub mod command;
pub mod config;
pub mod bot;
