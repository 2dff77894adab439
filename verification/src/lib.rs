pub mod text;
mod clock;
pub mod parser;
pub mod streaming;
pub mod style;
pub mod display;
pub mod ui;
pub mod actions;
pub mod cache;
pub mod config;
pub mod config_utils;
pub mod environment;
pub mod logging;
pub mod memory;
pub mod session;
pub mod processor;
pub mod prompt;
pub mod console;
pub mod terminal_ui;
pub mod web;
pub mod commands;
pub mod setup;
pub mod templates;
