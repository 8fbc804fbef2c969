//! The state of the terminal interface and the rules it runs by.
pub mod app;
pub mod pty_runner;
pub mod config;
pub mod theme;
pub mod terminal_widget;
pub mod view;
pub mod events;
