//! Window management logic of the mars window manager, its status bar and its control client.
pub mod actions;
pub mod atoms;
pub mod bar;
pub mod barstyle;
pub mod bindings;
pub mod client;
pub mod config;
pub mod error;
pub mod events;
pub mod geometry;
pub mod numbers;
pub mod layouts;
pub mod monitor;
pub mod relay;
pub mod rules;
pub mod widget;
pub mod seqs;
pub mod status;
pub mod tray;
pub mod wm;
pub mod wmstate;
pub mod workspace;
