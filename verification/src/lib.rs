//! Lyra: the rules of a local song generator, verified.

pub mod argv;
pub mod cli;
pub mod clock;
pub mod config;
pub mod detect;
pub mod double;
pub mod edit;
pub mod field;
pub mod history;
pub mod input;
pub mod json;
pub mod laws;
pub mod layout;
pub mod number;
pub mod path;
pub mod presets;
pub mod runner;
pub mod shell;
pub mod sse;
pub mod text;
pub mod tui;
pub mod url;
pub mod view;
pub mod web;
