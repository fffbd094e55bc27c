//! Fluxa: remote build and execution on a small cluster.

pub mod app;
pub mod cli;
pub mod client;
pub mod clock;
pub mod command;
pub mod edit;
pub mod effects;
pub mod event;
pub mod feed;
pub mod laws;
pub mod layout;
pub mod screen;
pub mod status;
pub mod task;
pub mod text;
pub mod upload;
pub mod wire;
pub mod worker;
