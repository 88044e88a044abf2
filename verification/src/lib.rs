pub mod app;
pub mod cli;
pub mod desktop;
pub mod engine;
pub mod engine_protocol;
pub mod lifecycle;
pub mod model;
pub mod output;
pub mod reader;
pub mod text;
pub mod webhook;
