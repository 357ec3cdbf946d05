pub mod input;
pub mod frame;
pub mod config;
pub mod host;
pub mod engine;
pub mod parse;
pub mod pad;
