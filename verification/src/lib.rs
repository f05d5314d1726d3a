//! Verified core of a command-line client for hosted AI model providers.

pub mod text;
pub mod strmap;
pub mod cli;
pub mod config;
pub mod json;
pub mod paths;
pub mod providers;
pub mod output;
pub mod interactive;
