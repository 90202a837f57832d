//! A build server: it runs builds in stages, shows how they go, and serves what the last one made.
pub mod build;
pub mod clock;
pub mod config;
pub mod numeral;
pub mod pages;
pub mod paths;
pub mod serve;
pub mod state;
pub mod text;
pub mod utils;
