//! Breaking-point search for HTTP services: rate sequences, parsing of the
//! load generator's text output, step classification and run summaries.

pub mod analysis;
pub mod auth;
pub mod capture;
pub mod cli;
pub mod codes;
pub mod config;
pub mod controller;
pub mod decimal;
pub mod graph;
pub mod menu;
pub mod output;
pub mod runner;
pub mod text;
pub mod user_agent;
