//! Account, credential and request logic of a command-line client for searching and scraping
//! Twitter/X through the Apify API.

pub mod account;
pub mod cli;
pub mod client;
pub mod commands;
pub mod config;
pub mod error;
pub mod json;
pub mod output;
pub mod readme;
pub mod secrets;
pub mod text;
