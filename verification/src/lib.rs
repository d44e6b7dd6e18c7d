//! Verified core of a Kagi search and extraction client.

pub mod text;
pub mod perplexity;
pub mod search_laws;
pub mod response;
pub mod source;
pub mod assistant;
pub mod cli;
pub mod json;
pub mod request;
pub mod client;
pub mod server;
