pub mod text;
pub mod json;
pub mod error;
pub mod hashing;
pub mod redact;
pub mod config;
pub mod approval;
pub mod requests;
pub mod fixtures;
pub mod commands;
pub mod availability;
pub mod writes;
pub mod auth;
pub mod clock;
pub mod outputs;
pub mod reads;
