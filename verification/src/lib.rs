//! A provisioner for Always Free ARM instances.

pub mod config;
pub mod course;
pub mod crypto;
pub mod environment;
pub mod error;
pub mod flow;
pub mod json;
pub mod network;
pub mod network_setup;
pub mod notify;
pub mod provision;
pub mod report;
pub mod request;
pub mod resources;
pub mod retry;
pub mod settings;
pub mod signer;
pub mod ssh;
pub mod text;
