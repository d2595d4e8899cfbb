//! Azure DevOps.
pub mod cli;
pub mod pr_url;
pub mod service;
pub mod threads;
