//! Git hosting platforms.
pub mod answers;
pub mod azure;
pub mod detection;
pub mod github;
pub mod ordering;
pub mod service;
pub mod types;
