//! Discovery of versioned installation directories and the decisions around
//! overlaying a content directory into each of them.
pub mod order;
pub mod error;
pub mod targets;
pub mod enumerate;
pub mod report;
pub mod config;
pub mod sync;
