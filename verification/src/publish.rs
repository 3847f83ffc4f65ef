//! Publishing the packages of a workspace in dependency order.

pub mod discover;
pub mod document;
pub mod executor;
pub mod indices;
pub mod manifest;
pub mod order;
pub mod package;
