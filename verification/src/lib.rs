//! Tracks the life of a pull request as a set of named references.
pub mod attempts;
pub mod dispatch;
pub mod error;
pub mod github;
pub mod lifecycle;
pub mod text;
pub mod version;
