//! Self-update engine: release metadata, version ordering, download progress,
//! signature checks and the decisions of an update session.

pub mod download;
pub mod error;
pub mod release;
pub mod session;
pub mod signature;
pub mod text;
pub mod updater;
pub mod version;

pub use error::Error;
