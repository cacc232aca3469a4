//! A WebDAV view of Aliyun Drive: path handling, the directory cache, the open-file state
//! machine for ranged reads and multi-part uploads, and the decisions of the authenticated
//! client, each stated and proved against its contract.
pub mod cache;
pub mod client;
pub mod error;
pub mod file;
pub mod login;
pub mod model;
pub mod paths;
pub mod text;
pub mod vfs;
