//! Resolution of `hf://owner/repo[//filter]` identifiers into repository
//! references, selection of a repository's files, and the local paths the
//! selected files are written to.

pub mod error;
pub mod file_loader;
pub mod hf_uri;
pub mod local_path;
pub mod text;
