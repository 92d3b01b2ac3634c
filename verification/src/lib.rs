//! The file entity of a storage system: a file's identity, its logical
//! location and its metadata, with the rules that keep them consistent.

pub mod clock;
pub mod file;
pub mod storage_path;
