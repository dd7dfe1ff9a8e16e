//! File-identity and file-lifecycle primitives for a downloader/organizer:
//! a streaming content digest, filename derivation, extraction of a filename
//! from a Content-Disposition header, and the decision logic of a
//! post-download file action (move, delete, or nothing).

pub mod action;
pub mod digest;
pub mod filename;
pub mod text;
