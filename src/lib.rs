//! Normalisation of comic archives: layout classification, the strip and
//! paged transforms, and the planning of the rewritten archive.
pub mod pixels;
pub mod naming;
pub mod strip;
pub mod archive_cleaner;
pub mod paths;
pub mod file_handler;
