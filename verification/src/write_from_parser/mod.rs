//! What is written from the reference definitions of a document.

pub mod github;
pub mod write_refdefs;
