//! Answering requests from an archive, and choosing the archive that
//! answers.

pub mod handler;
pub mod laws;
pub mod router;
