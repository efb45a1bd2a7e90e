//! Where the documents go.
pub mod fs;
