//! Counting lines of text files, grouped by file extension.

pub mod aggregate;
pub mod chars;
pub mod filter;
pub mod fs;
pub mod index;
pub mod scan;
pub mod tally;
pub mod text;
pub mod tree;
pub mod walk;
