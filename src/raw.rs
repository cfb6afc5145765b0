//! The raw header: the fields of the fixed on-disk layout, as they stand in a file.

pub mod header;

pub use header::{Evlr, Header, LargeFile, LARGE_FILE_RETURNS, LASF, LEGACY_RETURNS};
