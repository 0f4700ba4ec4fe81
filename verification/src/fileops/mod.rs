pub mod compress;
pub mod reader;
pub mod writer;
