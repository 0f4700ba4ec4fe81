pub mod primitives;
pub mod stream;
