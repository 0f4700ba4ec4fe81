use vstd::prelude::*;

verus! {

/// The size of the chunks in which files are read and sent (512 KiB).
pub const CHUNK_SIZE: usize = 524288;

} // verus!
