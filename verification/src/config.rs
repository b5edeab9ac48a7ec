//! Settings.

use vstd::prelude::*;

verus! {

/// How many mebibytes of rows are buffered before they are written, unless
/// set otherwise.
pub const DEFAULT_MUTATION_BUFFER_FLUSH_MB: i32 = 64;

/// The least that the setting can be.
pub const MIN_MUTATION_BUFFER_FLUSH_MB: i32 = 1;

/// How many bytes of rows are buffered before they are written.
pub fn mutation_buffer_flush_bytes(flush_mb: i32) -> (r: usize)
    requires
        MIN_MUTATION_BUFFER_FLUSH_MB <= flush_mb,
        flush_mb * 1024 * 1024 <= usize::MAX,
    ensures
        r == flush_mb * 1024 * 1024,
{
    flush_mb as usize * 1024 * 1024
}

} // verus!
