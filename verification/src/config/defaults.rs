//! Default configuration values.
use vstd::prelude::*;

verus! {

/// Default number of worker threads.
pub const DEFAULT_WORKERS: usize = 4;

/// Default batch size for processing.
pub const DEFAULT_BATCH_SIZE: usize = 1000;

/// Default buffer size for channels.
pub const DEFAULT_BUFFER_SIZE: usize = 10000;

}
