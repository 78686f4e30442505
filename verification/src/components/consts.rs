//! Fixed sizes of the wire protocol.

use vstd::prelude::*;

verus! {

/// Capacity of the buffer that one read from a connection fills. A request that
/// is longer than this is cut off at this length.
pub const BUF_SIZE: usize = 1024;

} // verus!
