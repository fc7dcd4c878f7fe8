//! The numbers of the errors that clients are told.

use vstd::prelude::*;

verus! {

/// An error of unknown kind.
pub const UNKNOWN: u16 = 0;

/// A frame that cannot be taken.
pub const INVALID_FRAME: u16 = 1;

/// A failure inside the server.
pub const INTERNAL: u16 = 2;

/// A backend that is not there.
pub const BACKEND_UNAVAILABLE: u16 = 3;

/// A full queue.
pub const QUEUE_FULL: u16 = 4;

/// A model that is not loaded.
pub const MODEL_NOT_LOADED: u16 = 5;

/// The numbers are fixed, and no two errors share one.
pub proof fn law_codes_are_fixed()
    ensures
        UNKNOWN == 0,
        INVALID_FRAME == 1,
        INTERNAL == 2,
        BACKEND_UNAVAILABLE == 3,
        QUEUE_FULL == 4,
        MODEL_NOT_LOADED == 5,
{
}

} // verus!
