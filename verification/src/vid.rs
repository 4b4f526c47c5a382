//! What the codec needs to know of a dispersal of the namespace payloads.
//!
//! The namespace payloads of a block are dispersed among storage nodes by a
//! scheme that commits to them and can open any range of their bytes. The
//! scheme itself is not part of this library. Of the common data of a
//! dispersal the codec reads one number: how many bytes were dispersed.

use vstd::prelude::*;

verus! {

/// The common data of a dispersal, as far as the codec reads it.
#[derive(Clone, Copy, Debug, PartialEq, Eq, Hash, Structural)]
pub struct VidCommon {
    payload_byte_len: u64,
}

impl View for VidCommon {
    type V = int;

    /// The number of bytes that were dispersed.
    closed spec fn view(&self) -> int {
        self.payload_byte_len as int
    }
}

impl VidCommon {
    /// The common data of a dispersal of `payload_byte_len` bytes.
    pub fn new(payload_byte_len: u64) -> (common: VidCommon)
        ensures
            common@ == payload_byte_len,
    {
        VidCommon { payload_byte_len }
    }

    /// The number of bytes that were dispersed.
    pub fn payload_byte_len(&self) -> (len: u64)
        ensures
            len == self@,
    {
        self.payload_byte_len
    }
}

} // verus!
