//! Memory regions whose access is handed to a service for a while.

use vstd::prelude::*;

verus! {

/// A region granted for reading. Whoever holds the value holds the region:
/// granting moves it to the service, and only a later grant or a revocation
/// moves it back. The empty region stands for "nothing granted".
#[derive(Debug)]
pub struct RoAllowBuffer {
    pub bytes: Vec<u8>,
}

/// A region granted for reading and writing. While a service holds it the
/// caller has no access at all; the service may change its contents.
#[derive(Debug)]
pub struct RwAllowBuffer {
    pub bytes: Vec<u8>,
}

impl View for RoAllowBuffer {
    type V = Seq<u8>;

    open spec fn view(&self) -> Seq<u8> {
        self.bytes@
    }
}

impl View for RwAllowBuffer {
    type V = Seq<u8>;

    open spec fn view(&self) -> Seq<u8> {
        self.bytes@
    }
}

impl RoAllowBuffer {
    /// The region that holds `bytes`.
    pub fn new(bytes: Vec<u8>) -> (buffer: RoAllowBuffer)
        ensures
            buffer@ == bytes@,
    {
        RoAllowBuffer { bytes }
    }

    /// Length of the region in bytes.
    pub fn len(&self) -> (len: usize)
        ensures
            len == self@.len(),
    {
        self.bytes.len()
    }

    /// Gives the bytes of the region back to the caller.
    pub fn into_bytes(self) -> (bytes: Vec<u8>)
        ensures
            bytes@ == self@,
    {
        self.bytes
    }
}

impl Default for RoAllowBuffer {
    /// The empty region.
    fn default() -> (buffer: RoAllowBuffer)
        ensures
            buffer@ == Seq::<u8>::empty(),
    {
        RoAllowBuffer { bytes: Vec::new() }
    }
}

impl RwAllowBuffer {
    /// The region that holds `bytes`.
    pub fn new(bytes: Vec<u8>) -> (buffer: RwAllowBuffer)
        ensures
            buffer@ == bytes@,
    {
        RwAllowBuffer { bytes }
    }

    /// Gives the bytes of the region back to the caller.
    pub fn into_bytes(self) -> (bytes: Vec<u8>)
        ensures
            bytes@ == self@,
    {
        self.bytes
    }
}

impl Default for RwAllowBuffer {
    /// The empty region.
    fn default() -> (buffer: RwAllowBuffer)
        ensures
            buffer@ == Seq::<u8>::empty(),
    {
        RwAllowBuffer { bytes: Vec::new() }
    }
}

} // verus!
