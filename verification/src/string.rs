//! Attribute names as raw UTF-16LE byte strings.
//!
//! The attribute layer only slices name bytes out of record buffers; text
//! decoding is left to the caller.

use vstd::prelude::*;

verus! {

/// An unterminated UTF-16LE byte string, two bytes per code unit.
#[derive(Clone, Debug, PartialEq, Eq)]
pub struct NtfsString {
    bytes: Vec<u8>,
}

impl View for NtfsString {
    type V = Seq<u8>;

    closed spec fn view(&self) -> Seq<u8> {
        self.bytes@
    }
}

impl NtfsString {
    pub fn new(bytes: Vec<u8>) -> (r: NtfsString)
        ensures
            r@ == bytes@,
    {
        NtfsString { bytes }
    }

    /// The raw UTF-16LE bytes of the name.
    pub fn as_bytes(&self) -> (r: &Vec<u8>)
        ensures
            r@ == self@,
    {
        &self.bytes
    }

    /// The length of the name, in bytes (twice its length in code units).
    pub fn len(&self) -> (r: usize)
        ensures
            r == self@.len(),
    {
        self.bytes.len()
    }

    pub fn is_empty(&self) -> (r: bool)
        ensures
            r == (self@.len() == 0),
    {
        self.bytes.len() == 0
    }
}

} // verus!
