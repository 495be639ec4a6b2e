//! Typed hooks for decoding an attribute's value into a structured form.
//!
//! The decoders for the individual structured values (`$FILE_NAME`,
//! `$STANDARD_INFORMATION` and the rest) are collaborators of the
//! attribute layer; the layer itself only dispatches to them through
//! these traits. The one structured value decoded here is
//! `$ATTRIBUTE_LIST`, which the logical attribute iterator needs.

use vstd::prelude::*;
use crate::attribute::NtfsAttributeType;
use crate::error::NtfsError;
use crate::value::{NtfsSliceValue, NtfsValue};

verus! {

/// A structured value that can be built from an arbitrary attribute
/// value.
pub trait NtfsStructuredValue: Sized {
    /// The attribute type this structured value decodes.
    spec fn spec_ty() -> NtfsAttributeType;

    /// The decoded value is internally consistent.
    spec fn wf(&self) -> bool;

    /// The attribute type this structured value decodes.
    fn ty() -> (t: NtfsAttributeType)
        ensures
            t == Self::spec_ty(),
    ;

    /// Decodes a structured value from an attribute value.
    fn from_value(value: NtfsValue) -> (r: Result<Self, NtfsError>)
        requires
            value.wf(),
        ensures
            r matches Ok(s) ==> s.wf(),
    ;
}

/// A structured value that can also be built directly from a resident
/// attribute value: a fast path for the structured values that are always
/// resident.
pub trait NtfsStructuredValueFromResidentAttributeValue: NtfsStructuredValue {
    /// Decodes a structured value from the bytes of a resident attribute
    /// value.
    fn from_resident_attribute_value(value: NtfsSliceValue) -> (r: Result<Self, NtfsError>)
        requires
            value.wf(),
        ensures
            r matches Ok(s) ==> s.wf(),
    ;
}

} // verus!
