//! The error surface of the attribute layer.
//!
//! Errors are tagged values, propagated by return. Every error detected
//! while decoding an attribute carries the absolute byte position (within
//! the volume) at which it was detected.

use vstd::prelude::*;
use crate::attribute::NtfsAttributeType;

verus! {

#[derive(Clone, Copy, Debug, PartialEq, Eq, Structural)]
pub enum NtfsError {
    /// The 4-byte type code at `position` is not a known attribute type.
    UnsupportedAttributeType { position: u64, actual: u32 },
    /// The attribute entry at `position` declares a length that is too
    /// small for its headers (`expected` is the required minimum) or that
    /// exceeds the bytes remaining in the record's used region (`expected`
    /// is the number of bytes that remain).
    InvalidAttributeLength { position: u64, expected: u32, actual: u32 },
    /// The name offset of the attribute at `position` does not lie inside
    /// the attribute entry of length `actual`.
    InvalidAttributeNameOffset { position: u64, expected: u16, actual: u32 },
    /// The name of the attribute at `position` would end at `expected`,
    /// past the end of the attribute entry of length `actual`.
    InvalidAttributeNameLength { position: u64, expected: u32, actual: u32 },
    /// The resident value offset of the attribute at `position` does not
    /// lie inside the attribute entry of length `actual`.
    InvalidResidentAttributeValueOffset { position: u64, expected: u16, actual: u32 },
    /// The resident value of the attribute at `position` would end at
    /// `expected`, past the end of the attribute entry of length `actual`.
    InvalidResidentAttributeValueLength { position: u64, expected: u64, actual: u32 },
    /// The data-runs offset of the non-resident attribute at `position`
    /// lies past the end of the attribute entry of length `actual`.
    InvalidNonResidentValueDataRunsOffset { position: u64, expected: u16, actual: u32 },
    /// A resident attribute value was required, but the attribute at
    /// `position` is non-resident.
    UnexpectedNonResidentAttribute { position: u64 },
    /// The attribute at `position` has type `actual` where type `expected`
    /// was requested.
    AttributeOfDifferentType {
        position: u64,
        expected: NtfsAttributeType,
        actual: NtfsAttributeType,
    },
    /// No attribute with the instance id `instance` exists in the file
    /// record referenced by the attribute-list entry at `position`.
    /// `ty` is the raw type code the entry declared.
    AttributeNotFound { position: u64, instance: u16, ty: u32 },
    /// The attribute-list entry at `position` is malformed: its declared
    /// length `actual` is below the fixed header size, overruns the list
    /// data (`expected` is what would have been admissible), or does not
    /// contain the declared name bytes.
    InvalidAttributeListEntryLength { position: u64, expected: u32, actual: u32 },
    /// The record loader holds no file record with this number.
    FileRecordNotFound { file_record_number: u64 },
    /// The value reader holds no pre-read value data for the
    /// non-resident `$ATTRIBUTE_LIST` attribute at `position`.
    AttributeListDataNotFound { position: u64 },
}

} // verus!
