//! The value of an attribute, as handed out by the attribute cursor.
//!
//! A resident value is a copy of the bytes held inline in the record. A
//! non-resident value carries the attribute's data-run bytes, their
//! absolute position and the declared data size; walking the runs to read
//! the stream is the business of the external value reader, not of this
//! layer. A list-backed non-resident value additionally carries the
//! attribute-list entry iterator that lets the reader stitch connected
//! attributes.

use vstd::prelude::*;
use crate::attribute::NtfsAttributeType;
use crate::attribute_list::{list_entries_view_wf, ListEntriesView, NtfsAttributeListEntries};

verus! {

/// A resident attribute value: bytes taken from within the attribute
/// entry, plus the absolute position of the attribute they came from.
#[derive(Debug)]
pub struct NtfsSliceValue {
    data: Vec<u8>,
    position: u64,
}

impl NtfsSliceValue {
    pub closed spec fn spec_data(self) -> Seq<u8> {
        self.data@
    }

    pub closed spec fn spec_position(self) -> u64 {
        self.position
    }

    pub open spec fn wf(self) -> bool {
        self.spec_position() as int + self.spec_data().len() <= u64::MAX as int
    }

    pub(crate) fn new(data: Vec<u8>, position: u64) -> (r: NtfsSliceValue)
        requires
            position as int + data@.len() <= u64::MAX as int,
        ensures
            r.spec_data() == data@,
            r.spec_position() == position,
            r.wf(),
    {
        NtfsSliceValue { data, position }
    }

    /// The value bytes.
    pub fn data(&self) -> (r: &Vec<u8>)
        ensures
            r@ == self.spec_data(),
    {
        &self.data
    }

    /// The absolute position of the attribute this value was read from.
    pub fn position(&self) -> (r: u64)
        ensures
            r == self.spec_position(),
    {
        self.position
    }

    /// The number of bytes this value produces.
    pub fn len(&self) -> (r: u64)
        ensures
            r == self.spec_data().len(),
    {
        self.data.len() as u64
    }

    pub(crate) fn into_parts(self) -> (r: (Vec<u8>, u64))
        ensures
            r.0@ == self.spec_data(),
            r.1 == self.spec_position(),
    {
        (self.data, self.position)
    }
}

/// A non-resident attribute value: the data-run bytes of one attribute,
/// their absolute position, and the declared size of the value stream.
#[derive(Debug)]
pub struct NtfsNonResidentAttributeValue {
    data: Vec<u8>,
    position: u64,
    data_size: u64,
}

impl NtfsNonResidentAttributeValue {
    pub closed spec fn spec_data(self) -> Seq<u8> {
        self.data@
    }

    pub closed spec fn spec_position(self) -> u64 {
        self.position
    }

    pub closed spec fn spec_data_size(self) -> u64 {
        self.data_size
    }

    pub(crate) fn new(data: Vec<u8>, position: u64, data_size: u64) -> (r: Self)
        ensures
            r.spec_data() == data@,
            r.spec_position() == position,
            r.spec_data_size() == data_size,
    {
        NtfsNonResidentAttributeValue { data, position, data_size }
    }

    /// The raw data-run bytes of the attribute.
    pub fn data(&self) -> (r: &Vec<u8>)
        ensures
            r@ == self.spec_data(),
    {
        &self.data
    }

    /// The absolute position of the data-run bytes.
    pub fn position(&self) -> (r: u64)
        ensures
            r == self.spec_position(),
    {
        self.position
    }

    /// The number of bytes the value stream produces.
    pub fn len(&self) -> (r: u64)
        ensures
            r == self.spec_data_size(),
    {
        self.data_size
    }
}

/// A non-resident value whose attribute was reached through an
/// `$ATTRIBUTE_LIST`: the value may be split over multiple connected
/// attributes, which a reader finds by advancing the embedded entry
/// iterator from the saved state.
#[derive(Debug)]
pub struct NtfsAttributeListNonResidentAttributeValue {
    list_entries: NtfsAttributeListEntries,
    instance: u16,
    ty: NtfsAttributeType,
    data_size: u64,
    position: u64,
}

impl NtfsAttributeListNonResidentAttributeValue {
    pub closed spec fn spec_list_entries(self) -> ListEntriesView {
        self.list_entries@
    }

    pub closed spec fn spec_instance(self) -> u16 {
        self.instance
    }

    pub closed spec fn spec_ty(self) -> NtfsAttributeType {
        self.ty
    }

    pub closed spec fn spec_data_size(self) -> u64 {
        self.data_size
    }

    pub closed spec fn spec_position(self) -> u64 {
        self.position
    }

    pub open spec fn wf(self) -> bool {
        list_entries_view_wf(self.spec_list_entries())
    }

    pub(crate) fn new(
        list_entries: NtfsAttributeListEntries,
        instance: u16,
        ty: NtfsAttributeType,
        data_size: u64,
        position: u64,
    ) -> (r: Self)
        requires
            list_entries.wf(),
        ensures
            r.spec_list_entries() == list_entries@,
            r.spec_instance() == instance,
            r.spec_ty() == ty,
            r.spec_data_size() == data_size,
            r.spec_position() == position,
            r.wf(),
    {
        NtfsAttributeListNonResidentAttributeValue { list_entries, instance, ty, data_size, position }
    }

    /// The saved entry-iterator state from which the connected attributes
    /// of this value can be enumerated.
    pub fn list_entries(&self) -> (r: &NtfsAttributeListEntries)
        ensures
            r@ == self.spec_list_entries(),
    {
        &self.list_entries
    }

    /// The instance id shared by the connected attributes of this value.
    pub fn instance(&self) -> (r: u16)
        ensures
            r == self.spec_instance(),
    {
        self.instance
    }

    /// The type shared by the connected attributes of this value.
    pub fn ty(&self) -> (r: NtfsAttributeType)
        ensures
            r == self.spec_ty(),
    {
        self.ty
    }

    /// The total number of bytes of the reassembled value stream, as
    /// reported by the first connected attribute.
    pub fn len(&self) -> (r: u64)
        ensures
            r == self.spec_data_size(),
    {
        self.data_size
    }

    /// The absolute position of the first connected attribute.
    pub fn position(&self) -> (r: u64)
        ensures
            r == self.spec_position(),
    {
        self.position
    }
}

/// The value of an attribute, in whichever of the three storage forms the
/// attribute uses.
#[derive(Debug)]
pub enum NtfsValue {
    Slice(NtfsSliceValue),
    NonResidentAttribute(NtfsNonResidentAttributeValue),
    AttributeListNonResidentAttribute(NtfsAttributeListNonResidentAttributeValue),
}

impl NtfsValue {
    pub open spec fn spec_len(self) -> int {
        match self {
            NtfsValue::Slice(v) => v.spec_data().len() as int,
            NtfsValue::NonResidentAttribute(v) => v.spec_data_size() as int,
            NtfsValue::AttributeListNonResidentAttribute(v) => v.spec_data_size() as int,
        }
    }

    pub open spec fn spec_position(self) -> u64 {
        match self {
            NtfsValue::Slice(v) => v.spec_position(),
            NtfsValue::NonResidentAttribute(v) => v.spec_position(),
            NtfsValue::AttributeListNonResidentAttribute(v) => v.spec_position(),
        }
    }

    pub open spec fn wf(self) -> bool {
        match self {
            NtfsValue::Slice(v) => v.wf(),
            NtfsValue::NonResidentAttribute(v) => true,
            NtfsValue::AttributeListNonResidentAttribute(v) => v.wf(),
        }
    }

    /// The number of bytes the value stream produces.
    pub fn len(&self) -> (r: u64)
        ensures
            r == self.spec_len(),
    {
        match self {
            NtfsValue::Slice(v) => v.len(),
            NtfsValue::NonResidentAttribute(v) => v.len(),
            NtfsValue::AttributeListNonResidentAttribute(v) => v.len(),
        }
    }

    /// The absolute position the value was read from.
    pub fn position(&self) -> (r: u64)
        ensures
            r == self.spec_position(),
    {
        match self {
            NtfsValue::Slice(v) => v.position(),
            NtfsValue::NonResidentAttribute(v) => v.position(),
            NtfsValue::AttributeListNonResidentAttribute(v) => v.position(),
        }
    }
}

} // verus!
