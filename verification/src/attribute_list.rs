//! The `$ATTRIBUTE_LIST` structured value and its entry iterator.
//!
//! When a file's metadata overflows one file record, an `$ATTRIBUTE_LIST`
//! attribute enumerates, for every attribute of the file, the file record
//! that actually holds the attribute's header. Each entry of the list
//! names the attribute's type, name, starting VCN, base file reference and
//! instance id.

use vstd::prelude::*;
use crate::attribute::{
    attr_offsets, instance_at, spec_attribute_type_from_code, walk_clean, NtfsAttribute,
    NtfsAttributesRaw, NtfsAttributeType,
};
use crate::bytes::{copy_bytes, copy_range};
use crate::endian::{le16, le32, le64, le64_signed, read_le_i64, read_le_u16, read_le_u32, read_le_u64};
use crate::error::NtfsError;
use crate::file::{Ntfs, NtfsFile, NtfsFileReference, spec_reference_record_number};
use crate::string::NtfsString;
use crate::structured_values::{
    NtfsStructuredValue, NtfsStructuredValueFromResidentAttributeValue,
};
use crate::value::{NtfsSliceValue, NtfsValue};

verus! {

/// Byte size of the fixed header of an attribute-list entry.
pub const ATTRIBUTE_LIST_ENTRY_HEADER_SIZE: u16 = 26;

/// The 32-bit type code of the entry starting at byte `p` of the list data.
pub open spec fn entry_ty_code(d: Seq<u8>, p: int) -> int {
    le32(d, p)
}

/// The declared byte length of the entry starting at `p`.
pub open spec fn entry_length(d: Seq<u8>, p: int) -> int {
    le16(d, p + 4)
}

/// The name length of the entry at `p`, in UTF-16 code units.
pub open spec fn entry_name_length(d: Seq<u8>, p: int) -> int {
    d[p + 6] as int
}

/// The name offset of the entry at `p`, relative to the entry start.
pub open spec fn entry_name_offset(d: Seq<u8>, p: int) -> int {
    d[p + 7] as int
}

/// The lowest VCN covered by the attribute fragment this entry names.
pub open spec fn entry_lowest_vcn(d: Seq<u8>, p: int) -> int {
    le64_signed(d, p + 8)
}

/// The 64-bit base file reference of the entry at `p`.
pub open spec fn entry_reference(d: Seq<u8>, p: int) -> int {
    le64(d, p + 16)
}

/// The instance id the entry at `p` carries.
pub open spec fn entry_instance(d: Seq<u8>, p: int) -> int {
    le16(d, p + 24)
}

/// The entry starting at `p` is decodable: its fixed header lies within
/// the list data, its declared length covers at least the fixed header and
/// does not overrun the list data, and the declared name bytes lie within
/// the entry.
pub open spec fn entry_step_ok(d: Seq<u8>, p: int) -> bool {
    &&& p + 26 <= d.len()
    &&& entry_length(d, p) >= 26
    &&& p + entry_length(d, p) <= d.len()
    &&& entry_name_offset(d, p) + 2 * entry_name_length(d, p) <= entry_length(d, p)
}

/// The mathematical content of one decoded attribute-list entry.
pub struct EntryView {
    pub ty_code: u32,
    pub length: u16,
    pub name: Seq<u8>,
    pub lowest_vcn: i64,
    pub reference: u64,
    pub instance: u16,
    pub position: u64,
}

/// The decoded content of the entry starting at byte `p` of the list data,
/// where the list data itself starts at absolute position `base_position`.
pub open spec fn entry_view_at(d: Seq<u8>, base_position: u64, p: int) -> EntryView {
    EntryView {
        ty_code: entry_ty_code(d, p) as u32,
        length: entry_length(d, p) as u16,
        name: d.subrange(
            p + entry_name_offset(d, p),
            p + entry_name_offset(d, p) + 2 * entry_name_length(d, p),
        ),
        lowest_vcn: entry_lowest_vcn(d, p) as i64,
        reference: entry_reference(d, p) as u64,
        instance: entry_instance(d, p) as u16,
        position: (base_position + p) as u64,
    }
}

/// One decoded entry of an `$ATTRIBUTE_LIST` value.
#[derive(Clone, Debug)]
pub struct NtfsAttributeListEntry {
    ty_code: u32,
    length: u16,
    name: NtfsString,
    lowest_vcn: i64,
    base_file_reference: NtfsFileReference,
    instance: u16,
    position: u64,
}

impl View for NtfsAttributeListEntry {
    type V = EntryView;

    closed spec fn view(&self) -> EntryView {
        EntryView {
            ty_code: self.ty_code,
            length: self.length,
            name: self.name@,
            lowest_vcn: self.lowest_vcn,
            reference: self.base_file_reference.spec_reference(),
            instance: self.instance,
            position: self.position,
        }
    }
}

impl NtfsAttributeListEntry {
    /// The raw 32-bit attribute type code of this entry.
    pub fn ty_code(&self) -> (r: u32)
        ensures
            r == self@.ty_code,
    {
        self.ty_code
    }

    /// The attribute type of this entry, or `UnsupportedAttributeType` if
    /// the code is unknown.
    pub fn ty(&self) -> (r: Result<NtfsAttributeType, NtfsError>)
        ensures
            match spec_attribute_type_from_code(self@.ty_code) {
                Some(t) => r == Ok::<NtfsAttributeType, NtfsError>(t),
                None => r == Err::<NtfsAttributeType, NtfsError>(
                    NtfsError::UnsupportedAttributeType {
                        position: self@.position,
                        actual: self@.ty_code,
                    },
                ),
            },
    {
        match NtfsAttributeType::n(self.ty_code) {
            Some(t) => Ok(t),
            None => Err(
                NtfsError::UnsupportedAttributeType { position: self.position, actual: self.ty_code },
            ),
        }
    }

    /// The declared byte length of this entry.
    pub fn list_entry_length(&self) -> (r: u16)
        ensures
            r == self@.length,
    {
        self.length
    }

    /// The attribute name this entry carries (may be empty).
    pub fn name(&self) -> (r: &NtfsString)
        ensures
            r@ == self@.name,
    {
        &self.name
    }

    /// The lowest VCN of the attribute fragment this entry names. Zero for
    /// resident attributes and for the first fragment of a split value.
    pub fn lowest_vcn(&self) -> (r: i64)
        ensures
            r == self@.lowest_vcn,
    {
        self.lowest_vcn
    }

    /// The reference to the file record holding the attribute's header.
    pub fn base_file_reference(&self) -> (r: NtfsFileReference)
        ensures
            r.spec_reference() == self@.reference,
    {
        self.base_file_reference
    }

    /// The instance id of the attribute within its file record.
    pub fn instance(&self) -> (r: u16)
        ensures
            r == self@.instance,
    {
        self.instance
    }

    /// The absolute position of this entry within the volume (meaningful
    /// when the list value was resident).
    pub fn position(&self) -> (r: u64)
        ensures
            r == self@.position,
    {
        self.position
    }

    /// Loads the file record this entry's base file reference points at.
    pub fn to_file(&self, ntfs: &Ntfs) -> (r: Result<NtfsFile, NtfsError>)
        requires
            ntfs.wf(),
        ensures
            match r {
                Ok(f) => {
                    &&& f.wf()
                    &&& f@.file_record_number == spec_reference_record_number(self@.reference)
                    &&& exists|i: int|
                        0 <= i < ntfs@.len() && f@ == ntfs@[i]
                            && (#[trigger] ntfs@[i]).file_record_number as int
                            == spec_reference_record_number(self@.reference) && forall|j: int|
                            0 <= j < i ==> (#[trigger] ntfs@[j]).file_record_number as int
                                != spec_reference_record_number(self@.reference)
                },
                Err(e) => {
                    &&& e == (NtfsError::FileRecordNotFound {
                        file_record_number: spec_reference_record_number(
                            self@.reference,
                        ) as u64,
                    })
                    &&& forall|i: int|
                        0 <= i < ntfs@.len() ==> (#[trigger] ntfs@[i]).file_record_number as int
                            != spec_reference_record_number(self@.reference)
                },
            },
    {
        let number: u64 = self.base_file_reference.file_record_number();
        match ntfs.file(number) {
            Ok(f) => {
                proof {
                    let i = choose|i: int|
                        0 <= i < ntfs@.len() && f@ == ntfs@[i] && (#[trigger] ntfs@[i]).file_record_number
                            == number && forall|j: int|
                            0 <= j < i ==> (#[trigger] ntfs@[j]).file_record_number != number;
                    assert(f@.file_record_number == number);
                }
                Ok(f)
            },
            Err(e) => Err(e),
        }
    }

    /// Searches `file`'s raw attribute stream for the attribute whose
    /// instance id matches this entry, and returns a cursor to it. Returns
    /// `AttributeNotFound` when the stream ends cleanly without a match,
    /// and forwards the structural error when the stream is malformed.
    pub fn to_attribute(&self, file: &NtfsFile) -> (r: Result<NtfsAttribute, NtfsError>)
        requires
            file.wf(),
        ensures
            ({
                let d = file@.data;
                let used = file@.used_size as int;
                let fao = file@.first_attribute_offset as int;
                let offs = attr_offsets(d, used, fao);
                match r {
                    Ok(a) => {
                        &&& a.wf()
                        &&& a.spec_file() == file@
                        &&& !a.spec_has_list_entries()
                        &&& instance_at(d, a.spec_offset()) == self@.instance
                        &&& exists|k: int|
                            0 <= k < offs.len() && #[trigger] offs[k] == a.spec_offset()
                                && forall|j: int|
                                0 <= j < k ==> instance_at(d, #[trigger] offs[j]) != self@.instance
                    },
                    Err(e) => match e {
                        NtfsError::AttributeNotFound { position, instance, ty } => {
                            &&& position == self@.position
                            &&& instance == self@.instance
                            &&& ty == self@.ty_code
                            &&& walk_clean(d, used, fao)
                            &&& forall|j: int|
                                0 <= j < offs.len() ==> instance_at(d, #[trigger] offs[j])
                                    != self@.instance
                        },
                        NtfsError::InvalidAttributeLength { .. } => {
                            &&& !walk_clean(d, used, fao)
                            &&& forall|j: int|
                                0 <= j < offs.len() ==> instance_at(d, #[trigger] offs[j])
                                    != self@.instance
                        },
                        _ => false,
                    },
                }
            }),
    {
        let ghost d = file@.data;
        let ghost used = file@.used_size as int;
        let ghost fao = file@.first_attribute_offset as int;
        let ghost offs = attr_offsets(d, used, fao);
        let mut iter = NtfsAttributesRaw::new(file);
        loop
            invariant
                file.wf(),
                iter.wf(),
                !iter.spec_finished(),
                iter.spec_file() == file@,
                d == file@.data,
                used == file@.used_size as int,
                fao == file@.first_attribute_offset as int,
                offs == attr_offsets(d, used, fao),
                offs == iter.spec_visited() + attr_offsets(d, used, iter.spec_pos()),
                forall|j: int|
                    0 <= j < iter.spec_visited().len() ==> instance_at(
                        d,
                        #[trigger] iter.spec_visited()[j],
                    ) != self@.instance,
            decreases used - iter.spec_pos(),
        {
            let ghost pre_visited = iter.spec_visited();
            match iter.next() {
                None => {
                    proof {
                        assert(offs =~= pre_visited);
                    }
                    return Err(
                        NtfsError::AttributeNotFound {
                            position: self.position,
                            instance: self.instance,
                            ty: self.ty_code,
                        },
                    );
                },
                Some(Err(e)) => {
                    proof {
                        assert(offs =~= pre_visited);
                    }
                    return Err(e);
                },
                Some(Ok(attribute)) => {
                    if attribute.instance() == self.instance {
                        proof {
                            let k = pre_visited.len() as int;
                            assert(offs[k] == attribute.spec_offset());
                            assert(forall|j: int|
                                0 <= j < k ==> instance_at(d, #[trigger] offs[j])
                                    != self@.instance);
                        }
                        return Ok(attribute);
                    }
                    proof {
                        assert(forall|j: int|
                            0 <= j < iter.spec_visited().len() ==> instance_at(
                                d,
                                #[trigger] iter.spec_visited()[j],
                            ) != self@.instance);
                    }
                },
            }
        }
    }
}

/// The mathematical state of an attribute-list entry iterator.
pub struct ListEntriesView {
    pub data: Seq<u8>,
    pub position: u64,
    pub pos: int,
    pub finished: bool,
}

/// The iterator state is consistent: its position lies within the list
/// data, and every byte of the data has an absolute position that fits in
/// 64 bits.
pub open spec fn list_entries_view_wf(v: ListEntriesView) -> bool {
    &&& 0 <= v.pos <= v.data.len()
    &&& v.position as int + v.data.len() <= u64::MAX as int
}

/// An iterator over the entries of an `$ATTRIBUTE_LIST` value. Its state
/// is a position within an owned copy of the list bytes, so cloning it
/// saves a restart point; the logical attribute iterator relies on this to
/// stitch connected non-resident attributes.
#[derive(Debug)]
pub struct NtfsAttributeListEntries {
    data: Vec<u8>,
    position: u64,
    pos: usize,
    finished: bool,
}

impl View for NtfsAttributeListEntries {
    type V = ListEntriesView;

    closed spec fn view(&self) -> ListEntriesView {
        ListEntriesView {
            data: self.data@,
            position: self.position,
            pos: self.pos as int,
            finished: self.finished,
        }
    }
}

impl Clone for NtfsAttributeListEntries {
    fn clone(&self) -> (r: Self)
        ensures
            r@ == self@,
    {
        NtfsAttributeListEntries {
            data: copy_bytes(&self.data),
            position: self.position,
            pos: self.pos,
            finished: self.finished,
        }
    }
}

impl NtfsAttributeListEntries {
    pub open spec fn wf(self) -> bool {
        list_entries_view_wf(self@)
    }

    /// Starts an entry iterator over `data`, the bytes of an
    /// `$ATTRIBUTE_LIST` value read at `position`.
    pub(crate) fn new(data: Vec<u8>, position: u64) -> (r: NtfsAttributeListEntries)
        requires
            position as int + data@.len() <= u64::MAX as int,
        ensures
            r@ == (ListEntriesView { data: data@, position, pos: 0, finished: false }),
            r.wf(),
    {
        NtfsAttributeListEntries { data, position, pos: 0, finished: false }
    }

    /// Decodes the next entry. After the first `None` or error, every
    /// further call returns `None`.
    pub fn next(&mut self) -> (r: Option<Result<NtfsAttributeListEntry, NtfsError>>)
        requires
            old(self).wf(),
        ensures
            final(self).wf(),
            final(self)@.data == old(self)@.data,
            final(self)@.position == old(self)@.position,
            match r {
                None => {
                    &&& final(self)@.pos == old(self)@.pos
                    &&& final(self)@.finished
                    &&& old(self)@.finished || old(self)@.pos >= old(self)@.data.len()
                },
                Some(rr) => match rr {
                    Ok(entry) => {
                        &&& !old(self)@.finished
                        &&& old(self)@.pos < old(self)@.data.len()
                        &&& entry_step_ok(old(self)@.data, old(self)@.pos)
                        &&& entry@ == entry_view_at(
                            old(self)@.data,
                            old(self)@.position,
                            old(self)@.pos,
                        )
                        &&& final(self)@.pos == old(self)@.pos + entry_length(
                            old(self)@.data,
                            old(self)@.pos,
                        )
                        &&& !final(self)@.finished
                    },
                    Err(e) => {
                        &&& !old(self)@.finished
                        &&& old(self)@.pos < old(self)@.data.len()
                        &&& !entry_step_ok(old(self)@.data, old(self)@.pos)
                        &&& final(self)@.pos == old(self)@.pos
                        &&& final(self)@.finished
                        &&& e matches NtfsError::InvalidAttributeListEntryLength {
                            position,
                            ..
                        } && position == old(self)@.position + old(self)@.pos
                    },
                },
            },
    {
        if self.finished {
            return None;
        }
        let len: usize = self.data.len();
        if self.pos >= len {
            self.finished = true;
            return None;
        }
        let entry_position: u64 = self.position + self.pos as u64;
        if len - self.pos < ATTRIBUTE_LIST_ENTRY_HEADER_SIZE as usize {
            self.finished = true;
            return Some(
                Err(
                    NtfsError::InvalidAttributeListEntryLength {
                        position: entry_position,
                        expected: ATTRIBUTE_LIST_ENTRY_HEADER_SIZE as u32,
                        actual: (len - self.pos) as u32,
                    },
                ),
            );
        }
        let declared_length: u16 = read_le_u16(&self.data, self.pos + 4);
        if declared_length < ATTRIBUTE_LIST_ENTRY_HEADER_SIZE {
            self.finished = true;
            return Some(
                Err(
                    NtfsError::InvalidAttributeListEntryLength {
                        position: entry_position,
                        expected: ATTRIBUTE_LIST_ENTRY_HEADER_SIZE as u32,
                        actual: declared_length as u32,
                    },
                ),
            );
        }
        if len - self.pos < declared_length as usize {
            self.finished = true;
            return Some(
                Err(
                    NtfsError::InvalidAttributeListEntryLength {
                        position: entry_position,
                        expected: (len - self.pos) as u32,
                        actual: declared_length as u32,
                    },
                ),
            );
        }
        let name_length: u8 = self.data[self.pos + 6];
        let name_offset: u8 = self.data[self.pos + 7];
        if name_offset as u16 + 2 * (name_length as u16) > declared_length {
            self.finished = true;
            return Some(
                Err(
                    NtfsError::InvalidAttributeListEntryLength {
                        position: entry_position,
                        expected: name_offset as u32 + 2 * (name_length as u32),
                        actual: declared_length as u32,
                    },
                ),
            );
        }
        let name_start: usize = self.pos + name_offset as usize;
        let name_end: usize = name_start + 2 * (name_length as usize);
        let name = NtfsString::new(copy_range(&self.data, name_start, name_end));
        let entry = NtfsAttributeListEntry {
            ty_code: read_le_u32(&self.data, self.pos),
            length: declared_length,
            name,
            lowest_vcn: read_le_i64(&self.data, self.pos + 8),
            base_file_reference: NtfsFileReference::new(read_le_u64(&self.data, self.pos + 16)),
            instance: read_le_u16(&self.data, self.pos + 24),
            position: entry_position,
        };
        self.pos = self.pos + declared_length as usize;
        Some(Ok(entry))
    }
}

/// The decoded byte content of an `$ATTRIBUTE_LIST` attribute's value,
/// plus the absolute position it was read from.
pub struct NtfsAttributeList {
    data: Vec<u8>,
    position: u64,
}

impl NtfsAttributeList {
    pub closed spec fn spec_data(self) -> Seq<u8> {
        self.data@
    }

    pub closed spec fn spec_position(self) -> u64 {
        self.position
    }

    /// Wraps list value bytes read at `position`. Returns `None` when the
    /// buffer would extend past the last addressable volume position.
    pub fn new(data: Vec<u8>, position: u64) -> (r: Option<NtfsAttributeList>)
        ensures
            r is Some <==> position as int + data@.len() <= u64::MAX as int,
            r matches Some(l) ==> l.spec_data() == data@ && l.spec_position() == position && l.wf(),
    {
        if data.len() as u64 <= u64::MAX - position {
            Some(NtfsAttributeList { data, position })
        } else {
            None
        }
    }

    /// The raw bytes of the list value.
    pub fn data(&self) -> (r: &Vec<u8>)
        ensures
            r@ == self.spec_data(),
    {
        &self.data
    }

    /// The absolute position of the list value.
    pub fn position(&self) -> (r: u64)
        ensures
            r == self.spec_position(),
    {
        self.position
    }

    /// An iterator over the entries of this list, starting at its first
    /// entry.
    pub fn iter(&self) -> (r: NtfsAttributeListEntries)
        requires
            self.wf(),
        ensures
            r@ == (ListEntriesView {
                data: self.spec_data(),
                position: self.spec_position(),
                pos: 0,
                finished: false,
            }),
            r.wf(),
    {
        NtfsAttributeListEntries {
            data: copy_bytes(&self.data),
            position: self.position,
            pos: 0,
            finished: false,
        }
    }
}

impl NtfsStructuredValue for NtfsAttributeList {
    open spec fn spec_ty() -> NtfsAttributeType {
        NtfsAttributeType::AttributeList
    }

    closed spec fn wf(&self) -> bool {
        self.position as int + self.data@.len() <= u64::MAX as int
    }

    fn ty() -> (t: NtfsAttributeType) {
        NtfsAttributeType::AttributeList
    }

    /// An `$ATTRIBUTE_LIST` value can be decoded directly only when it is
    /// resident; reading a non-resident list value is the business of the
    /// external value reader, whose bytes can be handed to
    /// `NtfsAttributeList::new` instead.
    fn from_value(value: NtfsValue) -> (r: Result<Self, NtfsError>)
        ensures
            value matches NtfsValue::Slice(s) ==> (r matches Ok(l) && l.spec_data()
                == s.spec_data() && l.spec_position() == s.spec_position()),
            !(value matches NtfsValue::Slice(_)) ==> r == Err::<Self, NtfsError>(
                NtfsError::UnexpectedNonResidentAttribute { position: value.spec_position() },
            ),
    {
        match value {
            NtfsValue::Slice(s) => {
                let (data, position) = s.into_parts();
                Ok(NtfsAttributeList { data, position })
            },
            NtfsValue::NonResidentAttribute(v) => Err(
                NtfsError::UnexpectedNonResidentAttribute { position: v.position() },
            ),
            NtfsValue::AttributeListNonResidentAttribute(v) => Err(
                NtfsError::UnexpectedNonResidentAttribute { position: v.position() },
            ),
        }
    }
}

impl NtfsStructuredValueFromResidentAttributeValue for NtfsAttributeList {
    fn from_resident_attribute_value(value: NtfsSliceValue) -> (r: Result<Self, NtfsError>)
        ensures
            r matches Ok(l) && l.spec_data() == value.spec_data() && l.spec_position()
                == value.spec_position(),
    {
        let (data, position) = value.into_parts();
        Ok(NtfsAttributeList { data, position })
    }
}

} // verus!
