//! Attributes of a file record: the typed cursor over one attribute
//! header, the raw iterator over one record's attribute area, and the
//! logical iterator that follows `$ATTRIBUTE_LIST` indirections.
//!
//! On-disk layout (all integers little-endian), relative to the start of
//! an attribute entry:
//!
//! * fixed prefix: type code at 0 (4 bytes), entry length at 4 (4),
//!   non-resident flag at 8 (1), name length in UTF-16 code units at 9
//!   (1), name offset at 10 (2), flags at 12 (2), instance id at 14 (2);
//! * resident extension: value length at 16 (4), value offset at 20 (2);
//! * non-resident extension: lowest VCN at 16 (8), highest VCN at 24 (8),
//!   data-runs offset at 32 (2), compression unit exponent at 34 (1),
//!   reserved at 35 (5), allocated size at 40 (8), data size at 48 (8),
//!   initialized size at 56 (8).

use vstd::prelude::*;
use crate::attribute_list::{
    entry_instance, entry_length, entry_reference, entry_step_ok, entry_ty_code, entry_view_at,
    list_entries_view_wf, EntryView, ListEntriesView, NtfsAttributeListEntries,
};
use crate::bytes::copy_range;
use crate::endian::{le16, le32, le64, read_le_u16, read_le_u32, read_le_u64};
use crate::error::NtfsError;
use crate::file::{
    lemma_list_data_lookup_none, lemma_list_data_lookup_some, lemma_record_lookup_none,
    lemma_record_lookup_some, spec_list_data_lookup, spec_record_lookup,
    spec_reference_record_number, AttributeListDataView, FileRecordView, Ntfs, NtfsFile,
};
use crate::string::NtfsString;
use crate::structured_values::{
    NtfsStructuredValue, NtfsStructuredValueFromResidentAttributeValue,
};
use crate::value::{
    NtfsAttributeListNonResidentAttributeValue, NtfsNonResidentAttributeValue, NtfsSliceValue,
    NtfsValue,
};

verus! {

/// The type code that terminates a record's attribute area.
pub const END_MARKER_CODE: u32 = 0xFFFF_FFFF;

/// The known attribute types of the NTFS format.
#[derive(Clone, Copy, Debug, PartialEq, Eq, Structural)]
pub enum NtfsAttributeType {
    StandardInformation,
    AttributeList,
    FileName,
    ObjectId,
    SecurityDescriptor,
    VolumeName,
    VolumeInformation,
    Data,
    IndexRoot,
    IndexAllocation,
    Bitmap,
    ReparsePoint,
    EAInformation,
    EA,
    PropertySet,
    LoggedUtilityStream,
    End,
}

/// The on-disk code of each known attribute type.
pub open spec fn spec_attribute_type_code(t: NtfsAttributeType) -> u32 {
    match t {
        NtfsAttributeType::StandardInformation => 0x10,
        NtfsAttributeType::AttributeList => 0x20,
        NtfsAttributeType::FileName => 0x30,
        NtfsAttributeType::ObjectId => 0x40,
        NtfsAttributeType::SecurityDescriptor => 0x50,
        NtfsAttributeType::VolumeName => 0x60,
        NtfsAttributeType::VolumeInformation => 0x70,
        NtfsAttributeType::Data => 0x80,
        NtfsAttributeType::IndexRoot => 0x90,
        NtfsAttributeType::IndexAllocation => 0xA0,
        NtfsAttributeType::Bitmap => 0xB0,
        NtfsAttributeType::ReparsePoint => 0xC0,
        NtfsAttributeType::EAInformation => 0xD0,
        NtfsAttributeType::EA => 0xE0,
        NtfsAttributeType::PropertySet => 0xF0,
        NtfsAttributeType::LoggedUtilityStream => 0x100,
        NtfsAttributeType::End => 0xFFFF_FFFF,
    }
}

/// The known attribute type with the given on-disk code, if any.
pub open spec fn spec_attribute_type_from_code(code: u32) -> Option<NtfsAttributeType> {
    if code == 0x10 {
        Some(NtfsAttributeType::StandardInformation)
    } else if code == 0x20 {
        Some(NtfsAttributeType::AttributeList)
    } else if code == 0x30 {
        Some(NtfsAttributeType::FileName)
    } else if code == 0x40 {
        Some(NtfsAttributeType::ObjectId)
    } else if code == 0x50 {
        Some(NtfsAttributeType::SecurityDescriptor)
    } else if code == 0x60 {
        Some(NtfsAttributeType::VolumeName)
    } else if code == 0x70 {
        Some(NtfsAttributeType::VolumeInformation)
    } else if code == 0x80 {
        Some(NtfsAttributeType::Data)
    } else if code == 0x90 {
        Some(NtfsAttributeType::IndexRoot)
    } else if code == 0xA0 {
        Some(NtfsAttributeType::IndexAllocation)
    } else if code == 0xB0 {
        Some(NtfsAttributeType::Bitmap)
    } else if code == 0xC0 {
        Some(NtfsAttributeType::ReparsePoint)
    } else if code == 0xD0 {
        Some(NtfsAttributeType::EAInformation)
    } else if code == 0xE0 {
        Some(NtfsAttributeType::EA)
    } else if code == 0xF0 {
        Some(NtfsAttributeType::PropertySet)
    } else if code == 0x100 {
        Some(NtfsAttributeType::LoggedUtilityStream)
    } else if code == 0xFFFF_FFFF {
        Some(NtfsAttributeType::End)
    } else {
        None
    }
}

impl NtfsAttributeType {
    /// Maps an on-disk type code to the known attribute type, if any.
    pub fn n(code: u32) -> (r: Option<NtfsAttributeType>)
        ensures
            r == spec_attribute_type_from_code(code),
    {
        if code == 0x10 {
            Some(NtfsAttributeType::StandardInformation)
        } else if code == 0x20 {
            Some(NtfsAttributeType::AttributeList)
        } else if code == 0x30 {
            Some(NtfsAttributeType::FileName)
        } else if code == 0x40 {
            Some(NtfsAttributeType::ObjectId)
        } else if code == 0x50 {
            Some(NtfsAttributeType::SecurityDescriptor)
        } else if code == 0x60 {
            Some(NtfsAttributeType::VolumeName)
        } else if code == 0x70 {
            Some(NtfsAttributeType::VolumeInformation)
        } else if code == 0x80 {
            Some(NtfsAttributeType::Data)
        } else if code == 0x90 {
            Some(NtfsAttributeType::IndexRoot)
        } else if code == 0xA0 {
            Some(NtfsAttributeType::IndexAllocation)
        } else if code == 0xB0 {
            Some(NtfsAttributeType::Bitmap)
        } else if code == 0xC0 {
            Some(NtfsAttributeType::ReparsePoint)
        } else if code == 0xD0 {
            Some(NtfsAttributeType::EAInformation)
        } else if code == 0xE0 {
            Some(NtfsAttributeType::EA)
        } else if code == 0xF0 {
            Some(NtfsAttributeType::PropertySet)
        } else if code == 0x100 {
            Some(NtfsAttributeType::LoggedUtilityStream)
        } else if code == 0xFFFF_FFFF {
            Some(NtfsAttributeType::End)
        } else {
            None
        }
    }

    /// The on-disk code of this attribute type.
    pub fn to_u32(self) -> (r: u32)
        ensures
            r == spec_attribute_type_code(self),
    {
        match self {
            NtfsAttributeType::StandardInformation => 0x10,
            NtfsAttributeType::AttributeList => 0x20,
            NtfsAttributeType::FileName => 0x30,
            NtfsAttributeType::ObjectId => 0x40,
            NtfsAttributeType::SecurityDescriptor => 0x50,
            NtfsAttributeType::VolumeName => 0x60,
            NtfsAttributeType::VolumeInformation => 0x70,
            NtfsAttributeType::Data => 0x80,
            NtfsAttributeType::IndexRoot => 0x90,
            NtfsAttributeType::IndexAllocation => 0xA0,
            NtfsAttributeType::Bitmap => 0xB0,
            NtfsAttributeType::ReparsePoint => 0xC0,
            NtfsAttributeType::EAInformation => 0xD0,
            NtfsAttributeType::EA => 0xE0,
            NtfsAttributeType::PropertySet => 0xF0,
            NtfsAttributeType::LoggedUtilityStream => 0x100,
            NtfsAttributeType::End => 0xFFFF_FFFF,
        }
    }
}

/// The attribute value is compressed.
pub const NTFS_ATTRIBUTE_FLAG_COMPRESSED: u16 = 0x0001;

/// The attribute value is encrypted.
pub const NTFS_ATTRIBUTE_FLAG_ENCRYPTED: u16 = 0x4000;

/// The attribute value is stored sparsely.
pub const NTFS_ATTRIBUTE_FLAG_SPARSE: u16 = 0x8000;

/// The union of all known attribute flags.
pub const NTFS_ATTRIBUTE_FLAGS_ALL: u16 = 0xC001;

/// The flag bits of an attribute header, restricted to the known flags.
#[derive(Clone, Copy, Debug, PartialEq, Eq, Structural)]
pub struct NtfsAttributeFlags {
    bits: u16,
}

impl NtfsAttributeFlags {
    pub closed spec fn spec_bits(self) -> u16 {
        self.bits
    }

    /// Keeps the known flag bits of `bits` and drops the rest.
    pub fn from_bits_truncate(bits: u16) -> (r: NtfsAttributeFlags)
        ensures
            r.spec_bits() == bits & NTFS_ATTRIBUTE_FLAGS_ALL,
    {
        NtfsAttributeFlags { bits: bits & NTFS_ATTRIBUTE_FLAGS_ALL }
    }

    pub fn empty() -> (r: NtfsAttributeFlags)
        ensures
            r.spec_bits() == 0,
    {
        NtfsAttributeFlags { bits: 0 }
    }

    pub fn bits(&self) -> (r: u16)
        ensures
            r == self.spec_bits(),
    {
        self.bits
    }

    /// All flag bits of `other` are set in `self`.
    pub fn contains(&self, other: NtfsAttributeFlags) -> (r: bool)
        ensures
            r == (self.spec_bits() & other.spec_bits() == other.spec_bits()),
    {
        self.bits & other.bits == other.bits
    }
}

/// Four bytes (enough for a type code or the end marker) can be read at
/// `pos`.
pub open spec fn marker_readable(d: Seq<u8>, pos: int) -> bool {
    pos + 4 <= d.len()
}

/// The type code at `pos` is the end marker.
pub open spec fn is_end_marker(d: Seq<u8>, pos: int) -> bool {
    le32(d, pos) == END_MARKER_CODE
}

/// A decodable attribute entry starts at `pos`: its length field is
/// readable, the declared length covers at least the fixed prefix plus
/// the resident extension, it does not overrun the used region, and a
/// non-resident entry additionally covers its full extension.
pub open spec fn attr_step_ok(d: Seq<u8>, used: int, pos: int) -> bool {
    &&& pos + 8 <= d.len()
    &&& le32(d, pos + 4) >= 24
    &&& pos + le32(d, pos + 4) <= used
    &&& (d[pos + 8] != 0 ==> le32(d, pos + 4) >= 64)
}

/// The walk of the attribute area halts at `pos` without an error: the
/// used region is exhausted, or the end marker stands there.
pub open spec fn walk_halts(d: Seq<u8>, pos: int, used: int) -> bool {
    pos >= used || (marker_readable(d, pos) && is_end_marker(d, pos))
}

/// The byte offsets of the attribute entries that the raw walk starting
/// at `pos` visits before it halts or fails.
pub open spec fn attr_offsets(d: Seq<u8>, used: int, pos: int) -> Seq<int>
    decreases used - pos,
{
    if pos >= used {
        Seq::empty()
    } else if !marker_readable(d, pos) {
        Seq::empty()
    } else if is_end_marker(d, pos) {
        Seq::empty()
    } else if !attr_step_ok(d, used, pos) {
        Seq::empty()
    } else {
        seq![pos] + attr_offsets(d, used, pos + le32(d, pos + 4))
    }
}

/// The raw walk starting at `pos` ends at the end marker or by exhausting
/// the used region, rather than at a malformed entry.
pub open spec fn walk_clean(d: Seq<u8>, used: int, pos: int) -> bool
    decreases used - pos,
{
    if pos >= used {
        true
    } else if !marker_readable(d, pos) {
        false
    } else if is_end_marker(d, pos) {
        true
    } else if !attr_step_ok(d, used, pos) {
        false
    } else {
        walk_clean(d, used, pos + le32(d, pos + 4))
    }
}

/// The sum of the declared lengths of the attribute entries that the raw
/// walk starting at `pos` visits.
pub open spec fn attr_lengths_total(d: Seq<u8>, used: int, pos: int) -> int
    decreases used - pos,
{
    if pos >= used {
        0
    } else if !marker_readable(d, pos) {
        0
    } else if is_end_marker(d, pos) {
        0
    } else if !attr_step_ok(d, used, pos) {
        0
    } else {
        le32(d, pos + 4) + attr_lengths_total(d, used, pos + le32(d, pos + 4))
    }
}

/// The instance id of the attribute entry starting at `off`.
pub open spec fn instance_at(d: Seq<u8>, off: int) -> int {
    le16(d, off + 14)
}

/// An attribute cursor at `off` into the record is meaningful: a
/// decodable attribute entry starts there.
pub open spec fn valid_attribute(f: FileRecordView, off: int) -> bool {
    &&& 0 <= off
    &&& attr_step_ok(f.data, f.used_size as int, off)
}

/// The resident value bytes of the attribute entry at `off`: the range
/// the value offset and value length fields of its header describe.
pub open spec fn resident_value_bytes(d: Seq<u8>, off: int) -> Seq<u8> {
    d.subrange(off + le16(d, off + 20), off + le16(d, off + 20) + le32(d, off + 16))
}

/// Two entry-iterator states run over the same list value bytes, read at
/// the same absolute position. This says nothing about their cursors.
pub open spec fn same_list_stream(a: ListEntriesView, b: ListEntriesView) -> bool {
    a.data == b.data && a.position == b.position
}

/// `lv` iterates the value bytes of the `$ATTRIBUTE_LIST` attribute at
/// `off` of record `f`: its resident value bytes, or, when the attribute
/// is non-resident, the loader's first pre-read stream for the
/// attribute's position.
pub open spec fn list_stream_of_attribute(
    f: FileRecordView,
    off: int,
    lists: Seq<AttributeListDataView>,
    lv: ListEntriesView,
) -> bool {
    &&& lv.position == (f.position + off) as u64
    &&& if f.data[off + 8] == 0 {
        lv.data == resident_value_bytes(f.data, off)
    } else {
        exists|m: int|
            0 <= m < lists.len() && (#[trigger] lists[m]).position == f.position + off && lv.data
                == lists[m].data && forall|m2: int|
                0 <= m2 < m ==> (#[trigger] lists[m2]).position != f.position + off
    }
}

/// The record's raw walk is clean and no visited attribute carries the
/// instance id.
pub open spec fn record_walk_lacks_instance(f: FileRecordView, instance: int) -> bool {
    let offs = attr_offsets(f.data, f.used_size as int, f.first_attribute_offset as int);
    &&& walk_clean(f.data, f.used_size as int, f.first_attribute_offset as int)
    &&& forall|j: int| 0 <= j < offs.len() ==> instance_at(f.data, #[trigger] offs[j]) != instance
}

/// The record's raw walk ends at a malformed attribute entry.
pub open spec fn record_walk_unclean(f: FileRecordView) -> bool {
    !walk_clean(f.data, f.used_size as int, f.first_attribute_offset as int)
}

/// The offset of the first entry of `offs` whose attribute entry in `d`
/// carries the instance id, if any: what the instance search over a
/// record's raw walk returns.
pub open spec fn spec_find_instance(d: Seq<u8>, offs: Seq<int>, instance: int) -> Option<int>
    decreases offs.len(),
{
    if offs.len() == 0 {
        None
    } else if instance_at(d, offs[0]) == instance {
        Some(offs[0])
    } else {
        spec_find_instance(d, offs.skip(1), instance)
    }
}

/// A first match at index `k` makes the instance search return that
/// offset.
pub proof fn lemma_find_instance_some(d: Seq<u8>, offs: Seq<int>, instance: int, k: int)
    requires
        0 <= k < offs.len(),
        instance_at(d, offs[k]) == instance,
        forall|j: int| 0 <= j < k ==> instance_at(d, #[trigger] offs[j]) != instance,
    ensures
        spec_find_instance(d, offs, instance) == Some(offs[k]),
    decreases offs.len(),
{
    if k == 0 {
    } else {
        assert(offs.skip(1)[k - 1] == offs[k]);
        assert(forall|j: int|
            0 <= j < k - 1 ==> instance_at(d, #[trigger] offs.skip(1)[j]) != instance);
        lemma_find_instance_some(d, offs.skip(1), instance, k - 1);
    }
}

/// With no match at all, the instance search returns nothing.
pub proof fn lemma_find_instance_none(d: Seq<u8>, offs: Seq<int>, instance: int)
    requires
        forall|j: int| 0 <= j < offs.len() ==> instance_at(d, #[trigger] offs[j]) != instance,
    ensures
        spec_find_instance(d, offs, instance) is None,
    decreases offs.len(),
{
    if offs.len() > 0 {
        assert(forall|j: int|
            0 <= j < offs.skip(1).len() ==> instance_at(d, #[trigger] offs.skip(1)[j])
                != instance);
        lemma_find_instance_none(d, offs.skip(1), instance);
    }
}

/// How the scan of an attribute list's entries from position `q` ends:
/// at its first entry that is neither a repeat of a base-record attribute
/// nor a continuation suppressed by the skip key, at a malformed or
/// unknown-typed entry, or by exhausting the list bytes.
pub enum ListScan {
    Exhausted,
    BadEntry { pos: int },
    UnknownType { pos: int },
    Found { pos: int },
}

/// Scans the entries of list bytes `d` from position `q`, skipping the
/// entries that reference the record numbered `base_number` and the
/// entries matching the skip key.
pub open spec fn scan_list(
    d: Seq<u8>,
    base_number: u64,
    skip: Option<(u16, NtfsAttributeType)>,
    q: int,
) -> ListScan
    decreases d.len() - q,
{
    if q >= d.len() {
        ListScan::Exhausted
    } else if !entry_step_ok(d, q) {
        ListScan::BadEntry { pos: q }
    } else if spec_attribute_type_from_code(entry_ty_code(d, q) as u32) is None {
        ListScan::UnknownType { pos: q }
    } else if spec_reference_record_number(entry_reference(d, q) as u64) == base_number as int {
        scan_list(d, base_number, skip, q + entry_length(d, q))
    } else if (skip matches Some(sk) && entry_instance(d, q) == sk.0
        && spec_attribute_type_from_code(entry_ty_code(d, q) as u32) == Some(sk.1)) {
        scan_list(d, base_number, skip, q + entry_length(d, q))
    } else {
        ListScan::Found { pos: q }
    }
}

/// What one step of the logical attribute iterator does, before entry
/// resolution: the next thing it reaches from the given state.
pub enum NextOutcome {
    /// The walk has ended cleanly and no list entry remains: `None`.
    Halt,
    /// An ordinary attribute of the base record at `off` is yielded.
    RawYield { off: int },
    /// The base record's walk is malformed at `pos`.
    RawError { pos: int },
    /// The entry at `entry_pos` of the list bytes `data` (read at
    /// absolute position `position`) is reached and must be resolved.
    ListYield { data: Seq<u8>, position: u64, entry_pos: int },
    /// The entry at `entry_pos` of the active list bytes is malformed.
    ListBadEntry { data: Seq<u8>, position: u64, entry_pos: int },
    /// The entry at `entry_pos` of the active list bytes has an unknown
    /// attribute type code.
    ListUnknownType { data: Seq<u8>, position: u64, entry_pos: int },
    /// The resident value extent of the `$ATTRIBUTE_LIST` attribute at
    /// `off` violates its bounds.
    ListValueError { off: int },
    /// The data-runs offset of the non-resident `$ATTRIBUTE_LIST`
    /// attribute at `off` violates its bounds.
    ListRunsError { off: int },
    /// No pre-read stream exists for the non-resident `$ATTRIBUTE_LIST`
    /// attribute at `off`.
    ListStreamMissing { off: int },
}

/// What the logical iterator reaches when it pulls from the base record's
/// raw walk at `p`: ordinary attributes are yielded, `$ATTRIBUTE_LIST`
/// attributes are decoded and their entries scanned, and the walk's end
/// or a malformation ends the step.
pub open spec fn next_from_raw(
    base: FileRecordView,
    lists: Seq<AttributeListDataView>,
    base_number: u64,
    skip: Option<(u16, NtfsAttributeType)>,
    p: int,
) -> NextOutcome
    decreases base.used_size - p,
{
    let d = base.data;
    let used = base.used_size as int;
    if p >= used {
        NextOutcome::Halt
    } else if !marker_readable(d, p) {
        NextOutcome::RawError { pos: p }
    } else if is_end_marker(d, p) {
        NextOutcome::Halt
    } else if !attr_step_ok(d, used, p) {
        NextOutcome::RawError { pos: p }
    } else if spec_attribute_type_from_code(le32(d, p) as u32) != Some(
        NtfsAttributeType::AttributeList,
    ) {
        NextOutcome::RawYield { off: p }
    } else if d[p + 8] == 0 {
        if le16(d, p + 20) >= le32(d, p + 4) || le16(d, p + 20) + le32(d, p + 16) > le32(
            d,
            p + 4,
        ) {
            NextOutcome::ListValueError { off: p }
        } else {
            let ld = resident_value_bytes(d, p);
            let lp = (base.position + p) as u64;
            match scan_list(ld, base_number, skip, 0) {
                ListScan::Exhausted => next_from_raw(
                    base,
                    lists,
                    base_number,
                    skip,
                    p + le32(d, p + 4),
                ),
                ListScan::Found { pos } => NextOutcome::ListYield {
                    data: ld,
                    position: lp,
                    entry_pos: pos,
                },
                ListScan::BadEntry { pos } => NextOutcome::ListBadEntry {
                    data: ld,
                    position: lp,
                    entry_pos: pos,
                },
                ListScan::UnknownType { pos } => NextOutcome::ListUnknownType {
                    data: ld,
                    position: lp,
                    entry_pos: pos,
                },
            }
        }
    } else {
        if le16(d, p + 32) > le32(d, p + 4) {
            NextOutcome::ListRunsError { off: p }
        } else {
            match spec_list_data_lookup(lists, base.position + p) {
                None => NextOutcome::ListStreamMissing { off: p },
                Some(ld) => {
                    let lp = (base.position + p) as u64;
                    match scan_list(ld, base_number, skip, 0) {
                        ListScan::Exhausted => next_from_raw(
                            base,
                            lists,
                            base_number,
                            skip,
                            p + le32(d, p + 4),
                        ),
                        ListScan::Found { pos } => NextOutcome::ListYield {
                            data: ld,
                            position: lp,
                            entry_pos: pos,
                        },
                        ListScan::BadEntry { pos } => NextOutcome::ListBadEntry {
                            data: ld,
                            position: lp,
                            entry_pos: pos,
                        },
                        ListScan::UnknownType { pos } => NextOutcome::ListUnknownType {
                            data: ld,
                            position: lp,
                            entry_pos: pos,
                        },
                    }
                },
            }
        }
    }
}

/// What one call of the logical attribute iterator reaches, given the
/// base record, the loader's pre-read streams, the skip key, the active
/// entry iterator and the raw position.
pub open spec fn next_outcome(
    base: FileRecordView,
    lists: Seq<AttributeListDataView>,
    base_number: u64,
    skip: Option<(u16, NtfsAttributeType)>,
    cur_list: Option<ListEntriesView>,
    p: int,
) -> NextOutcome {
    match cur_list {
        Some(lv) => match scan_list(lv.data, base_number, skip, lv.pos) {
            ListScan::Exhausted => next_from_raw(base, lists, base_number, skip, p),
            ListScan::Found { pos } => NextOutcome::ListYield {
                data: lv.data,
                position: lv.position,
                entry_pos: pos,
            },
            ListScan::BadEntry { pos } => NextOutcome::ListBadEntry {
                data: lv.data,
                position: lv.position,
                entry_pos: pos,
            },
            ListScan::UnknownType { pos } => NextOutcome::ListUnknownType {
                data: lv.data,
                position: lv.position,
                entry_pos: pos,
            },
        },
        None => next_from_raw(base, lists, base_number, skip, p),
    }
}

/// Every offset the raw walk visits is at least the walk's starting
/// offset.
pub proof fn lemma_attr_offsets_lower_bound(d: Seq<u8>, used: int, pos: int)
    ensures
        forall|k: int|
            0 <= k < attr_offsets(d, used, pos).len() ==> #[trigger] attr_offsets(d, used, pos)[k]
                >= pos,
    decreases used - pos,
{
    if pos < used && marker_readable(d, pos) && !is_end_marker(d, pos) && attr_step_ok(
        d,
        used,
        pos,
    ) {
        let alen: int = le32(d, pos + 4);
        lemma_attr_offsets_lower_bound(d, used, pos + alen);
        let offs = attr_offsets(d, used, pos);
        let tail = attr_offsets(d, used, pos + alen);
        assert forall|k: int| 0 <= k < offs.len() implies offs[k] >= pos by {
            if k > 0 {
                assert(offs[k] == tail[k - 1]);
            }
        }
    }
}

/// Law: the raw walk of a file record's attribute area visits attribute
/// entries at strictly increasing byte offsets (and, visiting finitely
/// many, it halts).
pub proof fn lemma_raw_walk_offsets_strictly_increasing(d: Seq<u8>, used: int, pos: int)
    ensures
        forall|i: int, j: int|
            #![trigger attr_offsets(d, used, pos)[i], attr_offsets(d, used, pos)[j]]
            0 <= i < j < attr_offsets(d, used, pos).len() ==> attr_offsets(d, used, pos)[i]
                < attr_offsets(d, used, pos)[j],
    decreases used - pos,
{
    if pos < used && marker_readable(d, pos) && !is_end_marker(d, pos) && attr_step_ok(
        d,
        used,
        pos,
    ) {
        let alen: int = le32(d, pos + 4);
        lemma_raw_walk_offsets_strictly_increasing(d, used, pos + alen);
        lemma_attr_offsets_lower_bound(d, used, pos + alen);
        let offs = attr_offsets(d, used, pos);
        let tail = attr_offsets(d, used, pos + alen);
        assert forall|i: int, j: int| 0 <= i < j < offs.len() implies offs[i] < offs[j] by {
            if i == 0 {
                assert(offs[j] == tail[j - 1]);
                assert(tail[j - 1] >= pos + alen);
            } else {
                assert(offs[i] == tail[i - 1]);
                assert(offs[j] == tail[j - 1]);
            }
        }
    }
}

/// Law: the declared lengths of the attribute entries the raw walk
/// visits, summed, fit between the walk's starting offset and the used
/// size of the record. In particular, starting at the first-attribute
/// offset, header bytes plus all visited attribute lengths stay within
/// `used_size`.
pub proof fn lemma_raw_walk_lengths_bounded(d: Seq<u8>, used: int, pos: int)
    requires
        attr_offsets(d, used, pos).len() > 0,
    ensures
        pos + attr_lengths_total(d, used, pos) <= used,
        attr_lengths_total(d, used, pos) >= 24,
    decreases used - pos,
{
    if pos < used && marker_readable(d, pos) && !is_end_marker(d, pos) && attr_step_ok(
        d,
        used,
        pos,
    ) {
        let alen: int = le32(d, pos + 4);
        let tail = attr_offsets(d, used, pos + alen);
        if tail.len() > 0 {
            lemma_raw_walk_lengths_bounded(d, used, pos + alen);
        } else {
            assert(attr_lengths_total(d, used, pos + alen) == 0);
        }
    } else {
        assert(attr_offsets(d, used, pos).len() == 0);
    }
}

/// The position at which the raw walk from `pos` stops: the end marker,
/// the first malformed entry, or the first position at or past the used
/// region.
pub open spec fn walk_halt_pos(d: Seq<u8>, used: int, pos: int) -> int
    decreases used - pos,
{
    if pos >= used {
        pos
    } else if !marker_readable(d, pos) {
        pos
    } else if is_end_marker(d, pos) {
        pos
    } else if !attr_step_ok(d, used, pos) {
        pos
    } else {
        walk_halt_pos(d, used, pos + le32(d, pos + 4))
    }
}

/// Law: the raw walk stops exactly after the lengths of the attribute
/// entries it visited. In particular, when the walk from the
/// first-attribute offset halts at an end marker whose four bytes lie
/// within the used region, the header bytes before the walk, the visited
/// attribute lengths and the end-marker bytes together fit in
/// `used_size`. (A record may also place the marker so that it straddles
/// the end of the used region; the four-byte addend does not hold
/// there.)
pub proof fn lemma_raw_walk_halts_after_lengths(d: Seq<u8>, used: int, pos: int)
    ensures
        walk_halt_pos(d, used, pos) == pos + attr_lengths_total(d, used, pos),
        (is_end_marker(d, walk_halt_pos(d, used, pos)) && walk_halt_pos(d, used, pos) + 4
            <= used) ==> pos + attr_lengths_total(d, used, pos) + 4 <= used,
    decreases used - pos,
{
    if pos < used && marker_readable(d, pos) && !is_end_marker(d, pos) && attr_step_ok(
        d,
        used,
        pos,
    ) {
        let alen: int = le32(d, pos + 4);
        lemma_raw_walk_halts_after_lengths(d, used, pos + alen);
    }
}

/// A non-owning cursor to one attribute within a file record, holding the
/// byte offset of the attribute's header. When the attribute was reached
/// through an `$ATTRIBUTE_LIST` and is non-resident, the cursor also
/// carries the saved entry-iterator state that lets a value reader stitch
/// the connected attributes.
#[derive(Debug)]
pub struct NtfsAttribute {
    file: NtfsFile,
    offset: usize,
    list_entries: Option<NtfsAttributeListEntries>,
}

impl NtfsAttribute {
    pub closed spec fn spec_file(self) -> FileRecordView {
        self.file@
    }

    pub closed spec fn spec_offset(self) -> int {
        self.offset as int
    }

    pub closed spec fn spec_list_entries(self) -> Option<ListEntriesView> {
        match self.list_entries {
            Some(le) => Some(le@),
            None => None,
        }
    }

    pub open spec fn spec_has_list_entries(self) -> bool {
        self.spec_list_entries() is Some
    }

    pub open spec fn spec_ty_code(self) -> int {
        le32(self.spec_file().data, self.spec_offset())
    }

    pub open spec fn spec_attribute_length(self) -> int {
        le32(self.spec_file().data, self.spec_offset() + 4)
    }

    pub open spec fn spec_is_resident(self) -> bool {
        self.spec_file().data[self.spec_offset() + 8] == 0
    }

    pub open spec fn spec_name_length(self) -> int {
        2 * self.spec_file().data[self.spec_offset() + 9]
    }

    pub open spec fn spec_name_offset(self) -> int {
        le16(self.spec_file().data, self.spec_offset() + 10)
    }

    pub open spec fn spec_flags_bits(self) -> int {
        le16(self.spec_file().data, self.spec_offset() + 12)
    }

    pub open spec fn spec_instance(self) -> int {
        instance_at(self.spec_file().data, self.spec_offset())
    }

    pub open spec fn spec_position(self) -> u64 {
        (self.spec_file().position + self.spec_offset()) as u64
    }

    pub open spec fn spec_resident_value_length(self) -> int {
        le32(self.spec_file().data, self.spec_offset() + 16)
    }

    pub open spec fn spec_resident_value_offset(self) -> int {
        le16(self.spec_file().data, self.spec_offset() + 20)
    }

    pub open spec fn spec_data_runs_offset(self) -> int {
        le16(self.spec_file().data, self.spec_offset() + 32)
    }

    pub open spec fn spec_data_size(self) -> int {
        le64(self.spec_file().data, self.spec_offset() + 48)
    }

    /// The length of the value of this attribute: the resident value
    /// length for resident attributes, the declared data size otherwise.
    pub open spec fn spec_value_length(self) -> int {
        if self.spec_is_resident() {
            self.spec_resident_value_length()
        } else {
            self.spec_data_size()
        }
    }

    pub open spec fn wf(self) -> bool {
        &&& self.spec_file().wf()
        &&& valid_attribute(self.spec_file(), self.spec_offset())
        &&& match self.spec_list_entries() {
            Some(v) => list_entries_view_wf(v) && !self.spec_is_resident(),
            None => true,
        }
    }

    pub(crate) fn new(
        file: &NtfsFile,
        offset: usize,
        list_entries: Option<&NtfsAttributeListEntries>,
    ) -> (r: NtfsAttribute)
        requires
            file.wf(),
            valid_attribute(file@, offset as int),
            match list_entries {
                Some(le) => le.wf() && file@.data[offset + 8] != 0,
                None => true,
            },
        ensures
            r.wf(),
            r.spec_file() == file@,
            r.spec_offset() == offset as int,
            r.spec_list_entries() == match list_entries {
                Some(le) => Some(le@),
                None => None::<ListEntriesView>,
            },
    {
        let cloned: Option<NtfsAttributeListEntries> = match list_entries {
            Some(le) => Some(le.clone()),
            None => None,
        };
        NtfsAttribute { file: file.clone(), offset, list_entries: cloned }
    }

    /// The byte offset of this attribute within its record.
    pub(crate) fn offset(&self) -> (r: usize)
        ensures
            r == self.spec_offset(),
    {
        self.offset
    }

    /// The absolute position of this attribute within the volume.
    pub fn position(&self) -> (r: u64)
        requires
            self.wf(),
        ensures
            r == self.spec_position(),
    {
        self.file.position() + self.offset as u64
    }

    /// The total length of this attribute entry on disk, in bytes,
    /// including headers, name, and (for resident attributes) the value.
    pub fn attribute_length(&self) -> (r: u32)
        requires
            self.wf(),
        ensures
            r == self.spec_attribute_length(),
    {
        read_le_u32(self.file.record_data(), self.offset + 4)
    }

    /// Whether the value of this attribute is stored inline in the
    /// attribute entry.
    pub fn is_resident(&self) -> (r: bool)
        requires
            self.wf(),
        ensures
            r == self.spec_is_resident(),
    {
        let b: u8 = self.file.record_data()[self.offset + 8];
        b == 0
    }

    /// The known flags set on this attribute.
    pub fn flags(&self) -> (r: NtfsAttributeFlags)
        requires
            self.wf(),
        ensures
            r.spec_bits() == (self.spec_flags_bits() as u16) & NTFS_ATTRIBUTE_FLAGS_ALL,
    {
        NtfsAttributeFlags::from_bits_truncate(read_le_u16(self.file.record_data(), self.offset + 12))
    }

    /// The id of this attribute, unique within its file record.
    pub fn instance(&self) -> (r: u16)
        requires
            self.wf(),
        ensures
            r == self.spec_instance(),
    {
        read_le_u16(self.file.record_data(), self.offset + 14)
    }

    /// The type of this attribute, or `UnsupportedAttributeType` for an
    /// unknown type code.
    pub fn ty(&self) -> (r: Result<NtfsAttributeType, NtfsError>)
        requires
            self.wf(),
        ensures
            match spec_attribute_type_from_code(self.spec_ty_code() as u32) {
                Some(t) => r == Ok::<NtfsAttributeType, NtfsError>(t),
                None => r == Err::<NtfsAttributeType, NtfsError>(
                    NtfsError::UnsupportedAttributeType {
                        position: self.spec_position(),
                        actual: self.spec_ty_code() as u32,
                    },
                ),
            },
    {
        let code: u32 = read_le_u32(self.file.record_data(), self.offset);
        match NtfsAttributeType::n(code) {
            Some(t) => Ok(t),
            None => Err(
                NtfsError::UnsupportedAttributeType { position: self.position(), actual: code },
            ),
        }
    }

    /// The length of this attribute's name, in bytes (two bytes per
    /// UTF-16 code unit).
    pub fn name_length(&self) -> (r: usize)
        requires
            self.wf(),
        ensures
            r == self.spec_name_length(),
    {
        let chars: u8 = self.file.record_data()[self.offset + 9];
        2 * chars as usize
    }

    fn name_offset(&self) -> (r: u16)
        requires
            self.wf(),
        ensures
            r == self.spec_name_offset(),
    {
        read_le_u16(self.file.record_data(), self.offset + 10)
    }

    fn validate_name_sizes(&self) -> (r: Result<(), NtfsError>)
        requires
            self.wf(),
        ensures
            match r {
                Ok(()) => self.spec_name_offset() < self.spec_attribute_length()
                    && self.spec_name_offset() + self.spec_name_length()
                    <= self.spec_attribute_length(),
                Err(e) => if self.spec_name_offset() >= self.spec_attribute_length() {
                    e == (NtfsError::InvalidAttributeNameOffset {
                        position: self.spec_position(),
                        expected: self.spec_name_offset() as u16,
                        actual: self.spec_attribute_length() as u32,
                    })
                } else {
                    self.spec_name_offset() + self.spec_name_length()
                        > self.spec_attribute_length() && e
                        == (NtfsError::InvalidAttributeNameLength {
                        position: self.spec_position(),
                        expected: (self.spec_name_offset() + self.spec_name_length()) as u32,
                        actual: self.spec_attribute_length() as u32,
                    })
                },
            },
    {
        let start: u16 = self.name_offset();
        if start as u32 >= self.attribute_length() {
            return Err(
                NtfsError::InvalidAttributeNameOffset {
                    position: self.position(),
                    expected: start,
                    actual: self.attribute_length(),
                },
            );
        }
        let end: u32 = start as u32 + self.name_length() as u32;
        if end > self.attribute_length() {
            return Err(
                NtfsError::InvalidAttributeNameLength {
                    position: self.position(),
                    expected: end,
                    actual: self.attribute_length(),
                },
            );
        }
        Ok(())
    }

    /// The name of this attribute as raw UTF-16LE bytes: empty when the
    /// attribute is unnamed (no validation is performed then), and
    /// otherwise exactly the `name_length` bytes starting `name_offset`
    /// bytes into the attribute entry.
    pub fn name(&self) -> (r: Result<NtfsString, NtfsError>)
        requires
            self.wf(),
        ensures
            (self.spec_name_offset() == 0 || self.spec_name_length() == 0) ==> (r matches Ok(s)
                && s@ == Seq::<u8>::empty()),
            (self.spec_name_offset() != 0 && self.spec_name_length() != 0
                && self.spec_name_offset() < self.spec_attribute_length()
                && self.spec_name_offset() + self.spec_name_length()
                <= self.spec_attribute_length()) ==> (r matches Ok(s) && s@
                == self.spec_file().data.subrange(
                self.spec_offset() + self.spec_name_offset(),
                self.spec_offset() + self.spec_name_offset() + self.spec_name_length(),
            )),
            (self.spec_name_offset() != 0 && self.spec_name_length() != 0
                && self.spec_name_offset() >= self.spec_attribute_length()) ==> r == Err::<
                NtfsString,
                NtfsError,
            >(
                NtfsError::InvalidAttributeNameOffset {
                    position: self.spec_position(),
                    expected: self.spec_name_offset() as u16,
                    actual: self.spec_attribute_length() as u32,
                },
            ),
            (self.spec_name_offset() != 0 && self.spec_name_length() != 0
                && self.spec_name_offset() < self.spec_attribute_length()
                && self.spec_name_offset() + self.spec_name_length()
                > self.spec_attribute_length()) ==> r == Err::<NtfsString, NtfsError>(
                NtfsError::InvalidAttributeNameLength {
                    position: self.spec_position(),
                    expected: (self.spec_name_offset() + self.spec_name_length()) as u32,
                    actual: self.spec_attribute_length() as u32,
                },
            ),
    {
        if self.name_offset() == 0 || self.name_length() == 0 {
            return Ok(NtfsString::new(Vec::new()));
        }
        match self.validate_name_sizes() {
            Ok(()) => {},
            Err(e) => {
                return Err(e);
            },
        }
        let start: usize = self.offset + self.name_offset() as usize;
        let end: usize = start + self.name_length();
        let bytes = copy_range(self.file.record_data(), start, end);
        Ok(NtfsString::new(bytes))
    }

    fn resident_value_length(&self) -> (r: u32)
        requires
            self.wf(),
            self.spec_is_resident(),
        ensures
            r == self.spec_resident_value_length(),
    {
        read_le_u32(self.file.record_data(), self.offset + 16)
    }

    fn resident_value_offset(&self) -> (r: u16)
        requires
            self.wf(),
            self.spec_is_resident(),
        ensures
            r == self.spec_resident_value_offset(),
    {
        read_le_u16(self.file.record_data(), self.offset + 20)
    }

    fn validate_resident_value_sizes(&self) -> (r: Result<(), NtfsError>)
        requires
            self.wf(),
            self.spec_is_resident(),
        ensures
            match r {
                Ok(()) => self.spec_resident_value_offset() < self.spec_attribute_length()
                    && self.spec_resident_value_offset() + self.spec_resident_value_length()
                    <= self.spec_attribute_length(),
                Err(e) => if self.spec_resident_value_offset() >= self.spec_attribute_length() {
                    e == (NtfsError::InvalidResidentAttributeValueOffset {
                        position: self.spec_position(),
                        expected: self.spec_resident_value_offset() as u16,
                        actual: self.spec_attribute_length() as u32,
                    })
                } else {
                    self.spec_resident_value_offset() + self.spec_resident_value_length()
                        > self.spec_attribute_length() && e
                        == (NtfsError::InvalidResidentAttributeValueLength {
                        position: self.spec_position(),
                        expected: (self.spec_resident_value_offset()
                            + self.spec_resident_value_length()) as u64,
                        actual: self.spec_attribute_length() as u32,
                    })
                },
            },
    {
        let start: u16 = self.resident_value_offset();
        if start as u32 >= self.attribute_length() {
            return Err(
                NtfsError::InvalidResidentAttributeValueOffset {
                    position: self.position(),
                    expected: start,
                    actual: self.attribute_length(),
                },
            );
        }
        let end: u64 = start as u64 + self.resident_value_length() as u64;
        if end > self.attribute_length() as u64 {
            return Err(
                NtfsError::InvalidResidentAttributeValueLength {
                    position: self.position(),
                    expected: end,
                    actual: self.attribute_length(),
                },
            );
        }
        Ok(())
    }

    /// The value bytes of a resident attribute, after validating the
    /// value extent against the attribute length.
    pub(crate) fn resident_value(&self) -> (r: Result<NtfsSliceValue, NtfsError>)
        requires
            self.wf(),
            self.spec_is_resident(),
        ensures
            match r {
                Ok(v) => {
                    &&& self.spec_resident_value_offset() < self.spec_attribute_length()
                    &&& self.spec_resident_value_offset() + self.spec_resident_value_length()
                        <= self.spec_attribute_length()
                    &&& v.spec_data() == self.spec_file().data.subrange(
                        self.spec_offset() + self.spec_resident_value_offset(),
                        self.spec_offset() + self.spec_resident_value_offset()
                            + self.spec_resident_value_length(),
                    )
                    &&& v.spec_position() == self.spec_position()
                    &&& v.wf()
                },
                Err(e) => if self.spec_resident_value_offset() >= self.spec_attribute_length() {
                    e == (NtfsError::InvalidResidentAttributeValueOffset {
                        position: self.spec_position(),
                        expected: self.spec_resident_value_offset() as u16,
                        actual: self.spec_attribute_length() as u32,
                    })
                } else {
                    self.spec_resident_value_offset() + self.spec_resident_value_length()
                        > self.spec_attribute_length() && e
                        == (NtfsError::InvalidResidentAttributeValueLength {
                        position: self.spec_position(),
                        expected: (self.spec_resident_value_offset()
                            + self.spec_resident_value_length()) as u64,
                        actual: self.spec_attribute_length() as u32,
                    })
                },
            },
    {
        match self.validate_resident_value_sizes() {
            Ok(()) => {},
            Err(e) => {
                return Err(e);
            },
        }
        let start: usize = self.offset + self.resident_value_offset() as usize;
        let end: usize = start + self.resident_value_length() as usize;
        let data = copy_range(self.file.record_data(), start, end);
        Ok(NtfsSliceValue::new(data, self.position()))
    }

    fn non_resident_value_data_size(&self) -> (r: u64)
        requires
            self.wf(),
            !self.spec_is_resident(),
        ensures
            r == self.spec_data_size(),
    {
        read_le_u64(self.file.record_data(), self.offset + 48)
    }

    fn non_resident_value_data_runs_offset(&self) -> (r: u16)
        requires
            self.wf(),
            !self.spec_is_resident(),
        ensures
            r == self.spec_data_runs_offset(),
    {
        read_le_u16(self.file.record_data(), self.offset + 32)
    }

    /// The data-run bytes of a non-resident attribute (the byte range
    /// from the data-runs offset to the end of the attribute entry) and
    /// their absolute position, after validating the data-runs offset
    /// against the attribute length.
    pub(crate) fn non_resident_value_data_and_position(&self) -> (r: Result<
        (Vec<u8>, u64),
        NtfsError,
    >)
        requires
            self.wf(),
            !self.spec_is_resident(),
        ensures
            match r {
                Ok(p) => {
                    &&& self.spec_data_runs_offset() <= self.spec_attribute_length()
                    &&& p.0@ == self.spec_file().data.subrange(
                        self.spec_offset() + self.spec_data_runs_offset(),
                        self.spec_offset() + self.spec_attribute_length(),
                    )
                    &&& p.1 == self.spec_file().position + self.spec_offset()
                        + self.spec_data_runs_offset()
                },
                Err(e) => {
                    &&& self.spec_data_runs_offset() > self.spec_attribute_length()
                    &&& e == (NtfsError::InvalidNonResidentValueDataRunsOffset {
                        position: self.spec_position(),
                        expected: self.spec_data_runs_offset() as u16,
                        actual: self.spec_attribute_length() as u32,
                    })
                },
            },
    {
        let runs_offset: u16 = self.non_resident_value_data_runs_offset();
        if runs_offset as u32 > self.attribute_length() {
            return Err(
                NtfsError::InvalidNonResidentValueDataRunsOffset {
                    position: self.position(),
                    expected: runs_offset,
                    actual: self.attribute_length(),
                },
            );
        }
        let start: usize = self.offset + runs_offset as usize;
        let end: usize = self.offset + self.attribute_length() as usize;
        let data = copy_range(self.file.record_data(), start, end);
        let position: u64 = self.file.position() + start as u64;
        Ok((data, position))
    }

    /// The value of a non-resident attribute: its data-run bytes, their
    /// position, and the declared data size.
    pub(crate) fn non_resident_value(&self) -> (r: Result<
        NtfsNonResidentAttributeValue,
        NtfsError,
    >)
        requires
            self.wf(),
            !self.spec_is_resident(),
        ensures
            match r {
                Ok(v) => {
                    &&& self.spec_data_runs_offset() <= self.spec_attribute_length()
                    &&& v.spec_data() == self.spec_file().data.subrange(
                        self.spec_offset() + self.spec_data_runs_offset(),
                        self.spec_offset() + self.spec_attribute_length(),
                    )
                    &&& v.spec_position() == self.spec_file().position + self.spec_offset()
                        + self.spec_data_runs_offset()
                    &&& v.spec_data_size() == self.spec_data_size()
                },
                Err(e) => {
                    &&& self.spec_data_runs_offset() > self.spec_attribute_length()
                    &&& e == (NtfsError::InvalidNonResidentValueDataRunsOffset {
                        position: self.spec_position(),
                        expected: self.spec_data_runs_offset() as u16,
                        actual: self.spec_attribute_length() as u32,
                    })
                },
            },
    {
        let (data, position) = match self.non_resident_value_data_and_position() {
            Ok(p) => p,
            Err(e) => {
                return Err(e);
            },
        };
        Ok(NtfsNonResidentAttributeValue::new(data, position, self.non_resident_value_data_size()))
    }

    /// The value of this attribute, in whichever storage form it uses:
    /// a list-backed non-resident value when the cursor carries saved
    /// attribute-list state, the inline bytes when resident, and the
    /// data runs otherwise. In every `Ok` case the value's length equals
    /// `value_length`.
    pub fn value(&self) -> (r: Result<NtfsValue, NtfsError>)
        requires
            self.wf(),
        ensures
            r matches Ok(v) ==> v.wf() && v.spec_len() == self.spec_value_length(),
            self.spec_has_list_entries() ==> match spec_attribute_type_from_code(
                self.spec_ty_code() as u32,
            ) {
                Some(t) => r matches Ok(v) && v matches
                    NtfsValue::AttributeListNonResidentAttribute(lv) && lv.spec_instance()
                    == self.spec_instance() && lv.spec_ty() == t && lv.spec_data_size()
                    == self.spec_data_size() && lv.spec_position() == self.spec_position()
                    && Some(lv.spec_list_entries()) == self.spec_list_entries(),
                None => r == Err::<NtfsValue, NtfsError>(
                    NtfsError::UnsupportedAttributeType {
                        position: self.spec_position(),
                        actual: self.spec_ty_code() as u32,
                    },
                ),
            },
            (!self.spec_has_list_entries() && self.spec_is_resident()) ==> match r {
                Ok(v) => {
                    &&& self.spec_resident_value_offset() < self.spec_attribute_length()
                    &&& self.spec_resident_value_offset() + self.spec_resident_value_length()
                        <= self.spec_attribute_length()
                    &&& v matches NtfsValue::Slice(sv) && sv.spec_data()
                    == self.spec_file().data.subrange(
                    self.spec_offset() + self.spec_resident_value_offset(),
                    self.spec_offset() + self.spec_resident_value_offset()
                        + self.spec_resident_value_length(),
                ) && sv.spec_position() == self.spec_position()
                },
                Err(e) => if self.spec_resident_value_offset() >= self.spec_attribute_length() {
                    e == (NtfsError::InvalidResidentAttributeValueOffset {
                        position: self.spec_position(),
                        expected: self.spec_resident_value_offset() as u16,
                        actual: self.spec_attribute_length() as u32,
                    })
                } else {
                    self.spec_resident_value_offset() + self.spec_resident_value_length()
                        > self.spec_attribute_length() && e
                        == (NtfsError::InvalidResidentAttributeValueLength {
                        position: self.spec_position(),
                        expected: (self.spec_resident_value_offset()
                            + self.spec_resident_value_length()) as u64,
                        actual: self.spec_attribute_length() as u32,
                    })
                },
            },
            (!self.spec_has_list_entries() && !self.spec_is_resident()) ==> match r {
                Ok(v) => {
                    &&& self.spec_data_runs_offset() <= self.spec_attribute_length()
                    &&& v matches NtfsValue::NonResidentAttribute(nv) && nv.spec_data()
                    == self.spec_file().data.subrange(
                    self.spec_offset() + self.spec_data_runs_offset(),
                    self.spec_offset() + self.spec_attribute_length(),
                ) && nv.spec_position() == self.spec_file().position + self.spec_offset()
                    + self.spec_data_runs_offset() && nv.spec_data_size() == self.spec_data_size()
                },
                Err(e) => self.spec_data_runs_offset() > self.spec_attribute_length() && e
                    == (NtfsError::InvalidNonResidentValueDataRunsOffset {
                    position: self.spec_position(),
                    expected: self.spec_data_runs_offset() as u16,
                    actual: self.spec_attribute_length() as u32,
                }),
            },
    {
        match &self.list_entries {
            Some(list_entries) => {
                // The first attribute of a connected run reports the
                // entire data size; connected successors set it to zero.
                let data_size: u64 = self.non_resident_value_data_size();
                let ty = match self.ty() {
                    Ok(t) => t,
                    Err(e) => {
                        return Err(e);
                    },
                };
                let value = NtfsAttributeListNonResidentAttributeValue::new(
                    list_entries.clone(),
                    self.instance(),
                    ty,
                    data_size,
                    self.position(),
                );
                Ok(NtfsValue::AttributeListNonResidentAttribute(value))
            },
            None => {
                if self.is_resident() {
                    match self.resident_value() {
                        Ok(v) => Ok(NtfsValue::Slice(v)),
                        Err(e) => Err(e),
                    }
                } else {
                    match self.non_resident_value() {
                        Ok(v) => Ok(NtfsValue::NonResidentAttribute(v)),
                        Err(e) => Err(e),
                    }
                }
            },
        }
    }

    /// The number of bytes the value of this attribute produces: the
    /// resident value length for resident attributes, the declared data
    /// size for non-resident ones.
    pub fn value_length(&self) -> (r: u64)
        requires
            self.wf(),
        ensures
            r == self.spec_value_length(),
    {
        if self.is_resident() {
            self.resident_value_length() as u64
        } else {
            self.non_resident_value_data_size()
        }
    }

    /// Decodes this attribute's value as the structured value `S`, after
    /// checking that the attribute has the type `S` decodes.
    pub fn structured_value<S: NtfsStructuredValue>(&self) -> (r: Result<S, NtfsError>)
        requires
            self.wf(),
        ensures
            match spec_attribute_type_from_code(self.spec_ty_code() as u32) {
                None => r == Err::<S, NtfsError>(
                    NtfsError::UnsupportedAttributeType {
                        position: self.spec_position(),
                        actual: self.spec_ty_code() as u32,
                    },
                ),
                Some(t) => {
                    &&& t != S::spec_ty() ==> r == Err::<S, NtfsError>(
                        NtfsError::AttributeOfDifferentType {
                            position: self.spec_position(),
                            expected: S::spec_ty(),
                            actual: t,
                        },
                    )
                    &&& (t == S::spec_ty() && !self.spec_has_list_entries()
                        && self.spec_is_resident() && self.spec_resident_value_offset()
                        >= self.spec_attribute_length()) ==> r == Err::<S, NtfsError>(
                        NtfsError::InvalidResidentAttributeValueOffset {
                            position: self.spec_position(),
                            expected: self.spec_resident_value_offset() as u16,
                            actual: self.spec_attribute_length() as u32,
                        },
                    )
                    &&& (t == S::spec_ty() && !self.spec_has_list_entries()
                        && self.spec_is_resident() && self.spec_resident_value_offset()
                        < self.spec_attribute_length() && self.spec_resident_value_offset()
                        + self.spec_resident_value_length() > self.spec_attribute_length()) ==> r
                        == Err::<S, NtfsError>(
                        NtfsError::InvalidResidentAttributeValueLength {
                            position: self.spec_position(),
                            expected: (self.spec_resident_value_offset()
                                + self.spec_resident_value_length()) as u64,
                            actual: self.spec_attribute_length() as u32,
                        },
                    )
                    &&& (t == S::spec_ty() && !self.spec_has_list_entries()
                        && !self.spec_is_resident() && self.spec_data_runs_offset()
                        > self.spec_attribute_length()) ==> r == Err::<S, NtfsError>(
                        NtfsError::InvalidNonResidentValueDataRunsOffset {
                            position: self.spec_position(),
                            expected: self.spec_data_runs_offset() as u16,
                            actual: self.spec_attribute_length() as u32,
                        },
                    )
                    &&& r matches Ok(s) ==> t == S::spec_ty() && s.wf()
                },
            },
    {
        let ty = match self.ty() {
            Ok(t) => t,
            Err(e) => {
                return Err(e);
            },
        };
        let expected = S::ty();
        if ty != expected {
            return Err(
                NtfsError::AttributeOfDifferentType {
                    position: self.position(),
                    expected,
                    actual: ty,
                },
            );
        }
        let value = match self.value() {
            Ok(v) => v,
            Err(e) => {
                return Err(e);
            },
        };
        S::from_value(value)
    }

    /// Decodes this attribute's value as the structured value `S` through
    /// the resident fast path: the attribute must have the type `S`
    /// decodes and must be resident.
    pub fn resident_structured_value<S: NtfsStructuredValueFromResidentAttributeValue>(
        &self,
    ) -> (r: Result<S, NtfsError>)
        requires
            self.wf(),
        ensures
            match spec_attribute_type_from_code(self.spec_ty_code() as u32) {
                None => r == Err::<S, NtfsError>(
                    NtfsError::UnsupportedAttributeType {
                        position: self.spec_position(),
                        actual: self.spec_ty_code() as u32,
                    },
                ),
                Some(t) => {
                    &&& t != S::spec_ty() ==> r == Err::<S, NtfsError>(
                        NtfsError::AttributeOfDifferentType {
                            position: self.spec_position(),
                            expected: S::spec_ty(),
                            actual: t,
                        },
                    )
                    &&& (t == S::spec_ty() && !self.spec_is_resident()) ==> r == Err::<
                        S,
                        NtfsError,
                    >(NtfsError::UnexpectedNonResidentAttribute { position: self.spec_position() })
                    &&& (t == S::spec_ty() && self.spec_is_resident()
                        && self.spec_resident_value_offset() >= self.spec_attribute_length()) ==> r
                        == Err::<S, NtfsError>(
                        NtfsError::InvalidResidentAttributeValueOffset {
                            position: self.spec_position(),
                            expected: self.spec_resident_value_offset() as u16,
                            actual: self.spec_attribute_length() as u32,
                        },
                    )
                    &&& (t == S::spec_ty() && self.spec_is_resident()
                        && self.spec_resident_value_offset() < self.spec_attribute_length()
                        && self.spec_resident_value_offset() + self.spec_resident_value_length()
                        > self.spec_attribute_length()) ==> r == Err::<S, NtfsError>(
                        NtfsError::InvalidResidentAttributeValueLength {
                            position: self.spec_position(),
                            expected: (self.spec_resident_value_offset()
                                + self.spec_resident_value_length()) as u64,
                            actual: self.spec_attribute_length() as u32,
                        },
                    )
                    &&& r matches Ok(s) ==> t == S::spec_ty() && self.spec_is_resident() && s.wf()
                },
            },
    {
        let ty = match self.ty() {
            Ok(t) => t,
            Err(e) => {
                return Err(e);
            },
        };
        let expected = S::ty();
        if ty != expected {
            return Err(
                NtfsError::AttributeOfDifferentType {
                    position: self.position(),
                    expected,
                    actual: ty,
                },
            );
        }
        if !self.is_resident() {
            return Err(NtfsError::UnexpectedNonResidentAttribute { position: self.position() });
        }
        let resident_value = match self.resident_value() {
            Ok(v) => v,
            Err(e) => {
                return Err(e);
            },
        };
        S::from_resident_attribute_value(resident_value)
    }
}

/// The iterator over the attribute entries of one file record: a linear
/// walk from the first-attribute offset that halts at the end marker or
/// when the used region is exhausted, and halts with an error at a
/// malformed entry. After the first `None` or error, every further call
/// returns `None`.
pub struct NtfsAttributesRaw {
    file: NtfsFile,
    pos: usize,
    finished: bool,
    visited: Ghost<Seq<int>>,
}

impl NtfsAttributesRaw {
    pub closed spec fn spec_file(self) -> FileRecordView {
        self.file@
    }

    pub closed spec fn spec_pos(self) -> int {
        self.pos as int
    }

    pub closed spec fn spec_finished(self) -> bool {
        self.finished
    }

    /// The offsets of the attribute entries this iterator has yielded.
    pub closed spec fn spec_visited(self) -> Seq<int> {
        self.visited@
    }

    /// The offsets of all attribute entries of the record, independent of
    /// how far this iterator has advanced.
    pub open spec fn spec_full_walk(self) -> Seq<int> {
        attr_offsets(
            self.spec_file().data,
            self.spec_file().used_size as int,
            self.spec_file().first_attribute_offset as int,
        )
    }

    pub open spec fn wf(self) -> bool {
        let d = self.spec_file().data;
        let used = self.spec_file().used_size as int;
        let fao = self.spec_file().first_attribute_offset as int;
        &&& self.spec_file().wf()
        &&& self.spec_full_walk() == self.spec_visited() + attr_offsets(d, used, self.spec_pos())
        &&& walk_clean(d, used, fao) == walk_clean(d, used, self.spec_pos())
        &&& (self.spec_finished() ==> attr_offsets(d, used, self.spec_pos()).len() == 0)
    }

    pub fn new(file: &NtfsFile) -> (r: NtfsAttributesRaw)
        requires
            file.wf(),
        ensures
            r.wf(),
            r.spec_file() == file@,
            r.spec_pos() == file@.first_attribute_offset as int,
            !r.spec_finished(),
            r.spec_visited() == Seq::<int>::empty(),
    {
        let pos: usize = file.first_attribute_offset() as usize;
        let r = NtfsAttributesRaw {
            file: file.clone(),
            pos,
            finished: false,
            visited: Ghost(Seq::empty()),
        };
        proof {
            assert(r.spec_visited() + attr_offsets(
                r.spec_file().data,
                r.spec_file().used_size as int,
                r.spec_pos(),
            ) =~= attr_offsets(
                r.spec_file().data,
                r.spec_file().used_size as int,
                r.spec_pos(),
            ));
        }
        r
    }

    /// Yields the next attribute of the record, `None` at the end marker
    /// or when the used region is exhausted, and an error (exactly once)
    /// at a malformed entry.
    pub fn next(&mut self) -> (r: Option<Result<NtfsAttribute, NtfsError>>)
        requires
            old(self).wf(),
        ensures
            final(self).wf(),
            final(self).spec_file() == old(self).spec_file(),
            match r {
                None => {
                    &&& final(self).spec_visited() == old(self).spec_visited()
                    &&& final(self).spec_pos() == old(self).spec_pos()
                    &&& final(self).spec_finished()
                    &&& !old(self).spec_finished() ==> walk_halts(
                        old(self).spec_file().data,
                        old(self).spec_pos(),
                        old(self).spec_file().used_size as int,
                    ) && walk_clean(
                        old(self).spec_file().data,
                        old(self).spec_file().used_size as int,
                        old(self).spec_pos(),
                    )
                },
                Some(rr) => match rr {
                    Ok(a) => {
                        &&& !old(self).spec_finished()
                        &&& !final(self).spec_finished()
                        &&& a.wf()
                        &&& a.spec_file() == final(self).spec_file()
                        &&& a.spec_offset() == old(self).spec_pos()
                        &&& !a.spec_has_list_entries()
                        &&& old(self).spec_pos() < old(self).spec_file().used_size as int
                        &&& marker_readable(old(self).spec_file().data, old(self).spec_pos())
                        &&& !is_end_marker(old(self).spec_file().data, old(self).spec_pos())
                        &&& attr_step_ok(
                            old(self).spec_file().data,
                            old(self).spec_file().used_size as int,
                            old(self).spec_pos(),
                        )
                        &&& final(self).spec_pos() == old(self).spec_pos() + le32(
                            old(self).spec_file().data,
                            old(self).spec_pos() + 4,
                        )
                        &&& final(self).spec_visited() == old(self).spec_visited().push(
                            old(self).spec_pos(),
                        )
                    },
                    Err(e) => {
                        &&& !old(self).spec_finished()
                        &&& final(self).spec_finished()
                        &&& final(self).spec_visited() == old(self).spec_visited()
                        &&& final(self).spec_pos() == old(self).spec_pos()
                        &&& !walk_clean(
                            old(self).spec_file().data,
                            old(self).spec_file().used_size as int,
                            old(self).spec_pos(),
                        )
                        &&& attr_offsets(
                            old(self).spec_file().data,
                            old(self).spec_file().used_size as int,
                            old(self).spec_pos(),
                        ).len() == 0
                        &&& e matches NtfsError::InvalidAttributeLength { position, .. }
                            && position == old(self).spec_file().position + old(self).spec_pos()
                    },
                },
            },
    {
        if self.finished {
            return None;
        }
        let d_len: usize = self.file.record_data().len();
        let used: usize = self.file.used_size() as usize;
        if self.pos >= used {
            self.finished = true;
            return None;
        }
        let position: u64 = self.file.position() + self.pos as u64;
        if d_len - self.pos < 4 {
            self.finished = true;
            return Some(
                Err(
                    NtfsError::InvalidAttributeLength {
                        position,
                        expected: 4,
                        actual: (d_len - self.pos) as u32,
                    },
                ),
            );
        }
        let ty_code: u32 = read_le_u32(self.file.record_data(), self.pos);
        if ty_code == END_MARKER_CODE {
            self.finished = true;
            return None;
        }
        if d_len - self.pos < 8 {
            self.finished = true;
            return Some(
                Err(
                    NtfsError::InvalidAttributeLength {
                        position,
                        expected: 8,
                        actual: (d_len - self.pos) as u32,
                    },
                ),
            );
        }
        let length: u32 = read_le_u32(self.file.record_data(), self.pos + 4);
        if length < 24 {
            self.finished = true;
            return Some(
                Err(
                    NtfsError::InvalidAttributeLength { position, expected: 24, actual: length },
                ),
            );
        }
        if used - self.pos < length as usize {
            self.finished = true;
            return Some(
                Err(
                    NtfsError::InvalidAttributeLength {
                        position,
                        expected: (used - self.pos) as u32,
                        actual: length,
                    },
                ),
            );
        }
        let non_resident: u8 = self.file.record_data()[self.pos + 8];
        if non_resident != 0 && length < 64 {
            self.finished = true;
            return Some(
                Err(
                    NtfsError::InvalidAttributeLength { position, expected: 64, actual: length },
                ),
            );
        }
        let attribute = NtfsAttribute::new(&self.file, self.pos, None);
        let ghost old_pos = self.pos as int;
        let ghost d = self.spec_file().data;
        let ghost used_g = self.spec_file().used_size as int;
        let ghost fao = self.spec_file().first_attribute_offset as int;
        self.visited = Ghost(self.visited@.push(self.pos as int));
        self.pos = self.pos + length as usize;
        proof {
            assert(attr_offsets(d, used_g, old_pos) == seq![old_pos] + attr_offsets(
                d,
                used_g,
                self.spec_pos(),
            ));
            assert(self.visited@ + attr_offsets(d, used_g, self.spec_pos())
                =~= (self.visited@.drop_last()) + (seq![old_pos] + attr_offsets(
                d,
                used_g,
                self.spec_pos(),
            )));
            assert(attr_offsets(d, used_g, fao) == self.visited@ + attr_offsets(
                d,
                used_g,
                self.spec_pos(),
            ));
        }
        Some(Ok(attribute))
    }
}

/// Law: the offsets the raw iterator has yielded are strictly
/// increasing, and never more than the record's attribute area holds, so
/// iteration halts.
pub proof fn lemma_raw_iterator_offsets_strictly_increasing(it: NtfsAttributesRaw)
    requires
        it.wf(),
    ensures
        forall|i: int, j: int|
            #![trigger it.spec_visited()[i], it.spec_visited()[j]]
            0 <= i < j < it.spec_visited().len() ==> it.spec_visited()[i] < it.spec_visited()[j],
        it.spec_visited().len() <= it.spec_full_walk().len(),
{
    let d = it.spec_file().data;
    let used = it.spec_file().used_size as int;
    let fao = it.spec_file().first_attribute_offset as int;
    lemma_raw_walk_offsets_strictly_increasing(d, used, fao);
    let full = it.spec_full_walk();
    let visited = it.spec_visited();
    assert forall|i: int, j: int| 0 <= i < j < visited.len() implies visited[i] < visited[j] by {
        assert(visited[i] == full[i]);
        assert(visited[j] == full[j]);
    }
}

/// One item yielded by the logical attribute iterator. It carries the
/// base file record, the (possibly different) file record holding the
/// attribute's header when the attribute came through an
/// `$ATTRIBUTE_LIST`, the attribute's byte offset in that record, and,
/// for a list-backed non-resident attribute, the saved entry-iterator
/// state a value reader needs to stitch the connected attributes.
pub struct NtfsAttributeItem {
    attribute_file: NtfsFile,
    attribute_value_file: Option<NtfsFile>,
    attribute_offset: usize,
    list_entries: Option<NtfsAttributeListEntries>,
    source_entry: Ghost<Option<EntryView>>,
}

impl NtfsAttributeItem {
    pub closed spec fn spec_base_file(self) -> FileRecordView {
        self.attribute_file@
    }

    pub closed spec fn spec_value_file(self) -> Option<FileRecordView> {
        match self.attribute_value_file {
            Some(f) => Some(f@),
            None => None,
        }
    }

    /// The record the attribute's header lives in: the resolved record
    /// for list-sourced items, the base record otherwise.
    pub open spec fn spec_effective_file(self) -> FileRecordView {
        match self.spec_value_file() {
            Some(f) => f,
            None => self.spec_base_file(),
        }
    }

    pub closed spec fn spec_offset(self) -> int {
        self.attribute_offset as int
    }

    /// Whether this item was resolved through an `$ATTRIBUTE_LIST` entry.
    pub open spec fn spec_is_from_list(self) -> bool {
        self.spec_value_file() is Some
    }

    /// The decoded list entry this item was resolved from, if any.
    pub closed spec fn spec_source_entry(self) -> Option<EntryView> {
        self.source_entry@
    }

    pub closed spec fn spec_list_entries(self) -> Option<ListEntriesView> {
        match self.list_entries {
            Some(le) => Some(le@),
            None => None,
        }
    }

    pub open spec fn wf(self) -> bool {
        &&& self.spec_base_file().wf()
        &&& match self.spec_value_file() {
            Some(f) => f.wf(),
            None => true,
        }
        &&& valid_attribute(self.spec_effective_file(), self.spec_offset())
        &&& match self.spec_list_entries() {
            Some(v) => list_entries_view_wf(v) && self.spec_effective_file().data[self.spec_offset() + 8] != 0,
            None => true,
        }
    }

    /// A cursor to the attribute this item stands for, into whichever
    /// record holds its header.
    pub fn to_attribute(&self) -> (r: NtfsAttribute)
        requires
            self.wf(),
        ensures
            r.wf(),
            r.spec_file() == self.spec_effective_file(),
            r.spec_offset() == self.spec_offset(),
            r.spec_list_entries() == self.spec_list_entries(),
    {
        let list_ref: Option<&NtfsAttributeListEntries> = match &self.list_entries {
            Some(le) => Some(le),
            None => None,
        };
        match &self.attribute_value_file {
            Some(file) => NtfsAttribute::new(file, self.attribute_offset, list_ref),
            None => NtfsAttribute::new(&self.attribute_file, self.attribute_offset, list_ref),
        }
    }
}

/// The logical attribute iterator over a file: yields the attributes of
/// the base record in raw order and, on encountering an
/// `$ATTRIBUTE_LIST`, switches to resolving that list's entries through
/// the record loader, so that every logical attribute of the file is
/// yielded exactly once. After the first `None` or error, every further
/// call returns `None`.
pub struct NtfsAttributes {
    raw_iter: NtfsAttributesRaw,
    list_entries: Option<NtfsAttributeListEntries>,
    list_skip_info: Option<(u16, NtfsAttributeType)>,
    finished: bool,
}

impl NtfsAttributes {
    /// The iterator over the base record that this logical iterator
    /// drives.
    pub closed spec fn spec_raw_iter(self) -> NtfsAttributesRaw {
        self.raw_iter
    }

    /// The state of the active attribute-list entry iterator, if one has
    /// been installed.
    pub closed spec fn spec_list_entries(self) -> Option<ListEntriesView> {
        match self.list_entries {
            Some(le) => Some(le@),
            None => None,
        }
    }

    pub open spec fn spec_base_file(self) -> FileRecordView {
        self.spec_raw_iter().spec_file()
    }

    pub closed spec fn spec_finished(self) -> bool {
        self.finished
    }

    pub closed spec fn spec_list_skip_info(self) -> Option<(u16, NtfsAttributeType)> {
        self.list_skip_info
    }

    /// The base raw iterator is well-formed, and so is the active
    /// attribute-list iterator, if any; while the iterator can still
    /// yield, a finished entry iterator has consumed all its bytes.
    pub open spec fn wf(self) -> bool {
        &&& self.spec_raw_iter().wf()
        &&& (self.spec_raw_iter().spec_finished() ==> self.spec_finished())
        &&& match self.spec_list_entries() {
            Some(lv) => list_entries_view_wf(lv) && (!self.spec_finished() && lv.finished
                ==> lv.pos >= lv.data.len()),
            None => true,
        }
    }

    pub fn new(file: &NtfsFile) -> (r: NtfsAttributes)
        requires
            file.wf(),
        ensures
            r.wf(),
            r.spec_base_file() == file@,
            !r.spec_finished(),
            r.spec_list_skip_info() is None,
            r.spec_list_entries() is None,
            r.spec_raw_iter().spec_pos() == file@.first_attribute_offset as int,
            r.spec_raw_iter().spec_visited() == Seq::<int>::empty(),
    {
        NtfsAttributes {
            raw_iter: NtfsAttributesRaw::new(file),
            list_entries: None,
            list_skip_info: None,
            finished: false,
        }
    }

    /// Yields the next logical attribute of the file.
    ///
    /// While an attribute-list iterator is active, its entries are
    /// resolved through `ntfs`; entries that reference the base record
    /// itself are skipped (the raw iterator already yields those
    /// attributes), as are entries that continue the previously yielded
    /// non-resident attribute. `$ATTRIBUTE_LIST` attributes of the base
    /// record are consumed, never yielded: their value bytes (resident,
    /// or pre-read through the loader for a non-resident list) become
    /// the active entry iterator. `None` comes only once the base
    /// record's walk has ended cleanly and the active entry iterator is
    /// exhausted; an error ends the iteration and names its cause.
    ///
    /// What one call reaches is the step function [`next_outcome`] of the
    /// state at entry: the contract forces the call to yield, halt or
    /// fail exactly as that outcome says, with the resolved record taken
    /// from the loader, the cursor at the first matching instance, and,
    /// for a non-resident list-resolved attribute, the saved entry
    /// iterator at exactly the reached entry's position with the skip
    /// key set.
    #[verifier::rlimit(100)]
    pub fn next(&mut self, ntfs: &Ntfs) -> (r: Option<Result<NtfsAttributeItem, NtfsError>>)
        requires
            old(self).wf(),
            ntfs.wf(),
        ensures
            final(self).wf(),
            final(self).spec_base_file() == old(self).spec_base_file(),
            old(self).spec_finished() ==> r is None && *final(self) == *old(self),
            !old(self).spec_finished() ==> ({
                let base = old(self).spec_base_file();
                let d = base.data;
                let used = base.used_size as int;
                let visited = final(self).spec_raw_iter().spec_visited();
                let old_visited = old(self).spec_raw_iter().spec_visited();
                let n0 = old_visited.len() as int;
                let n1 = visited.len() as int;
                &&& n0 <= n1
                &&& forall|k: int| 0 <= k < n0 ==> #[trigger] visited[k] == old_visited[k]
                &&& match final(self).spec_list_entries() {
                    Some(lv) => (old(self).spec_list_entries() matches Some(olv)
                        && same_list_stream(olv, lv)) || exists|k: int|
                        n0 <= k < n1 && list_stream_of_attribute(
                            base,
                            #[trigger] visited[k],
                            ntfs.spec_list_data(),
                            lv,
                        ),
                    None => old(self).spec_list_entries() is None,
                }
                &&& match r {
                    None => {
                        &&& final(self).spec_finished()
                        &&& attr_offsets(d, used, final(self).spec_raw_iter().spec_pos()).len()
                            == 0
                        &&& walk_clean(d, used, base.first_attribute_offset as int)
                        &&& (final(self).spec_list_entries() matches Some(lv) ==> lv.pos
                            >= lv.data.len())
                        &&& forall|k: int|
                            n0 <= k < n1 ==> spec_attribute_type_from_code(
                                le32(d, #[trigger] visited[k]) as u32,
                            ) == Some(NtfsAttributeType::AttributeList)
                    },
                    Some(rr) => match rr {
                        Ok(item) => {
                            &&& !final(self).spec_finished()
                            &&& item.wf()
                            &&& item.spec_base_file() == base
                            &&& (item.spec_source_entry() is Some <==> item.spec_is_from_list())
                            &&& (!item.spec_is_from_list() ==> {
                                &&& item.spec_effective_file() == base
                                &&& item.spec_list_entries() is None
                                &&& n1 > n0
                                &&& item.spec_offset() == visited[n1 - 1]
                                &&& spec_attribute_type_from_code(
                                    le32(d, item.spec_offset()) as u32,
                                ) != Some(NtfsAttributeType::AttributeList)
                                &&& forall|k: int|
                                    n0 <= k < n1 - 1 ==> spec_attribute_type_from_code(
                                        le32(d, #[trigger] visited[k]) as u32,
                                    ) == Some(NtfsAttributeType::AttributeList)
                                &&& (final(self).spec_list_entries() matches Some(lv)
                                    ==> lv.finished)
                                &&& final(self).spec_list_skip_info() == old(self).spec_list_skip_info()
                            })
                            &&& (item.spec_is_from_list() ==> {
                                &&& forall|k: int|
                                    n0 <= k < n1 ==> spec_attribute_type_from_code(
                                        le32(d, #[trigger] visited[k]) as u32,
                                    ) == Some(NtfsAttributeType::AttributeList)
                                &&& final(self).spec_list_entries() is Some
                                &&& (item.spec_list_entries() matches Some(liv) ==> final(self).spec_list_entries() matches Some(alv) && same_list_stream(
                                    liv,
                                    alv,
                                ))
                            })
                            &&& (item.spec_source_entry() matches Some(ev) ==> {
                                &&& spec_reference_record_number(ev.reference)
                                    != base.file_record_number as int
                                &&& (old(self).spec_list_skip_info() matches Some(skip) ==> !(
                                ev.instance == skip.0 && spec_attribute_type_from_code(ev.ty_code)
                                    == Some(skip.1)))
                                &&& instance_at(
                                    item.spec_effective_file().data,
                                    item.spec_offset(),
                                ) == ev.instance
                                &&& (item.spec_value_file() matches Some(vf) ==> {
                                    &&& vf.file_record_number as int
                                        == spec_reference_record_number(ev.reference)
                                    &&& exists|i: int|
                                        0 <= i < ntfs@.len() && vf == #[trigger] ntfs@[i]
                                })
                                &&& (item.spec_list_entries() is Some ==> (
                                spec_attribute_type_from_code(ev.ty_code) matches Some(t) && final(self).spec_list_skip_info() == Some((ev.instance, t))))
                                &&& (item.spec_list_entries() is None
                                    ==> final(self).spec_list_skip_info() is None)
                            })
                        },
                        Err(e) => {
                            &&& final(self).spec_finished()
                            &&& forall|k: int|
                                n0 <= k < n1 ==> spec_attribute_type_from_code(
                                    le32(d, #[trigger] visited[k]) as u32,
                                ) == Some(NtfsAttributeType::AttributeList)
                            &&& match e {
                                NtfsError::InvalidAttributeLength { position, .. } => (position
                                    == base.position + final(self).spec_raw_iter().spec_pos()
                                    && !walk_clean(d, used, base.first_attribute_offset as int))
                                    || exists|i: int|
                                    0 <= i < ntfs@.len() && record_walk_unclean(
                                        #[trigger] ntfs@[i],
                                    ),
                                NtfsError::UnsupportedAttributeType { position, actual } => {
                                    &&& spec_attribute_type_from_code(actual) is None
                                    &&& final(self).spec_list_entries() matches Some(lv)
                                        && exists|q: int|
                                        0 <= q < lv.data.len() && #[trigger] entry_step_ok(
                                            lv.data,
                                            q,
                                        ) && entry_ty_code(lv.data, q) == actual && position
                                            == lv.position + q
                                },
                                NtfsError::FileRecordNotFound { file_record_number } => forall|
                                    i: int,
                                |
                                    0 <= i < ntfs@.len() ==> (#[trigger] ntfs@[i]).file_record_number != file_record_number,
                                NtfsError::AttributeNotFound { instance, .. } => exists|i: int|
                                    0 <= i < ntfs@.len() && record_walk_lacks_instance(
                                        #[trigger] ntfs@[i],
                                        instance as int,
                                    ),
                                NtfsError::InvalidAttributeListEntryLength {
                                    position,
                                    ..
                                } => final(self).spec_list_entries() matches Some(lv) && lv.pos
                                    < lv.data.len() && !entry_step_ok(lv.data, lv.pos) && position
                                    == lv.position + lv.pos,
                                NtfsError::InvalidResidentAttributeValueOffset {
                                    position,
                                    ..
                                } => exists|k: int|
                                    n0 <= k < n1 && position == base.position + #[trigger] visited[k] && le16(d, visited[k] + 20) >= le32(d, visited[k] + 4),
                                NtfsError::InvalidResidentAttributeValueLength {
                                    position,
                                    ..
                                } => exists|k: int|
                                    n0 <= k < n1 && position == base.position + #[trigger] visited[k] && le16(d, visited[k] + 20) < le32(d, visited[k] + 4)
                                        && le16(d, visited[k] + 20) + le32(d, visited[k] + 16)
                                        > le32(d, visited[k] + 4),
                                NtfsError::InvalidNonResidentValueDataRunsOffset {
                                    position,
                                    ..
                                } => exists|k: int|
                                    n0 <= k < n1 && position == base.position + #[trigger] visited[k] && le16(d, visited[k] + 32) > le32(d, visited[k] + 4),
                                NtfsError::AttributeListDataNotFound { position } => forall|
                                    m: int,
                                |
                                    0 <= m < ntfs.spec_list_data().len() ==> (
                                    #[trigger] ntfs.spec_list_data()[m]).position != position,
                                _ => false,
                            }
                        },
                    },
                }
                &&& match next_outcome(
                    base,
                    ntfs.spec_list_data(),
                    base.file_record_number,
                    old(self).spec_list_skip_info(),
                    old(self).spec_list_entries(),
                    old(self).spec_raw_iter().spec_pos(),
                ) {
                    NextOutcome::Halt => r is None,
                    NextOutcome::RawYield { off } => r matches Some(Ok(item))
                        && !item.spec_is_from_list() && item.spec_offset() == off,
                    NextOutcome::RawError { pos } => r matches Some(Err(e)) && e matches
                        NtfsError::InvalidAttributeLength { position, .. } && position
                        == base.position + pos,
                    NextOutcome::ListValueError { off } => r == Some(
                        Err::<NtfsAttributeItem, NtfsError>(
                            if le16(d, off + 20) >= le32(d, off + 4) {
                                NtfsError::InvalidResidentAttributeValueOffset {
                                    position: (base.position + off) as u64,
                                    expected: le16(d, off + 20) as u16,
                                    actual: le32(d, off + 4) as u32,
                                }
                            } else {
                                NtfsError::InvalidResidentAttributeValueLength {
                                    position: (base.position + off) as u64,
                                    expected: (le16(d, off + 20) + le32(d, off + 16)) as u64,
                                    actual: le32(d, off + 4) as u32,
                                }
                            },
                        ),
                    ),
                    NextOutcome::ListRunsError { off } => r == Some(
                        Err::<NtfsAttributeItem, NtfsError>(
                            NtfsError::InvalidNonResidentValueDataRunsOffset {
                                position: (base.position + off) as u64,
                                expected: le16(d, off + 32) as u16,
                                actual: le32(d, off + 4) as u32,
                            },
                        ),
                    ),
                    NextOutcome::ListStreamMissing { off } => r == Some(
                        Err::<NtfsAttributeItem, NtfsError>(
                            NtfsError::AttributeListDataNotFound {
                                position: (base.position + off) as u64,
                            },
                        ),
                    ),
                    NextOutcome::ListBadEntry { data, position, entry_pos } => r matches Some(
                        Err(e),
                    ) && e matches NtfsError::InvalidAttributeListEntryLength {
                        position: epos,
                        ..
                    } && epos == position + entry_pos,
                    NextOutcome::ListUnknownType { data, position, entry_pos } => r == Some(
                        Err::<NtfsAttributeItem, NtfsError>(
                            NtfsError::UnsupportedAttributeType {
                                position: (position + entry_pos) as u64,
                                actual: entry_ty_code(data, entry_pos) as u32,
                            },
                        ),
                    ),
                    NextOutcome::ListYield { data, position, entry_pos } => ({
                        let ev = entry_view_at(data, position, entry_pos);
                        let refn = spec_reference_record_number(ev.reference);
                        match spec_record_lookup(ntfs@, refn) {
                            None => r == Some(
                                Err::<NtfsAttributeItem, NtfsError>(
                                    NtfsError::FileRecordNotFound {
                                        file_record_number: refn as u64,
                                    },
                                ),
                            ),
                            Some(f) => ({
                                let offs = attr_offsets(
                                    f.data,
                                    f.used_size as int,
                                    f.first_attribute_offset as int,
                                );
                                match spec_find_instance(f.data, offs, ev.instance as int) {
                                    Some(aoff) => r matches Some(Ok(item)) && {
                                        &&& item.spec_source_entry() == Some(ev)
                                        &&& item.spec_value_file() == Some(f)
                                        &&& item.spec_offset() == aoff
                                        &&& (if f.data[aoff + 8] == 0 {
                                            item.spec_list_entries() is None && final(self).spec_list_skip_info() is None
                                        } else {
                                            item.spec_list_entries() == Some(
                                                (ListEntriesView {
                                                    data,
                                                    position,
                                                    pos: entry_pos,
                                                    finished: false,
                                                }),
                                            ) && (spec_attribute_type_from_code(ev.ty_code)
                                                matches Some(t) && final(self).spec_list_skip_info() == Some((ev.instance, t)))
                                        })
                                        &&& final(self).spec_list_entries() == Some(
                                            (ListEntriesView {
                                                data,
                                                position,
                                                pos: entry_pos + entry_length(data, entry_pos),
                                                finished: false,
                                            }),
                                        )
                                    },
                                    None => if walk_clean(
                                        f.data,
                                        f.used_size as int,
                                        f.first_attribute_offset as int,
                                    ) {
                                        r == Some(
                                            Err::<NtfsAttributeItem, NtfsError>(
                                                NtfsError::AttributeNotFound {
                                                    position: ev.position,
                                                    instance: ev.instance,
                                                    ty: ev.ty_code,
                                                },
                                            ),
                                        )
                                    } else {
                                        r matches Some(Err(e)) && e matches
                                            NtfsError::InvalidAttributeLength { .. }
                                    },
                                }
                            }),
                        }
                    }),
                }
            }),
    {
        if self.finished {
            return None;
        }
        let ghost base_g = self.raw_iter.spec_file();
        let ghost old_visited = self.raw_iter.spec_visited();
        let ghost n0 = old_visited.len() as int;
        let ghost old_list = self.spec_list_entries();
        let ghost lists_g = ntfs.spec_list_data();
        let ghost skip0 = self.spec_list_skip_info();
        let ghost outcome0 = next_outcome(
            base_g,
            lists_g,
            base_g.file_record_number,
            skip0,
            self.spec_list_entries(),
            self.raw_iter.spec_pos(),
        );
        let base_record_number: u64 = self.raw_iter.file.file_record_number();
        loop
            invariant
                ntfs.wf(),
                self.raw_iter.wf(),
                !self.finished,
                !self.raw_iter.spec_finished(),
                !old(self).spec_finished(),
                self.list_skip_info == old(self).spec_list_skip_info(),
                base_g == old(self).spec_base_file(),
                self.raw_iter.spec_file() == base_g,
                base_record_number == base_g.file_record_number,
                old_visited == old(self).spec_raw_iter().spec_visited(),
                n0 == old_visited.len() as int,
                old_list == old(self).spec_list_entries(),
                lists_g == ntfs.spec_list_data(),
                skip0 == old(self).spec_list_skip_info(),
                outcome0 == next_outcome(
                    base_g,
                    lists_g,
                    base_g.file_record_number,
                    skip0,
                    old(self).spec_list_entries(),
                    old(self).spec_raw_iter().spec_pos(),
                ),
                outcome0 == next_outcome(
                    base_g,
                    lists_g,
                    base_g.file_record_number,
                    skip0,
                    self.spec_list_entries(),
                    self.raw_iter.spec_pos(),
                ),
                n0 <= self.raw_iter.spec_visited().len(),
                forall|k: int|
                    0 <= k < n0 ==> #[trigger] self.raw_iter.spec_visited()[k] == old_visited[k],
                forall|k: int|
                    n0 <= k < self.raw_iter.spec_visited().len()
                        ==> spec_attribute_type_from_code(
                        le32(base_g.data, #[trigger] self.raw_iter.spec_visited()[k]) as u32,
                    ) == Some(NtfsAttributeType::AttributeList),
                match self.list_entries {
                    Some(le_cur) => {
                        &&& le_cur.wf()
                        &&& (le_cur@.finished ==> le_cur@.pos >= le_cur@.data.len())
                        &&& ((old_list matches Some(olv) && same_list_stream(olv, le_cur@))
                            || exists|k: int|
                            n0 <= k < self.raw_iter.spec_visited().len()
                                && list_stream_of_attribute(
                                base_g,
                                #[trigger] self.raw_iter.spec_visited()[k],
                                ntfs.spec_list_data(),
                                le_cur@,
                            ))
                    },
                    None => old_list is None,
                },
            decreases attr_offsets(
                base_g.data,
                base_g.used_size as int,
                self.raw_iter.spec_pos(),
            ).len(),
        {
            let ghost raw_at_start = self.raw_iter;
            let cloned_entries: Option<NtfsAttributeListEntries> = match &self.list_entries {
                Some(l) => Some(l.clone()),
                None => None,
            };
            match cloned_entries {
                Some(mut le) => {
                    loop
                        invariant
                            ntfs.wf(),
                            le.wf(),
                            le@.finished ==> le@.pos >= le@.data.len(),
                            ((old_list matches Some(olv) && same_list_stream(olv, le@)) || exists|
                                k: int,
                            |
                                n0 <= k < self.raw_iter.spec_visited().len()
                                    && list_stream_of_attribute(
                                    base_g,
                                    #[trigger] self.raw_iter.spec_visited()[k],
                                    ntfs.spec_list_data(),
                                    le@,
                                )),
                            self.raw_iter == raw_at_start,
                            self.raw_iter.wf(),
                            !self.finished,
                            !self.raw_iter.spec_finished(),
                            !old(self).spec_finished(),
                            self.list_skip_info == old(self).spec_list_skip_info(),
                            base_g == old(self).spec_base_file(),
                            self.raw_iter.spec_file() == base_g,
                            base_record_number == base_g.file_record_number,
                            old_visited == old(self).spec_raw_iter().spec_visited(),
                            n0 == old_visited.len() as int,
                            old_list == old(self).spec_list_entries(),
                            lists_g == ntfs.spec_list_data(),
                            skip0 == old(self).spec_list_skip_info(),
                            outcome0 == next_outcome(
                                base_g,
                                lists_g,
                                base_g.file_record_number,
                                skip0,
                                old(self).spec_list_entries(),
                                old(self).spec_raw_iter().spec_pos(),
                            ),
                            outcome0 == next_outcome(
                                base_g,
                                lists_g,
                                base_g.file_record_number,
                                skip0,
                                Some(le@),
                                self.raw_iter.spec_pos(),
                            ),
                            n0 <= self.raw_iter.spec_visited().len(),
                            forall|k: int|
                                0 <= k < n0 ==> #[trigger] self.raw_iter.spec_visited()[k]
                                    == old_visited[k],
                            forall|k: int|
                                n0 <= k < self.raw_iter.spec_visited().len()
                                    ==> spec_attribute_type_from_code(
                                    le32(
                                        base_g.data,
                                        #[trigger] self.raw_iter.spec_visited()[k],
                                    ) as u32,
                                ) == Some(NtfsAttributeType::AttributeList),
                            match self.list_entries {
                                Some(le_cur) => le_cur.wf(),
                                None => false,
                            },
                        ensures
                            le@.finished,
                            le@.pos >= le@.data.len(),
                        decreases le@.data.len() - le@.pos + (if le@.finished {
                            0int
                        } else {
                            1int
                        }),
                    {
                        // A non-resident attribute found through the list
                        // may be split over multiple connected
                        // attributes; the state saved before this entry
                        // lets the value reader walk them.
                        let ghost pre_le = le@;
                        let le_clone = le.clone();
                        let step = le.next();
                        proof {
                            assert(le@.data == pre_le.data && le@.position == pre_le.position);
                            if !(old_list matches Some(olv) && same_list_stream(olv, pre_le)) {
                                let k = choose|k: int|
                                    n0 <= k < self.raw_iter.spec_visited().len()
                                        && list_stream_of_attribute(
                                        base_g,
                                        #[trigger] self.raw_iter.spec_visited()[k],
                                        ntfs.spec_list_data(),
                                        pre_le,
                                    );
                                assert(list_stream_of_attribute(
                                    base_g,
                                    self.raw_iter.spec_visited()[k],
                                    ntfs.spec_list_data(),
                                    le@,
                                ));
                            }
                        }
                        match step {
                            None => {
                                break ;
                            },
                            Some(Err(e)) => {
                                proof {
                                    let q = pre_le.pos;
                                    assert(!entry_step_ok(pre_le.data, q));
                                    assert(q < pre_le.data.len());
                                    assert(scan_list(
                                        pre_le.data,
                                        base_g.file_record_number,
                                        skip0,
                                        q,
                                    ) == (ListScan::BadEntry { pos: q }));
                                    assert(outcome0 == (NextOutcome::ListBadEntry {
                                        data: pre_le.data,
                                        position: pre_le.position,
                                        entry_pos: q,
                                    }));
                                }
                                self.list_entries = Some(le);
                                self.finished = true;
                                return Some(Err(e));
                            },
                            Some(Ok(entry)) => {
                                let entry_instance: u16 = entry.instance();
                                let entry_record_number: u64 =
                                    entry.base_file_reference().file_record_number();
                                let entry_ty = match entry.ty() {
                                    Ok(t) => t,
                                    Err(e) => {
                                        proof {
                                            let lv = le@;
                                            let q = pre_le.pos;
                                            assert(lv.data == pre_le.data);
                                            assert(entry_step_ok(lv.data, q));
                                            assert(0 <= entry_ty_code(lv.data, q)
                                                <= u32::MAX as int);
                                            assert(entry_ty_code(lv.data, q) == entry@.ty_code);
                                            assert(0 <= q);
                                            assert(lv.position + q <= u64::MAX as int);
                                            assert(entry@.position == (lv.position + q) as u64);
                                            assert(entry@.position == lv.position + q);
                                            assert(exists|q2: int|
                                                0 <= q2 < lv.data.len() && #[trigger] entry_step_ok(
                                                    lv.data,
                                                    q2,
                                                ) && entry_ty_code(lv.data, q2) == entry@.ty_code
                                                    && entry@.position == lv.position + q2);
                                            assert(spec_attribute_type_from_code(
                                                entry_ty_code(pre_le.data, q) as u32,
                                            ) is None);
                                            assert(scan_list(
                                                pre_le.data,
                                                base_g.file_record_number,
                                                skip0,
                                                q,
                                            ) == (ListScan::UnknownType { pos: q }));
                                            assert(outcome0 == (NextOutcome::ListUnknownType {
                                                data: pre_le.data,
                                                position: pre_le.position,
                                                entry_pos: q,
                                            }));
                                        }
                                        self.list_entries = Some(le);
                                        self.finished = true;
                                        return Some(Err(e));
                                    },
                                };
                                // Entries that only repeat attributes of
                                // the base record are already covered by
                                // the raw iterator.
                                if entry_record_number == base_record_number {
                                    proof {
                                        let q = pre_le.pos;
                                        assert(entry_step_ok(pre_le.data, q));
                                        assert(entry_reference(pre_le.data, q) as u64
                                            == entry@.reference);
                                        assert(spec_attribute_type_from_code(
                                            entry_ty_code(pre_le.data, q) as u32,
                                        ) == Some(entry_ty));
                                        assert(spec_reference_record_number(entry@.reference)
                                            == base_g.file_record_number as int);
                                        assert(scan_list(
                                            pre_le.data,
                                            base_g.file_record_number,
                                            skip0,
                                            q,
                                        ) == scan_list(
                                            pre_le.data,
                                            base_g.file_record_number,
                                            skip0,
                                            q + entry_length(pre_le.data, q),
                                        ));
                                        assert(le@.pos == q + entry_length(pre_le.data, q));
                                    }
                                    continue ;
                                }
                                // Entries that continue the previously
                                // yielded non-resident attribute.
                                let skip: bool = match self.list_skip_info {
                                    Some((skip_instance, skip_ty)) => entry_instance
                                        == skip_instance && entry_ty == skip_ty,
                                    None => false,
                                };
                                if skip {
                                    proof {
                                        let q = pre_le.pos;
                                        assert(entry_step_ok(pre_le.data, q));
                                        assert(crate::attribute_list::entry_instance(
                                            pre_le.data,
                                            q,
                                        ) == entry@.instance);
                                        assert(spec_attribute_type_from_code(
                                            entry_ty_code(pre_le.data, q) as u32,
                                        ) == Some(entry_ty));
                                        assert(skip0 matches Some(sk)
                                            && crate::attribute_list::entry_instance(
                                            pre_le.data,
                                            q,
                                        ) == sk.0 && spec_attribute_type_from_code(
                                            entry_ty_code(pre_le.data, q) as u32,
                                        ) == Some(sk.1));
                                        assert(scan_list(
                                            pre_le.data,
                                            base_g.file_record_number,
                                            skip0,
                                            q,
                                        ) == scan_list(
                                            pre_le.data,
                                            base_g.file_record_number,
                                            skip0,
                                            q + entry_length(pre_le.data, q),
                                        ));
                                        assert(le@.pos == q + entry_length(pre_le.data, q));
                                    }
                                    continue ;
                                }
                                proof {
                                    let q = pre_le.pos;
                                    assert(entry_step_ok(pre_le.data, q));
                                    assert(spec_attribute_type_from_code(
                                        entry_ty_code(pre_le.data, q) as u32,
                                    ) == Some(entry_ty));
                                    assert(entry_reference(pre_le.data, q) as u64
                                        == entry@.reference);
                                    assert(spec_reference_record_number(entry@.reference)
                                        != base_g.file_record_number as int);
                                    match skip0 {
                                        Some(sk) => {
                                            assert(!(entry@.instance == sk.0 && entry_ty
                                                == sk.1));
                                        },
                                        None => {},
                                    }
                                    assert(scan_list(
                                        pre_le.data,
                                        base_g.file_record_number,
                                        skip0,
                                        q,
                                    ) == (ListScan::Found { pos: q }));
                                    assert(outcome0 == (NextOutcome::ListYield {
                                        data: pre_le.data,
                                        position: pre_le.position,
                                        entry_pos: q,
                                    }));
                                    assert(entry@ == entry_view_at(
                                        pre_le.data,
                                        pre_le.position,
                                        q,
                                    ));
                                }
                                self.list_skip_info = None;
                                let entry_file = match entry.to_file(ntfs) {
                                    Ok(f) => f,
                                    Err(e) => {
                                        proof {
                                            let rrn = spec_reference_record_number(
                                                entry@.reference,
                                            );
                                            assert(0 <= rrn < 0x1_0000_0000_0000);
                                            assert(forall|i: int|
                                                0 <= i < ntfs@.len() ==> (#[trigger] ntfs@[i]).file_record_number as int != rrn);
                                            assert(forall|i: int|
                                                0 <= i < ntfs@.len() ==> (#[trigger] ntfs@[i]).file_record_number != rrn);
                                            lemma_record_lookup_none(ntfs@, rrn);
                                        }
                                        self.list_entries = Some(le);
                                        self.finished = true;
                                        return Some(Err(e));
                                    },
                                };
                                let ghost vff = entry_file@;
                                let entry_attribute = match entry.to_attribute(&entry_file) {
                                    Ok(a) => a,
                                    Err(e) => {
                                        self.list_entries = Some(le);
                                        self.finished = true;
                                        proof {
                                            let rrn = spec_reference_record_number(
                                                entry@.reference,
                                            );
                                            let i = choose|i: int|
                                                0 <= i < ntfs@.len() && entry_file@ == ntfs@[i]
                                                    && (#[trigger] ntfs@[i]).file_record_number as int
                                                    == rrn && forall|j: int|
                                                    0 <= j < i ==> (#[trigger] ntfs@[j]).file_record_number as int
                                                        != rrn;
                                            assert(entry_file@ == ntfs@[i]);
                                            assert(0 <= rrn < 0x1_0000_0000_0000);
                                            assert(forall|j: int|
                                                0 <= j < i ==> (#[trigger] ntfs@[j]).file_record_number
                                                    != rrn);
                                            lemma_record_lookup_some(ntfs@, rrn, i);
                                            let fv = entry_file@;
                                            let offs = attr_offsets(
                                                fv.data,
                                                fv.used_size as int,
                                                fv.first_attribute_offset as int,
                                            );
                                            lemma_find_instance_none(
                                                fv.data,
                                                offs,
                                                entry@.instance as int,
                                            );
                                        }
                                        return Some(Err(e));
                                    },
                                };
                                let attribute_offset: usize = entry_attribute.offset();
                                let resident: bool = entry_attribute.is_resident();
                                let mut item_list_entries: Option<NtfsAttributeListEntries> =
                                    None;
                                if !resident {
                                    item_list_entries = Some(le_clone);
                                    self.list_skip_info = Some((entry_instance, entry_ty));
                                }
                                proof {
                                    let rrn = spec_reference_record_number(entry@.reference);
                                    let i = choose|i: int|
                                        0 <= i < ntfs@.len() && vff == ntfs@[i] && (
                                        #[trigger] ntfs@[i]).file_record_number as int == rrn
                                            && forall|j: int|
                                            0 <= j < i ==> (#[trigger] ntfs@[j]).file_record_number as int != rrn;
                                    assert(vff == ntfs@[i]);
                                    assert(0 <= rrn < 0x1_0000_0000_0000);
                                    assert(forall|j: int|
                                        0 <= j < i ==> (#[trigger] ntfs@[j]).file_record_number
                                            != rrn);
                                    lemma_record_lookup_some(ntfs@, rrn, i);
                                    let offs = attr_offsets(
                                        vff.data,
                                        vff.used_size as int,
                                        vff.first_attribute_offset as int,
                                    );
                                    let k = choose|k: int|
                                        0 <= k < offs.len() && #[trigger] offs[k]
                                            == entry_attribute.spec_offset() && forall|j: int|
                                            0 <= j < k ==> instance_at(vff.data, #[trigger] offs[j])
                                                != entry@.instance;
                                    lemma_find_instance_some(
                                        vff.data,
                                        offs,
                                        entry@.instance as int,
                                        k,
                                    );
                                    assert(spec_find_instance(
                                        vff.data,
                                        offs,
                                        entry@.instance as int,
                                    ) == Some(entry_attribute.spec_offset()));
                                    let q = pre_le.pos;
                                    assert(pre_le == (ListEntriesView {
                                        data: pre_le.data,
                                        position: pre_le.position,
                                        pos: q,
                                        finished: false,
                                    }));
                                    assert(le@ == (ListEntriesView {
                                        data: pre_le.data,
                                        position: pre_le.position,
                                        pos: q + entry_length(pre_le.data, q),
                                        finished: false,
                                    }));
                                }
                                self.list_entries = Some(le);
                                let item = NtfsAttributeItem {
                                    attribute_file: self.raw_iter.file.clone(),
                                    attribute_value_file: Some(entry_file),
                                    attribute_offset,
                                    list_entries: item_list_entries,
                                    source_entry: Ghost(Some(entry@)),
                                };
                                return Some(Ok(item));
                            },
                        }
                    }
                    proof {
                        assert(le@.pos >= le@.data.len());
                        assert(scan_list(
                            le@.data,
                            base_g.file_record_number,
                            skip0,
                            le@.pos,
                        ) == ListScan::Exhausted);
                        assert(outcome0 == next_from_raw(
                            base_g,
                            lists_g,
                            base_g.file_record_number,
                            skip0,
                            self.raw_iter.spec_pos(),
                        ));
                    }
                    self.list_entries = Some(le);
                },
                None => {},
            }
            proof {
                assert(outcome0 == next_from_raw(
                    base_g,
                    lists_g,
                    base_g.file_record_number,
                    skip0,
                    self.raw_iter.spec_pos(),
                ));
            }
            let ghost pre_raw_remaining = attr_offsets(
                base_g.data,
                base_g.used_size as int,
                self.raw_iter.spec_pos(),
            );
            let ghost pre_raw_visited = self.raw_iter.spec_visited();
            match self.raw_iter.next() {
                None => {
                    self.finished = true;
                    proof {
                        assert(attr_offsets(
                            base_g.data,
                            base_g.used_size as int,
                            self.raw_iter.spec_pos(),
                        ).len() == 0);
                        assert(walk_clean(
                            base_g.data,
                            base_g.used_size as int,
                            base_g.first_attribute_offset as int,
                        ));
                        assert(outcome0 == NextOutcome::Halt);
                    }
                    return None;
                },
                Some(Err(e)) => {
                    self.finished = true;
                    proof {
                        assert(outcome0 == (NextOutcome::RawError {
                            pos: self.raw_iter.spec_pos(),
                        }));
                    }
                    return Some(Err(e));
                },
                Some(Ok(attribute)) => {
                    proof {
                        match self.spec_list_entries() {
                            Some(lv) => {
                                if !(old_list matches Some(olv) && same_list_stream(olv, lv)) {
                                    let k = choose|k: int|
                                        n0 <= k < pre_raw_visited.len()
                                            && list_stream_of_attribute(
                                            base_g,
                                            #[trigger] pre_raw_visited[k],
                                            ntfs.spec_list_data(),
                                            lv,
                                        );
                                    assert(self.raw_iter.spec_visited()[k]
                                        == pre_raw_visited[k]);
                                    assert(list_stream_of_attribute(
                                        base_g,
                                        self.raw_iter.spec_visited()[k],
                                        ntfs.spec_list_data(),
                                        lv,
                                    ));
                                }
                            },
                            None => {},
                        }
                    }
                    let ty_result = attribute.ty();
                    match ty_result {
                        Ok(NtfsAttributeType::AttributeList) => {
                            // The list's value bytes become the active
                            // entry iterator: directly for a resident
                            // list, through the loader's pre-read stream
                            // for a non-resident one.
                            if attribute.is_resident() {
                                let v = match attribute.resident_value() {
                                    Ok(v) => v,
                                    Err(e) => {
                                        self.finished = true;
                                        proof {
                                            let k = pre_raw_visited.len() as int;
                                            assert(self.raw_iter.spec_visited()[k]
                                                == attribute.spec_offset());
                                            assert(spec_attribute_type_from_code(
                                                le32(
                                                    base_g.data,
                                                    self.raw_iter.spec_visited()[k],
                                                ) as u32,
                                            ) == Some(NtfsAttributeType::AttributeList));
                                            assert(attribute.spec_position() == base_g.position
                                                + attribute.spec_offset());
                                            assert(outcome0 == (NextOutcome::ListValueError {
                                                off: attribute.spec_offset(),
                                            }));
                                        }
                                        return Some(Err(e));
                                    },
                                };
                                let ghost vdata = v.spec_data();
                                let (ldata, lpos) = v.into_parts();
                                self.list_entries = Some(
                                    NtfsAttributeListEntries::new(ldata, lpos),
                                );
                                proof {
                                    assert(vdata == resident_value_bytes(
                                        base_g.data,
                                        attribute.spec_offset(),
                                    ));
                                }
                            } else {
                                match attribute.non_resident_value_data_and_position() {
                                    Ok(_) => {},
                                    Err(e) => {
                                        self.finished = true;
                                        proof {
                                            let k = pre_raw_visited.len() as int;
                                            assert(self.raw_iter.spec_visited()[k]
                                                == attribute.spec_offset());
                                            assert(spec_attribute_type_from_code(
                                                le32(
                                                    base_g.data,
                                                    self.raw_iter.spec_visited()[k],
                                                ) as u32,
                                            ) == Some(NtfsAttributeType::AttributeList));
                                            assert(outcome0 == (NextOutcome::ListRunsError {
                                                off: attribute.spec_offset(),
                                            }));
                                        }
                                        return Some(Err(e));
                                    },
                                }
                                let lpos: u64 = attribute.position();
                                let ldata = match ntfs.attribute_list_data(lpos) {
                                    Ok(x) => x,
                                    Err(e) => {
                                        self.finished = true;
                                        proof {
                                            let k = pre_raw_visited.len() as int;
                                            assert(self.raw_iter.spec_visited()[k]
                                                == attribute.spec_offset());
                                            assert(spec_attribute_type_from_code(
                                                le32(
                                                    base_g.data,
                                                    self.raw_iter.spec_visited()[k],
                                                ) as u32,
                                            ) == Some(NtfsAttributeType::AttributeList));
                                            lemma_list_data_lookup_none(
                                                lists_g,
                                                base_g.position + attribute.spec_offset(),
                                            );
                                            assert(outcome0 == (NextOutcome::ListStreamMissing {
                                                off: attribute.spec_offset(),
                                            }));
                                        }
                                        return Some(Err(e));
                                    },
                                };
                                proof {
                                    let m = choose|m: int|
                                        0 <= m < ntfs.spec_list_data().len() && (
                                        #[trigger] ntfs.spec_list_data()[m]).position == lpos
                                            && ldata@ == ntfs.spec_list_data()[m].data && forall|
                                            j: int,
                                        |
                                            0 <= j < m ==> (#[trigger] ntfs.spec_list_data()[j]).position
                                                != lpos;
                                        lemma_list_data_lookup_some(lists_g, lpos as int, m);
                                        assert(spec_list_data_lookup(lists_g, lpos as int)
                                            == Some(ldata@));
                                }
                                self.list_entries = Some(
                                    NtfsAttributeListEntries::new(ldata, lpos),
                                );
                            }
                            proof {
                                let d = base_g.data;
                                let used = base_g.used_size as int;
                                let fao = base_g.first_attribute_offset as int;
                                let full = attr_offsets(d, used, fao);
                                assert(full.len() == pre_raw_visited.len()
                                    + pre_raw_remaining.len());
                                assert(full.len() == self.raw_iter.spec_visited().len()
                                    + attr_offsets(d, used, self.raw_iter.spec_pos()).len());
                                assert(self.raw_iter.spec_visited().len() == pre_raw_visited.len()
                                    + 1);
                                assert(attr_offsets(d, used, self.raw_iter.spec_pos()).len()
                                    < pre_raw_remaining.len());
                                let k = pre_raw_visited.len() as int;
                                assert(self.raw_iter.spec_visited()[k]
                                    == attribute.spec_offset());
                                assert(spec_attribute_type_from_code(
                                    le32(d, self.raw_iter.spec_visited()[k]) as u32,
                                ) == Some(NtfsAttributeType::AttributeList));
                                assert(self.spec_list_entries() matches Some(lv)
                                    && list_stream_of_attribute(
                                    base_g,
                                    self.raw_iter.spec_visited()[k],
                                    ntfs.spec_list_data(),
                                    lv,
                                ));
                                assert(outcome0 == next_outcome(
                                    base_g,
                                    lists_g,
                                    base_g.file_record_number,
                                    skip0,
                                    self.spec_list_entries(),
                                    self.raw_iter.spec_pos(),
                                ));
                            }
                        },
                        _ => {
                            proof {
                                assert(outcome0 == (NextOutcome::RawYield {
                                    off: attribute.spec_offset(),
                                }));
                            }
                            let item = NtfsAttributeItem {
                                attribute_file: self.raw_iter.file.clone(),
                                attribute_value_file: None,
                                attribute_offset: attribute.offset(),
                                list_entries: None,
                                source_entry: Ghost(None),
                            };
                            return Some(Ok(item));
                        },
                    }
                },
            }
        }
    }
}

} // verus!
