use ntfs::attribute::{NtfsAttributeType, NtfsAttributes};
use ntfs::attribute_list::NtfsAttributeList;
use ntfs::error::NtfsError;
use ntfs::file::{Ntfs, NtfsFile};
use ntfs::value::NtfsValue;

fn put_u16(b: &mut Vec<u8>, off: usize, v: u16) {
    b[off] = (v & 0xFF) as u8;
    b[off + 1] = (v >> 8) as u8;
}

fn put_u32(b: &mut Vec<u8>, off: usize, v: u32) {
    for i in 0..4 {
        b[off + i] = ((v >> (8 * i)) & 0xFF) as u8;
    }
}

fn put_u64(b: &mut Vec<u8>, off: usize, v: u64) {
    for i in 0..8 {
        b[off + i] = ((v >> (8 * i)) & 0xFF) as u8;
    }
}

fn put_resident_attr(
    b: &mut Vec<u8>,
    off: usize,
    ty: u32,
    length: u32,
    instance: u16,
    value_length: u32,
    value_offset: u16,
) {
    put_u32(b, off, ty);
    put_u32(b, off + 4, length);
    b[off + 8] = 0;
    put_u16(b, off + 14, instance);
    put_u32(b, off + 16, value_length);
    put_u16(b, off + 20, value_offset);
}

fn put_nonres_attr(
    b: &mut Vec<u8>,
    off: usize,
    ty: u32,
    length: u32,
    instance: u16,
    data_runs_offset: u16,
    data_size: u64,
) {
    put_u32(b, off, ty);
    put_u32(b, off + 4, length);
    b[off + 8] = 1;
    put_u16(b, off + 14, instance);
    put_u16(b, off + 32, data_runs_offset);
    put_u64(b, off + 48, data_size);
}

/// Writes one 32-byte attribute-list entry at `off` of `b`.
fn put_list_entry(
    b: &mut Vec<u8>,
    off: usize,
    ty: u32,
    starting_vcn: u64,
    reference: u64,
    instance: u16,
) {
    put_u32(b, off, ty);
    put_u16(b, off + 4, 32);
    b[off + 6] = 0; // name length
    b[off + 7] = 26; // name offset
    put_u64(b, off + 8, starting_vcn);
    put_u64(b, off + 16, reference);
    put_u16(b, off + 24, instance);
}

fn record(data: Vec<u8>, position: u64, used: u32, fao: u16, number: u64) -> NtfsFile {
    NtfsFile::new(data, position, used, fao, number).unwrap()
}

/// A base record whose only attribute is an $ATTRIBUTE_LIST holding the
/// given entry bytes.
fn base_record_with_list(entries: &[u8], number: u64) -> NtfsFile {
    let mut b = vec![0u8; 1024];
    let value_len = entries.len() as u32;
    put_resident_attr(&mut b, 0x38, 0x20, 0x18 + value_len, 1, value_len, 0x18);
    for (i, v) in entries.iter().enumerate() {
        b[0x38 + 0x18 + i] = *v;
    }
    let end = 0x38 + 0x18 + entries.len();
    put_u32(&mut b, end, 0xFFFF_FFFF);
    record(b, 0, (end + 8) as u32, 0x38, number)
}

/// A record holding one non-resident $DATA attribute with the given
/// instance and data size.
fn data_record(number: u64, position: u64, instance: u16, data_size: u64) -> NtfsFile {
    let mut b = vec![0u8; 1024];
    put_nonres_attr(&mut b, 0x38, 0x80, 0x48, instance, 0x40, data_size);
    put_u32(&mut b, 0x80, 0xFFFF_FFFF);
    record(b, position, 0x90, 0x38, number)
}

#[test]
fn connected_data_attribute_is_yielded_once_with_total_size() {
    // Two list entries describe one $DATA value split over records #42
    // and #43; the first fragment carries the total data size.
    let mut entries = vec![0u8; 64];
    put_list_entry(&mut entries, 0, 0x80, 0, (1u64 << 48) | 42, 3);
    put_list_entry(&mut entries, 32, 0x80, 0x100, (1u64 << 48) | 43, 3);
    let base = base_record_with_list(&entries, 5);

    let mut ntfs = Ntfs::new();
    ntfs.add_file(data_record(42, 1024, 3, 0x20000));
    ntfs.add_file(data_record(43, 2048, 3, 0));

    let mut it = NtfsAttributes::new(&base);
    let item = it.next(&ntfs).unwrap().unwrap();
    let a = item.to_attribute();
    assert_eq!(a.ty().unwrap(), NtfsAttributeType::Data);
    assert!(!a.is_resident());
    assert_eq!(a.instance(), 3);
    assert_eq!(a.position(), 1024 + 0x38);
    assert_eq!(a.value_length(), 0x20000);

    // The value carries the saved entry-iterator state: advancing it
    // visits both fragments, in order.
    match a.value().unwrap() {
        NtfsValue::AttributeListNonResidentAttribute(v) => {
            assert_eq!(v.len(), 0x20000);
            assert_eq!(v.instance(), 3);
            assert_eq!(v.ty(), NtfsAttributeType::Data);
            let mut stitching = v.list_entries().clone();
            let first = stitching.next().unwrap().unwrap();
            assert_eq!(first.base_file_reference().file_record_number(), 42);
            assert_eq!(first.lowest_vcn(), 0);
            let second = stitching.next().unwrap().unwrap();
            assert_eq!(second.base_file_reference().file_record_number(), 43);
            assert_eq!(second.lowest_vcn(), 0x100);
            assert!(stitching.next().is_none());
        }
        _ => panic!("expected a list-backed non-resident value"),
    }

    // The second fragment is suppressed: exactly one logical $DATA item.
    assert!(it.next(&ntfs).is_none());
}

#[test]
fn redundant_list_entry_for_base_record_is_suppressed() {
    // The base record holds $STANDARD_INFORMATION and an $ATTRIBUTE_LIST
    // whose only entry references the base record itself.
    let mut b = vec![0u8; 1024];
    put_resident_attr(&mut b, 0x38, 0x10, 0x48, 1, 0x10, 0x18);
    let mut entries = vec![0u8; 32];
    put_list_entry(&mut entries, 0, 0x10, 0, 7, 1);
    put_resident_attr(&mut b, 0x80, 0x20, 0x18 + 32, 2, 32, 0x18);
    for (i, v) in entries.iter().enumerate() {
        b[0x80 + 0x18 + i] = *v;
    }
    put_u32(&mut b, 0x80 + 0x18 + 32, 0xFFFF_FFFF);
    let base = record(b, 0, 0xD8, 0x38, 7);
    let ntfs = Ntfs::new();

    let mut it = NtfsAttributes::new(&base);
    let item = it.next(&ntfs).unwrap().unwrap();
    assert_eq!(item.to_attribute().ty().unwrap(), NtfsAttributeType::StandardInformation);
    assert!(it.next(&ntfs).is_none());
}

#[test]
fn list_referencing_only_base_record_matches_raw_iteration() {
    // Two resident attributes plus an $ATTRIBUTE_LIST that repeats both:
    // the logical iteration equals the raw one minus the list itself.
    let mut b = vec![0u8; 1024];
    put_resident_attr(&mut b, 0x38, 0x10, 0x48, 1, 0x10, 0x18);
    put_resident_attr(&mut b, 0x80, 0x30, 0x48, 2, 0x10, 0x18);
    let mut entries = vec![0u8; 64];
    put_list_entry(&mut entries, 0, 0x10, 0, 9, 1);
    put_list_entry(&mut entries, 32, 0x30, 0, 9, 2);
    put_resident_attr(&mut b, 0xC8, 0x20, 0x18 + 64, 3, 64, 0x18);
    for (i, v) in entries.iter().enumerate() {
        b[0xC8 + 0x18 + i] = *v;
    }
    put_u32(&mut b, 0xC8 + 0x18 + 64, 0xFFFF_FFFF);
    let base = record(b, 0, 0x148, 0x38, 9);
    let ntfs = Ntfs::new();

    let mut it = NtfsAttributes::new(&base);
    let mut seen = Vec::new();
    while let Some(r) = it.next(&ntfs) {
        seen.push(r.unwrap().to_attribute().ty().unwrap());
    }
    assert_eq!(
        seen,
        vec![NtfsAttributeType::StandardInformation, NtfsAttributeType::FileName]
    );
}

#[test]
fn resident_list_entry_is_resolved_through_the_loader() {
    // A list entry referencing another record that holds a resident
    // attribute: the item is yielded without stitching state.
    let mut entries = vec![0u8; 32];
    put_list_entry(&mut entries, 0, 0x30, 0, 21, 4);
    let base = base_record_with_list(&entries, 5);

    let mut other = vec![0u8; 1024];
    put_resident_attr(&mut other, 0x38, 0x30, 0x48, 4, 0x10, 0x18);
    put_u32(&mut other, 0x80, 0xFFFF_FFFF);
    let mut ntfs = Ntfs::new();
    ntfs.add_file(record(other, 4096, 0x90, 0x38, 21));

    let mut it = NtfsAttributes::new(&base);
    let item = it.next(&ntfs).unwrap().unwrap();
    let a = item.to_attribute();
    assert_eq!(a.ty().unwrap(), NtfsAttributeType::FileName);
    assert!(a.is_resident());
    assert_eq!(a.instance(), 4);
    assert_eq!(a.position(), 4096 + 0x38);
    match a.value().unwrap() {
        NtfsValue::Slice(_) => {}
        _ => panic!("expected a resident value"),
    }
    assert!(it.next(&ntfs).is_none());
}

#[test]
fn missing_referenced_record_is_reported() {
    let mut entries = vec![0u8; 32];
    put_list_entry(&mut entries, 0, 0x80, 0, 99, 3);
    let base = base_record_with_list(&entries, 5);
    let ntfs = Ntfs::new();

    let mut it = NtfsAttributes::new(&base);
    match it.next(&ntfs) {
        Some(Err(NtfsError::FileRecordNotFound { file_record_number })) => {
            assert_eq!(file_record_number, 99);
        }
        _ => panic!("expected FileRecordNotFound"),
    }
    assert!(it.next(&ntfs).is_none());
}

#[test]
fn missing_instance_in_referenced_record_is_reported() {
    let mut entries = vec![0u8; 32];
    put_list_entry(&mut entries, 0, 0x80, 0, 42, 9);
    let base = base_record_with_list(&entries, 5);
    let mut ntfs = Ntfs::new();
    ntfs.add_file(data_record(42, 1024, 3, 0x1000));

    let mut it = NtfsAttributes::new(&base);
    match it.next(&ntfs) {
        Some(Err(NtfsError::AttributeNotFound { position, instance, ty })) => {
            // The list value's position is the $ATTRIBUTE_LIST attribute's
            // position, and this entry is its first one.
            assert_eq!(position, 0x38);
            assert_eq!(instance, 9);
            assert_eq!(ty, 0x80);
        }
        _ => panic!("expected AttributeNotFound"),
    }
    assert!(it.next(&ntfs).is_none());
}

#[test]
fn malformed_list_entry_is_reported_once() {
    // An entry whose declared length is below the fixed header size.
    let mut entries = vec![0u8; 32];
    put_list_entry(&mut entries, 0, 0x80, 0, 42, 3);
    put_u16(&mut entries, 4, 10);
    let list = NtfsAttributeList::new(entries, 2000).unwrap();
    let mut it = list.iter();
    match it.next() {
        Some(Err(NtfsError::InvalidAttributeListEntryLength { position, expected, actual })) => {
            assert_eq!(position, 2000);
            assert_eq!(expected, 26);
            assert_eq!(actual, 10);
        }
        _ => panic!("expected InvalidAttributeListEntryLength"),
    }
    assert!(it.next().is_none());
}

#[test]
fn list_entries_decode_their_fields() {
    let mut entries = vec![0u8; 40];
    put_list_entry(&mut entries, 0, 0x80, 0x55, (3u64 << 48) | 1234, 7);
    put_u16(&mut entries, 4, 40);
    entries[6] = 2; // name length in code units
    entries[7] = 26; // name offset
    entries[26] = 0x58;
    entries[27] = 0x00;
    entries[28] = 0x59;
    entries[29] = 0x00;
    let list = NtfsAttributeList::new(entries, 3000).unwrap();
    assert_eq!(list.position(), 3000);
    let mut it = list.iter();
    let entry = it.next().unwrap().unwrap();
    assert_eq!(entry.ty().unwrap(), NtfsAttributeType::Data);
    assert_eq!(entry.ty_code(), 0x80);
    assert_eq!(entry.list_entry_length(), 40);
    assert_eq!(entry.lowest_vcn(), 0x55);
    assert_eq!(entry.base_file_reference().file_record_number(), 1234);
    assert_eq!(entry.base_file_reference().sequence_number(), 3);
    assert_eq!(entry.instance(), 7);
    assert_eq!(entry.position(), 3000);
    assert_eq!(entry.name().as_bytes().as_slice(), &[0x58, 0x00, 0x59, 0x00]);
    assert!(it.next().is_none());
}

#[test]
fn nonresident_attribute_list_without_preread_data_is_reported() {
    // An $ATTRIBUTE_LIST whose own value is non-resident is read through
    // the loader's pre-read streams; with none stored, a typed error
    // names the attribute's position.
    let mut b = vec![0u8; 1024];
    put_nonres_attr(&mut b, 0x38, 0x20, 0x48, 1, 0x40, 0x100);
    put_u32(&mut b, 0x80, 0xFFFF_FFFF);
    let base = record(b, 0, 0x90, 0x38, 5);
    let ntfs = Ntfs::new();
    let mut it = NtfsAttributes::new(&base);
    match it.next(&ntfs) {
        Some(Err(NtfsError::AttributeListDataNotFound { position })) => {
            assert_eq!(position, 0x38);
        }
        _ => panic!("expected AttributeListDataNotFound"),
    }
    assert!(it.next(&ntfs).is_none());
}

#[test]
fn nonresident_attribute_list_is_read_through_the_loader() {
    // The same record iterates fully once the value reader's bytes for
    // the non-resident $ATTRIBUTE_LIST are available.
    let mut b = vec![0u8; 1024];
    put_nonres_attr(&mut b, 0x38, 0x20, 0x48, 1, 0x40, 32);
    put_u32(&mut b, 0x80, 0xFFFF_FFFF);
    let base = record(b, 0, 0x90, 0x38, 5);

    let mut entries = vec![0u8; 32];
    put_list_entry(&mut entries, 0, 0x30, 0, 21, 4);
    let mut other = vec![0u8; 1024];
    put_resident_attr(&mut other, 0x38, 0x30, 0x48, 4, 0x10, 0x18);
    put_u32(&mut other, 0x80, 0xFFFF_FFFF);

    let mut ntfs = Ntfs::new();
    ntfs.add_file(record(other, 4096, 0x90, 0x38, 21));
    assert!(ntfs.add_attribute_list_data(0x38, entries));

    let mut it = NtfsAttributes::new(&base);
    let item = it.next(&ntfs).unwrap().unwrap();
    let a = item.to_attribute();
    assert_eq!(a.ty().unwrap(), NtfsAttributeType::FileName);
    assert_eq!(a.instance(), 4);
    assert_eq!(a.position(), 4096 + 0x38);
    assert!(it.next(&ntfs).is_none());
}

#[test]
fn nonresident_list_value_is_rejected_by_the_structured_decoder() {
    // The structured-value fast path cannot decode a non-resident list
    // value itself.
    let mut b = vec![0u8; 1024];
    put_nonres_attr(&mut b, 0x38, 0x20, 0x48, 1, 0x40, 0x100);
    put_u32(&mut b, 0x80, 0xFFFF_FFFF);
    let base = record(b, 0, 0x90, 0x38, 5);
    let mut raw = ntfs::attribute::NtfsAttributesRaw::new(&base);
    let a = raw.next().unwrap().unwrap();
    match a.structured_value::<NtfsAttributeList>() {
        Err(NtfsError::UnexpectedNonResidentAttribute { .. }) => {}
        _ => panic!("expected UnexpectedNonResidentAttribute"),
    }
}

#[test]
fn resident_attribute_list_decodes_through_the_fast_path() {
    let mut entries = vec![0u8; 32];
    put_list_entry(&mut entries, 0, 0x30, 0, 21, 4);
    let base = base_record_with_list(&entries, 5);
    let mut raw = ntfs::attribute::NtfsAttributesRaw::new(&base);
    let a = raw.next().unwrap().unwrap();
    let list: NtfsAttributeList = a.resident_structured_value().unwrap();
    assert_eq!(list.position(), 0x38);
    assert_eq!(list.data().as_slice(), entries.as_slice());
    let mut it = list.iter();
    let entry = it.next().unwrap().unwrap();
    assert_eq!(entry.instance(), 4);
    assert!(it.next().is_none());
}
