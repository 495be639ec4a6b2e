use ntfs::attribute::{
    NtfsAttribute, NtfsAttributeFlags, NtfsAttributeType, NtfsAttributes, NtfsAttributesRaw,
    NTFS_ATTRIBUTE_FLAG_COMPRESSED, NTFS_ATTRIBUTE_FLAG_SPARSE,
};
use ntfs::attribute_list::NtfsAttributeList;
use ntfs::error::NtfsError;
use ntfs::file::{Ntfs, NtfsFile, NtfsFileReference};
use ntfs::value::NtfsValue;

fn put_u16(b: &mut Vec<u8>, off: usize, v: u16) {
    b[off] = (v & 0xFF) as u8;
    b[off + 1] = (v >> 8) as u8;
}

fn put_u32(b: &mut Vec<u8>, off: usize, v: u32) {
    for i in 0..4 {
        b[off + i] = ((v >> (8 * i)) & 0xFF) as u8;
    }
}

fn put_u64(b: &mut Vec<u8>, off: usize, v: u64) {
    for i in 0..8 {
        b[off + i] = ((v >> (8 * i)) & 0xFF) as u8;
    }
}

/// Writes the fixed prefix of an attribute header at `off`.
fn put_attr_prefix(
    b: &mut Vec<u8>,
    off: usize,
    ty: u32,
    length: u32,
    non_resident: u8,
    name_length: u8,
    name_offset: u16,
    flags: u16,
    instance: u16,
) {
    put_u32(b, off, ty);
    put_u32(b, off + 4, length);
    b[off + 8] = non_resident;
    b[off + 9] = name_length;
    put_u16(b, off + 10, name_offset);
    put_u16(b, off + 12, flags);
    put_u16(b, off + 14, instance);
}

/// Writes a resident attribute header at `off`.
fn put_resident_attr(
    b: &mut Vec<u8>,
    off: usize,
    ty: u32,
    length: u32,
    instance: u16,
    value_length: u32,
    value_offset: u16,
) {
    put_attr_prefix(b, off, ty, length, 0, 0, 0, 0, instance);
    put_u32(b, off + 16, value_length);
    put_u16(b, off + 20, value_offset);
}

/// Writes a non-resident attribute header at `off`.
fn put_nonres_attr(
    b: &mut Vec<u8>,
    off: usize,
    ty: u32,
    length: u32,
    instance: u16,
    lowest_vcn: i64,
    highest_vcn: i64,
    data_runs_offset: u16,
    data_size: u64,
) {
    put_attr_prefix(b, off, ty, length, 1, 0, 0, 0, instance);
    put_u64(b, off + 16, lowest_vcn as u64);
    put_u64(b, off + 24, highest_vcn as u64);
    put_u16(b, off + 32, data_runs_offset);
    put_u64(b, off + 40, 0); // allocated size
    put_u64(b, off + 48, data_size);
    put_u64(b, off + 56, data_size); // initialized size
}

fn record(data: Vec<u8>, position: u64, used: u32, fao: u16, number: u64) -> NtfsFile {
    NtfsFile::new(data, position, used, fao, number).unwrap()
}

fn collect_logical(file: &NtfsFile, ntfs: &Ntfs) -> Vec<Result<NtfsAttributeType, NtfsError>> {
    let mut out = Vec::new();
    let mut it = NtfsAttributes::new(file);
    while let Some(r) = it.next(ntfs) {
        match r {
            Ok(item) => {
                let a = item.to_attribute();
                out.push(a.ty());
            }
            Err(e) => {
                out.push(Err(e));
                break;
            }
        }
    }
    out
}

#[test]
fn single_resident_attribute() {
    // One $FILE_NAME attribute at 0x38, then the end marker.
    let mut b = vec![0u8; 1024];
    put_resident_attr(&mut b, 0x38, 0x30, 0x48, 1, 0x20, 0x18);
    let payload: Vec<u8> = (1..=0x20u8).collect();
    for (i, v) in payload.iter().enumerate() {
        b[0x50 + i] = *v;
    }
    put_u32(&mut b, 0x80, 0xFFFF_FFFF);
    let file = record(b, 4096, 0x90, 0x38, 1);
    let ntfs = Ntfs::new();

    let mut it = NtfsAttributes::new(&file);
    let item = it.next(&ntfs).unwrap().unwrap();
    let a = item.to_attribute();
    assert_eq!(a.ty().unwrap(), NtfsAttributeType::FileName);
    assert!(a.is_resident());
    assert_eq!(a.attribute_length(), 0x48);
    assert_eq!(a.instance(), 1);
    assert_eq!(a.position(), 4096 + 0x38);
    assert_eq!(a.value_length(), 0x20);
    match a.value().unwrap() {
        NtfsValue::Slice(s) => {
            assert_eq!(s.data().as_slice(), payload.as_slice());
            assert_eq!(s.len(), 0x20);
            assert_eq!(s.position(), 4096 + 0x38);
        }
        _ => panic!("expected a resident slice value"),
    }
    assert!(it.next(&ntfs).is_none());
    assert!(it.next(&ntfs).is_none());
}

#[test]
fn two_resident_attributes_then_end_marker() {
    let mut b = vec![0u8; 1024];
    put_resident_attr(&mut b, 0x38, 0x10, 0x48, 1, 0x10, 0x18);
    put_resident_attr(&mut b, 0x80, 0x30, 0x48, 2, 0x10, 0x18);
    put_u32(&mut b, 0xC8, 0xFFFF_FFFF);
    let file = record(b, 0, 0xD0, 0x38, 1);
    let ntfs = Ntfs::new();

    let tys = collect_logical(&file, &ntfs);
    assert_eq!(
        tys,
        vec![
            Ok(NtfsAttributeType::StandardInformation),
            Ok(NtfsAttributeType::FileName),
        ]
    );
    // A raw iterator sees the same two attributes at increasing offsets.
    let mut raw = NtfsAttributesRaw::new(&file);
    let first = raw.next().unwrap().unwrap();
    let second = raw.next().unwrap().unwrap();
    assert_eq!(first.position(), 0x38);
    assert_eq!(second.position(), 0x80);
    assert!(raw.next().is_none());
    assert!(raw.next().is_none());
}

#[test]
fn truncated_record_reports_invalid_attribute_length() {
    // The attribute at 0x38 declares more bytes than the used region has.
    let mut b = vec![0u8; 1024];
    put_resident_attr(&mut b, 0x38, 0x10, 0x80, 1, 0, 0x18);
    let file = record(b, 2048, 0x40, 0x38, 1);

    let mut raw = NtfsAttributesRaw::new(&file);
    match raw.next() {
        Some(Err(NtfsError::InvalidAttributeLength { position, expected, actual })) => {
            assert_eq!(position, 2048 + 0x38);
            assert_eq!(expected, 8);
            assert_eq!(actual, 0x80);
        }
        other => panic!("expected InvalidAttributeLength, got {:?}", other.is_some()),
    }
    // The iterator is fused after the error.
    assert!(raw.next().is_none());
}

#[test]
fn attribute_length_below_header_size_is_an_error() {
    let mut b = vec![0u8; 1024];
    put_resident_attr(&mut b, 0x38, 0x10, 0x10, 1, 0, 0x18);
    let file = record(b, 0, 0x80, 0x38, 1);
    let mut raw = NtfsAttributesRaw::new(&file);
    match raw.next() {
        Some(Err(NtfsError::InvalidAttributeLength { expected, actual, .. })) => {
            assert_eq!(expected, 24);
            assert_eq!(actual, 0x10);
        }
        _ => panic!("expected InvalidAttributeLength"),
    }
}

#[test]
fn nonresident_attribute_length_below_extension_is_an_error() {
    let mut b = vec![0u8; 1024];
    put_attr_prefix(&mut b, 0x38, 0x80, 0x30, 1, 0, 0, 0, 1);
    let file = record(b, 0, 0x80, 0x38, 1);
    let mut raw = NtfsAttributesRaw::new(&file);
    match raw.next() {
        Some(Err(NtfsError::InvalidAttributeLength { expected, actual, .. })) => {
            assert_eq!(expected, 64);
            assert_eq!(actual, 0x30);
        }
        _ => panic!("expected InvalidAttributeLength"),
    }
}

#[test]
fn end_marker_at_first_attribute_offset_yields_empty_iteration() {
    let mut b = vec![0u8; 1024];
    put_u32(&mut b, 0x38, 0xFFFF_FFFF);
    let file = record(b, 0, 0x80, 0x38, 1);
    let ntfs = Ntfs::new();

    let mut raw = NtfsAttributesRaw::new(&file);
    assert!(raw.next().is_none());
    let mut it = NtfsAttributes::new(&file);
    assert!(it.next(&ntfs).is_none());
}

fn single_attr_cursor(b: Vec<u8>, position: u64, used: u32) -> NtfsAttribute {
    let file = record(b, position, used, 0x38, 1);
    let mut raw = NtfsAttributesRaw::new(&file);
    raw.next().unwrap().unwrap()
}

#[test]
fn unnamed_attribute_has_empty_name_without_validation() {
    let mut b = vec![0u8; 1024];
    // name_offset points far out of bounds, but name_length is zero, so
    // no validation happens and the name is empty.
    put_resident_attr(&mut b, 0x38, 0x30, 0x48, 1, 0x10, 0x18);
    put_u16(&mut b, 0x38 + 10, 0xFFFF);
    let a = single_attr_cursor(b, 0, 0x90);
    assert_eq!(a.name_length(), 0);
    let name = a.name().unwrap();
    assert!(name.is_empty());
    assert_eq!(name.len(), 0);
}

#[test]
fn name_round_trips_exactly() {
    let mut b = vec![0u8; 1024];
    put_resident_attr(&mut b, 0x38, 0x30, 0x48, 1, 0x10, 0x20);
    b[0x38 + 9] = 2; // two UTF-16 code units
    put_u16(&mut b, 0x38 + 10, 0x18);
    // "AB" in UTF-16LE at offset 0x38 + 0x18 = 0x50
    b[0x50] = 0x41;
    b[0x51] = 0x00;
    b[0x52] = 0x42;
    b[0x53] = 0x00;
    let a = single_attr_cursor(b, 0, 0x90);
    assert_eq!(a.name_length(), 4);
    let name = a.name().unwrap();
    assert_eq!(name.as_bytes().as_slice(), &[0x41, 0x00, 0x42, 0x00]);
}

#[test]
fn invalid_name_offset_reports_attribute_position() {
    let mut b = vec![0u8; 1024];
    put_resident_attr(&mut b, 0x38, 0x30, 0x48, 1, 0x10, 0x18);
    b[0x38 + 9] = 1;
    put_u16(&mut b, 0x38 + 10, 0x48); // name offset == attribute length
    let a = single_attr_cursor(b, 512, 0x90);
    assert_eq!(
        a.name(),
        Err(NtfsError::InvalidAttributeNameOffset {
            position: 512 + 0x38,
            expected: 0x48,
            actual: 0x48,
        })
    );
}

#[test]
fn invalid_name_length_reports_attribute_position() {
    let mut b = vec![0u8; 1024];
    put_resident_attr(&mut b, 0x38, 0x30, 0x48, 1, 0x10, 0x18);
    b[0x38 + 9] = 5; // name would end at 0x40 + 10 > 0x48
    put_u16(&mut b, 0x38 + 10, 0x40);
    let a = single_attr_cursor(b, 512, 0x90);
    assert_eq!(
        a.name(),
        Err(NtfsError::InvalidAttributeNameLength {
            position: 512 + 0x38,
            expected: 0x40 + 10,
            actual: 0x48,
        })
    );
}

#[test]
fn invalid_resident_value_offset_and_length() {
    let mut b = vec![0u8; 1024];
    put_resident_attr(&mut b, 0x38, 0x30, 0x48, 1, 0x10, 0x48);
    let a = single_attr_cursor(b, 256, 0x90);
    assert_eq!(
        a.value().unwrap_err(),
        NtfsError::InvalidResidentAttributeValueOffset {
            position: 256 + 0x38,
            expected: 0x48,
            actual: 0x48,
        }
    );

    let mut b2 = vec![0u8; 1024];
    put_resident_attr(&mut b2, 0x38, 0x30, 0x48, 1, 0x40, 0x18);
    let a2 = single_attr_cursor(b2, 256, 0x90);
    assert_eq!(
        a2.value().unwrap_err(),
        NtfsError::InvalidResidentAttributeValueLength {
            position: 256 + 0x38,
            expected: 0x18 + 0x40,
            actual: 0x48,
        }
    );
}

#[test]
fn nonresident_data_attribute_value() {
    let mut b = vec![0u8; 1024];
    put_nonres_attr(&mut b, 0x38, 0x80, 0x50, 1, 0, 0x0F, 0x40, 0x10000);
    // A run list: header byte 0x31, then 1 length byte and 3 offset bytes.
    b[0x38 + 0x40] = 0x31;
    b[0x38 + 0x41] = 0x10;
    b[0x38 + 0x42] = 0x34;
    b[0x38 + 0x43] = 0x12;
    b[0x38 + 0x44] = 0x00;
    put_u32(&mut b, 0x88, 0xFFFF_FFFF);
    let file = record(b.clone(), 8192, 0x90, 0x38, 1);
    let mut raw = NtfsAttributesRaw::new(&file);
    let a = raw.next().unwrap().unwrap();
    assert!(!a.is_resident());
    assert_eq!(a.value_length(), 0x10000);
    match a.value().unwrap() {
        NtfsValue::NonResidentAttribute(v) => {
            assert_eq!(v.len(), 0x10000);
            assert_eq!(v.position(), 8192 + 0x38 + 0x40);
            assert_eq!(v.data().as_slice(), &b[0x38 + 0x40..0x38 + 0x50]);
        }
        _ => panic!("expected a non-resident value"),
    }
}

#[test]
fn zero_length_nonresident_value_is_valid() {
    // highest_vcn == -1, lowest_vcn == 0, data_size == 0.
    let mut b = vec![0u8; 1024];
    put_nonres_attr(&mut b, 0x38, 0x80, 0x41, 1, 0, -1, 0x40, 0);
    let a = single_attr_cursor(b, 0, 0x90);
    assert_eq!(a.value_length(), 0);
    match a.value().unwrap() {
        NtfsValue::NonResidentAttribute(v) => {
            assert_eq!(v.len(), 0);
            assert_eq!(v.data().len(), 1);
        }
        _ => panic!("expected a non-resident value"),
    }
}

#[test]
fn data_runs_offset_past_attribute_end_is_an_error() {
    let mut b = vec![0u8; 1024];
    put_nonres_attr(&mut b, 0x38, 0x80, 0x50, 1, 0, 0, 0x60, 0);
    let a = single_attr_cursor(b, 128, 0x90);
    assert_eq!(
        a.value().unwrap_err(),
        NtfsError::InvalidNonResidentValueDataRunsOffset {
            position: 128 + 0x38,
            expected: 0x60,
            actual: 0x50,
        }
    );
}

#[test]
fn unknown_type_code_is_a_typed_error() {
    let mut b = vec![0u8; 1024];
    put_resident_attr(&mut b, 0x38, 0x25, 0x48, 1, 0, 0x18);
    let a = single_attr_cursor(b, 64, 0x90);
    assert_eq!(
        a.ty(),
        Err(NtfsError::UnsupportedAttributeType { position: 64 + 0x38, actual: 0x25 })
    );
}

#[test]
fn structured_value_of_different_type_is_rejected() {
    let mut b = vec![0u8; 1024];
    put_resident_attr(&mut b, 0x38, 0x80, 0x48, 1, 0x10, 0x18);
    let a = single_attr_cursor(b, 0, 0x90);
    match a.structured_value::<NtfsAttributeList>() {
        Err(NtfsError::AttributeOfDifferentType { position, expected, actual }) => {
            assert_eq!(position, 0x38);
            assert_eq!(expected, NtfsAttributeType::AttributeList);
            assert_eq!(actual, NtfsAttributeType::Data);
        }
        _ => panic!("expected AttributeOfDifferentType"),
    }
}

#[test]
fn resident_structured_value_rejects_nonresident_attribute() {
    let mut b = vec![0u8; 1024];
    put_nonres_attr(&mut b, 0x38, 0x20, 0x48, 1, 0, 0, 0x40, 0x40);
    let a = single_attr_cursor(b, 32, 0x90);
    match a.resident_structured_value::<NtfsAttributeList>() {
        Err(NtfsError::UnexpectedNonResidentAttribute { position }) => {
            assert_eq!(position, 32 + 0x38);
        }
        _ => panic!("expected UnexpectedNonResidentAttribute"),
    }
}

#[test]
fn attribute_flags_truncate_to_known_bits() {
    let mut b = vec![0u8; 1024];
    put_resident_attr(&mut b, 0x38, 0x30, 0x48, 1, 0, 0x18);
    put_u16(&mut b, 0x38 + 12, 0xC003);
    let a = single_attr_cursor(b, 0, 0x90);
    let flags = a.flags();
    assert_eq!(flags.bits(), 0xC001);
    assert!(flags.contains(NtfsAttributeFlags::from_bits_truncate(
        NTFS_ATTRIBUTE_FLAG_COMPRESSED
    )));
    assert!(flags.contains(NtfsAttributeFlags::from_bits_truncate(
        NTFS_ATTRIBUTE_FLAG_SPARSE
    )));
    assert_eq!(NtfsAttributeFlags::empty().bits(), 0);
}

#[test]
fn file_reference_splits_record_number_and_sequence() {
    let r = NtfsFileReference::new((1u64 << 48) | 42);
    assert_eq!(r.file_record_number(), 42);
    assert_eq!(r.sequence_number(), 1);
    assert_eq!(r.value(), (1u64 << 48) | 42);
}

#[test]
fn attribute_type_codes_round_trip() {
    assert_eq!(NtfsAttributeType::n(0x80), Some(NtfsAttributeType::Data));
    assert_eq!(NtfsAttributeType::n(0x100), Some(NtfsAttributeType::LoggedUtilityStream));
    assert_eq!(NtfsAttributeType::n(0xFFFF_FFFF), Some(NtfsAttributeType::End));
    assert_eq!(NtfsAttributeType::n(0x11), None);
    assert_eq!(NtfsAttributeType::Data.to_u32(), 0x80);
    assert_eq!(NtfsAttributeType::AttributeList.to_u32(), 0x20);
}

#[test]
fn file_record_metadata_is_validated() {
    assert!(NtfsFile::new(vec![0u8; 16], 0, 17, 0, 1).is_none());
    assert!(NtfsFile::new(vec![0u8; 16], u64::MAX - 8, 16, 0, 1).is_none());
    let f = NtfsFile::new(vec![0u8; 16], 100, 16, 8, 7).unwrap();
    assert_eq!(f.position(), 100);
    assert_eq!(f.used_size(), 16);
    assert_eq!(f.first_attribute_offset(), 8);
    assert_eq!(f.file_record_number(), 7);
    assert_eq!(f.record_data().len(), 16);
}

#[test]
fn record_loader_finds_records_by_number() {
    let mut ntfs = Ntfs::new();
    ntfs.add_file(record(vec![0u8; 64], 0, 64, 0x38, 5));
    ntfs.add_file(record(vec![0u8; 64], 1024, 64, 0x38, 9));
    assert_eq!(ntfs.file(9).unwrap().position(), 1024);
    assert_eq!(ntfs.file(5).unwrap().position(), 0);
    assert_eq!(
        ntfs.file(11).unwrap_err(),
        NtfsError::FileRecordNotFound { file_record_number: 11 }
    );
}
