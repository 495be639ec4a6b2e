//! Read-only parsing of the attribute layer of the NTFS on-disk format.
//!
//! A loaded file record is an opaque byte buffer plus metadata. This crate
//! decodes the typed attributes packed inside such a record: a bounds-checked
//! cursor over one attribute header, a raw iterator over one record's
//! attribute area, an iterator over the entries of an `$ATTRIBUTE_LIST`
//! value, and the logical iterator that flattens the two levels into a
//! single sequence of attribute items.

pub mod attribute;
pub mod attribute_list;
pub mod bytes;
pub mod endian;
pub mod error;
pub mod file;
pub mod string;
pub mod structured_values;
pub mod value;
