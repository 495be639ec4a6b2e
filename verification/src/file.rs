//! Loaded file records and the in-memory record loader.
//!
//! The file-record layer proper (reading a record from disk and applying
//! its multi-sector fixups) is a collaborator of the attribute layer, not
//! part of it. The attribute layer consumes a loaded record as an opaque
//! byte buffer plus metadata, and resolves attribute-list references
//! through a loader that maps file-record numbers to loaded records.

use vstd::prelude::*;
use crate::bytes::copy_bytes;
use crate::error::NtfsError;

verus! {

/// The mathematical content of a loaded file record.
pub struct FileRecordView {
    pub data: Seq<u8>,
    pub position: u64,
    pub used_size: u32,
    pub first_attribute_offset: u16,
    pub file_record_number: u64,
}

impl FileRecordView {
    /// The metadata is consistent with the buffer: the used region lies
    /// within the buffer, and every byte of the buffer has an absolute
    /// volume position that fits in 64 bits.
    pub open spec fn wf(self) -> bool {
        &&& self.used_size as int <= self.data.len()
        &&& self.position as int + self.data.len() <= u64::MAX as int
    }
}

/// A file record loaded into memory: a fixed-size buffer holding a header
/// and a region of packed attributes, plus the metadata the attribute
/// layer observes.
#[derive(Debug)]
pub struct NtfsFile {
    data: Vec<u8>,
    position: u64,
    used_size: u32,
    first_attribute_offset: u16,
    file_record_number: u64,
}

impl View for NtfsFile {
    type V = FileRecordView;

    closed spec fn view(&self) -> FileRecordView {
        FileRecordView {
            data: self.data@,
            position: self.position,
            used_size: self.used_size,
            first_attribute_offset: self.first_attribute_offset,
            file_record_number: self.file_record_number,
        }
    }
}

impl Clone for NtfsFile {
    fn clone(&self) -> (r: Self)
        ensures
            r@ == self@,
    {
        NtfsFile {
            data: copy_bytes(&self.data),
            position: self.position,
            used_size: self.used_size,
            first_attribute_offset: self.first_attribute_offset,
            file_record_number: self.file_record_number,
        }
    }
}

impl NtfsFile {
    pub open spec fn wf(self) -> bool {
        self@.wf()
    }

    /// Wraps a loaded record buffer. Returns `None` when the metadata is
    /// inconsistent with the buffer: when the used region overruns the
    /// buffer, or when the buffer would extend past the last addressable
    /// volume position.
    pub fn new(
        data: Vec<u8>,
        position: u64,
        used_size: u32,
        first_attribute_offset: u16,
        file_record_number: u64,
    ) -> (r: Option<NtfsFile>)
        ensures
            r is Some <==> (used_size as int <= data@.len()
                && position as int + data@.len() <= u64::MAX as int),
            r matches Some(f) ==> f@ == (FileRecordView {
                data: data@,
                position,
                used_size,
                first_attribute_offset,
                file_record_number,
            }) && f.wf(),
    {
        if used_size as usize <= data.len() && data.len() as u64 <= u64::MAX - position {
            Some(NtfsFile { data, position, used_size, first_attribute_offset, file_record_number })
        } else {
            None
        }
    }

    /// The record's byte buffer.
    pub fn record_data(&self) -> (r: &Vec<u8>)
        ensures
            r@ == self@.data,
    {
        &self.data
    }

    /// The absolute byte position of this record within the volume.
    pub fn position(&self) -> (r: u64)
        ensures
            r == self@.position,
    {
        self.position
    }

    /// The number of meaningful bytes at the start of the buffer.
    pub fn used_size(&self) -> (r: u32)
        ensures
            r == self@.used_size,
    {
        self.used_size
    }

    /// The byte offset of the first attribute within the record.
    pub fn first_attribute_offset(&self) -> (r: u16)
        ensures
            r == self@.first_attribute_offset,
    {
        self.first_attribute_offset
    }

    /// The 48-bit number identifying this record in the Master File Table.
    pub fn file_record_number(&self) -> (r: u64)
        ensures
            r == self@.file_record_number,
    {
        self.file_record_number
    }
}

/// The file-record number held in the low 48 bits of a file reference.
pub open spec fn spec_reference_record_number(reference: u64) -> int {
    reference as int % 0x1_0000_0000_0000
}

/// A 64-bit reference to a file record: the 48-bit record number plus a
/// 16-bit sequence number.
#[derive(Clone, Copy, Debug, PartialEq, Eq, Structural)]
pub struct NtfsFileReference {
    reference: u64,
}

impl NtfsFileReference {
    pub fn new(reference: u64) -> (r: NtfsFileReference)
        ensures
            r.spec_reference() == reference,
    {
        NtfsFileReference { reference }
    }

    pub closed spec fn spec_reference(self) -> u64 {
        self.reference
    }

    pub fn value(&self) -> (r: u64)
        ensures
            r == self.spec_reference(),
    {
        self.reference
    }

    /// The 48-bit file-record number this reference points at.
    pub fn file_record_number(&self) -> (r: u64)
        ensures
            r == spec_reference_record_number(self.spec_reference()),
    {
        self.reference % 0x1_0000_0000_0000
    }

    /// The 16-bit sequence number of the reference.
    pub fn sequence_number(&self) -> (r: u16)
        ensures
            r == self.spec_reference() as int / 0x1_0000_0000_0000,
    {
        (self.reference / 0x1_0000_0000_0000) as u16
    }
}

/// The mathematical content of one pre-read non-resident
/// `$ATTRIBUTE_LIST` value.
pub struct AttributeListDataView {
    pub position: u64,
    pub data: Seq<u8>,
}

/// The bytes that the external value reader produces for the
/// non-resident `$ATTRIBUTE_LIST` attribute at `position`.
pub struct NtfsAttributeListData {
    position: u64,
    data: Vec<u8>,
}

impl View for NtfsAttributeListData {
    type V = AttributeListDataView;

    closed spec fn view(&self) -> AttributeListDataView {
        AttributeListDataView { position: self.position, data: self.data@ }
    }
}

/// The first record of `recs` with the given record number, if any: what
/// a lookup through the loader returns.
pub open spec fn spec_record_lookup(recs: Seq<FileRecordView>, n: int) -> Option<FileRecordView>
    decreases recs.len(),
{
    if recs.len() == 0 {
        None
    } else if recs[0].file_record_number == n {
        Some(recs[0])
    } else {
        spec_record_lookup(recs.skip(1), n)
    }
}

/// A first match at index `i` makes the lookup return that record.
pub proof fn lemma_record_lookup_some(recs: Seq<FileRecordView>, n: int, i: int)
    requires
        0 <= i < recs.len(),
        recs[i].file_record_number == n,
        forall|j: int| 0 <= j < i ==> (#[trigger] recs[j]).file_record_number != n,
    ensures
        spec_record_lookup(recs, n) == Some(recs[i]),
    decreases recs.len(),
{
    if i == 0 {
    } else {
        assert(recs.skip(1)[i - 1] == recs[i]);
        assert(forall|j: int|
            0 <= j < i - 1 ==> (#[trigger] recs.skip(1)[j]).file_record_number != n);
        lemma_record_lookup_some(recs.skip(1), n, i - 1);
    }
}

/// With no match at all, the lookup returns nothing.
pub proof fn lemma_record_lookup_none(recs: Seq<FileRecordView>, n: int)
    requires
        forall|j: int| 0 <= j < recs.len() ==> (#[trigger] recs[j]).file_record_number != n,
    ensures
        spec_record_lookup(recs, n) is None,
    decreases recs.len(),
{
    if recs.len() > 0 {
        assert(forall|j: int|
            0 <= j < recs.skip(1).len() ==> (#[trigger] recs.skip(1)[j]).file_record_number != n);
        lemma_record_lookup_none(recs.skip(1), n);
    }
}

/// The data of the first pre-read stream of `lists` at `position`, if any:
/// what a lookup through the loader returns.
pub open spec fn spec_list_data_lookup(
    lists: Seq<AttributeListDataView>,
    position: int,
) -> Option<Seq<u8>>
    decreases lists.len(),
{
    if lists.len() == 0 {
        None
    } else if lists[0].position == position {
        Some(lists[0].data)
    } else {
        spec_list_data_lookup(lists.skip(1), position)
    }
}

/// A first match at index `i` makes the stream lookup return its data.
pub proof fn lemma_list_data_lookup_some(lists: Seq<AttributeListDataView>, position: int, i: int)
    requires
        0 <= i < lists.len(),
        lists[i].position == position,
        forall|j: int| 0 <= j < i ==> (#[trigger] lists[j]).position != position,
    ensures
        spec_list_data_lookup(lists, position) == Some(lists[i].data),
    decreases lists.len(),
{
    if i == 0 {
    } else {
        assert(lists.skip(1)[i - 1] == lists[i]);
        assert(forall|j: int|
            0 <= j < i - 1 ==> (#[trigger] lists.skip(1)[j]).position != position);
        lemma_list_data_lookup_some(lists.skip(1), position, i - 1);
    }
}

/// With no match at all, the stream lookup returns nothing.
pub proof fn lemma_list_data_lookup_none(lists: Seq<AttributeListDataView>, position: int)
    requires
        forall|j: int| 0 <= j < lists.len() ==> (#[trigger] lists[j]).position != position,
    ensures
        spec_list_data_lookup(lists, position) is None,
    decreases lists.len(),
{
    if lists.len() > 0 {
        assert(forall|j: int|
            0 <= j < lists.skip(1).len() ==> (#[trigger] lists.skip(1)[j]).position != position);
        lemma_list_data_lookup_none(lists.skip(1), position);
    }
}

/// The record loader: an in-memory table of loaded file records, looked up
/// by file-record number, plus the pre-read value streams of non-resident
/// `$ATTRIBUTE_LIST` attributes, looked up by attribute position. It
/// stands for the filesystem handle and the value reader that the
/// attribute layer consults while following an `$ATTRIBUTE_LIST`.
pub struct Ntfs {
    records: Vec<NtfsFile>,
    list_data: Vec<NtfsAttributeListData>,
}

impl View for Ntfs {
    type V = Seq<FileRecordView>;

    closed spec fn view(&self) -> Seq<FileRecordView> {
        self.records@.map_values(|f: NtfsFile| f@)
    }
}

impl Ntfs {
    /// The pre-read non-resident `$ATTRIBUTE_LIST` values this loader
    /// holds.
    pub closed spec fn spec_list_data(self) -> Seq<AttributeListDataView> {
        self.list_data@.map_values(|l: NtfsAttributeListData| l@)
    }

    pub open spec fn wf(self) -> bool {
        &&& forall|i: int| 0 <= i < self@.len() ==> (#[trigger] self@[i]).wf()
        &&& forall|i: int|
            0 <= i < self.spec_list_data().len() ==> (#[trigger] self.spec_list_data()[i]).position
                as int + self.spec_list_data()[i].data.len() <= u64::MAX as int
    }

    pub fn new() -> (r: Ntfs)
        ensures
            r@.len() == 0,
            r.spec_list_data().len() == 0,
            r.wf(),
    {
        Ntfs { records: Vec::new(), list_data: Vec::new() }
    }

    /// Makes `file` available to later lookups.
    pub fn add_file(&mut self, file: NtfsFile)
        requires
            old(self).wf(),
            file.wf(),
        ensures
            final(self)@ == old(self)@.push(file@),
            final(self).spec_list_data() == old(self).spec_list_data(),
            final(self).wf(),
    {
        let ghost pre = self.records@;
        let ghost filev = file@;
        self.records.push(file);
        assert(self@ =~= pre.map_values(|f: NtfsFile| f@).push(filev));
        proof {
            assert forall|i: int| 0 <= i < self@.len() implies (#[trigger] self@[i]).wf() by {
                if i < old(self)@.len() {
                    assert(self@[i] == old(self)@[i]);
                } else {
                    assert(self@[i] == filev);
                }
            }
            assert(self.spec_list_data() =~= old(self).spec_list_data());
        }
    }

    /// Makes the pre-read value of the non-resident `$ATTRIBUTE_LIST`
    /// attribute at `position` available to later lookups. Returns
    /// `false` (adding nothing) when the bytes would extend past the
    /// last addressable volume position.
    pub fn add_attribute_list_data(&mut self, position: u64, data: Vec<u8>) -> (r: bool)
        requires
            old(self).wf(),
        ensures
            r <==> position as int + data@.len() <= u64::MAX as int,
            r ==> final(self).spec_list_data() == old(self).spec_list_data().push(
                (AttributeListDataView { position, data: data@ }),
            ),
            !r ==> final(self).spec_list_data() == old(self).spec_list_data(),
            final(self)@ == old(self)@,
            final(self).wf(),
    {
        if data.len() as u64 <= u64::MAX - position {
            let ghost pre = self.list_data@;
            self.list_data.push(NtfsAttributeListData { position, data });
            assert(self.spec_list_data() =~= pre.map_values(|l: NtfsAttributeListData| l@).push(
                (AttributeListDataView { position, data: data@ }),
            ));
            proof {
                assert forall|i: int|
                    0 <= i < self.spec_list_data().len() implies (#[trigger] self.spec_list_data()[i]).position as int + self.spec_list_data()[i].data.len() <= u64::MAX as int by {
                    if i < old(self).spec_list_data().len() {
                        assert(self.spec_list_data()[i] == old(self).spec_list_data()[i]);
                    } else {
                        assert(self.spec_list_data()[i] == (AttributeListDataView {
                            position,
                            data: data@,
                        }));
                    }
                }
            }
            true
        } else {
            false
        }
    }

    /// Reads the pre-read value of the non-resident `$ATTRIBUTE_LIST`
    /// attribute at `position`: a copy of the first stored stream whose
    /// position matches, and `AttributeListDataNotFound` exactly when
    /// none matches.
    pub fn attribute_list_data(&self, position: u64) -> (r: Result<Vec<u8>, NtfsError>)
        requires
            self.wf(),
        ensures
            match r {
                Ok(d) => {
                    &&& position as int + d@.len() <= u64::MAX as int
                    &&& exists|i: int|
                        0 <= i < self.spec_list_data().len()
                            && (#[trigger] self.spec_list_data()[i]).position == position
                            && d@ == self.spec_list_data()[i].data
                            && forall|j: int|
                            0 <= j < i ==> (#[trigger] self.spec_list_data()[j]).position
                                != position
                },
                Err(e) => {
                    &&& e == (NtfsError::AttributeListDataNotFound { position })
                    &&& forall|i: int|
                        0 <= i < self.spec_list_data().len()
                            ==> (#[trigger] self.spec_list_data()[i]).position != position
                },
            },
    {
        let mut i: usize = 0;
        while i < self.list_data.len()
            invariant
                self.wf(),
                i <= self.spec_list_data().len(),
                forall|j: int|
                    0 <= j < i ==> (#[trigger] self.spec_list_data()[j]).position != position,
            decreases self.spec_list_data().len() - i,
        {
            if self.list_data[i].position == position {
                let d = copy_bytes(&self.list_data[i].data);
                assert(d@ == self.spec_list_data()[i as int].data);
                return Ok(d);
            }
            i = i + 1;
        }
        Err(NtfsError::AttributeListDataNotFound { position })
    }

    /// Loads the file record with the given number: returns a copy of the
    /// first record in the table whose number matches, and
    /// `FileRecordNotFound` exactly when no record matches.
    pub fn file(&self, file_record_number: u64) -> (r: Result<NtfsFile, NtfsError>)
        requires
            self.wf(),
        ensures
            match r {
                Ok(f) => {
                    &&& f.wf()
                    &&& exists|i: int|
                        0 <= i < self@.len() && f@ == self@[i]
                            && (#[trigger] self@[i]).file_record_number == file_record_number
                            && forall|j: int|
                                0 <= j < i ==> (#[trigger] self@[j]).file_record_number
                                    != file_record_number
                },
                Err(e) => {
                    &&& e == (NtfsError::FileRecordNotFound { file_record_number })
                    &&& forall|i: int|
                        0 <= i < self@.len() ==> (#[trigger] self@[i]).file_record_number
                            != file_record_number
                },
            },
    {
        let mut i: usize = 0;
        while i < self.records.len()
            invariant
                self.wf(),
                i <= self@.len(),
                forall|j: int|
                    0 <= j < i ==> (#[trigger] self@[j]).file_record_number != file_record_number,
            decreases self@.len() - i,
        {
            if self.records[i].file_record_number() == file_record_number {
                let f = self.records[i].clone();
                assert(f@ == self@[i as int]);
                return Ok(f);
            }
            i = i + 1;
        }
        Err(NtfsError::FileRecordNotFound { file_record_number })
    }
}

} // verus!
