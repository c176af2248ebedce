//! The archive: file entries, central directory and end records, and the
//! builder operations over them.

use crate::cdh::CentralDirectoryHeader;
use crate::codec::{compress, compressed_by, is_supported};
use crate::crc::{crc32, crc32_of};
use crate::dd::{DataDescriptor, U32or64};
use crate::encode::{concat_encodings, lemma_concat_pointwise, lemma_concat_prefix_grows, BinCount, BinaryEncode};
use crate::eocd::{EndOfCentralDirectoryRecord, Zip64EndOfCentralDirectoryLocator, Zip64EndOfCentralDirectoryRecord};
use crate::error::ZipError;
use crate::extra::{fields_copied, fields_finalized, lemma_copied_encoding, same_payload, ExtraField};
use crate::fields::{CompressionMethod, GeneralPurposeFlag};
use crate::lfh::{
    extras_length, extras_outcome, lemma_finalized_from_copy, lemma_lfh_finalize_idempotent, lemma_outcome_copied,
    lemma_outcome_payloads, lemma_pending_copied, lemma_pending_payloads, lemma_zip64_index_bound,
    lemma_zip64_index_payloads, lemma_zip64_index_placed, pending_extras, zip64_index, LocalFileHeader,
};
use crate::le::{bytes_to_vec, push_bytes};
use vstd::prelude::*;
use vstd::utf8::encode_utf8;

verus! {

broadcast use crate::le::group_le_lengths;

/// One entry of the entry stream: local header, payload bytes as stored, and
/// an optional data descriptor.
#[derive(Clone, Debug)]
pub struct FileEntry {
    pub lfh: LocalFileHeader,
    pub data: Vec<u8>,
    pub dd: Option<DataDescriptor>,
}

pub open spec fn opt_dd_encoding(dd: Option<DataDescriptor>) -> Seq<u8> {
    match dd {
        Some(d) => d.encoding(),
        None => Seq::empty(),
    }
}

impl BinaryEncode for FileEntry {
    open spec fn encoding(&self) -> Seq<u8> {
        self.lfh.encoding() + self.data@ + opt_dd_encoding(self.dd)
    }

    fn write(&self, out: &mut Vec<u8>) {
        self.lfh.write(out);
        push_bytes(out, self.data.as_slice());
        match &self.dd {
            Some(d) => d.write(out),
            None => {},
        }
        assert(out@ =~= old(out)@ + self.encoding());
    }
}

impl BinCount for FileEntry {
    fn byte_count(&self) -> (r: Result<usize, ZipError>) {
        let h = self.lfh.byte_count()?;
        let d = self.data.len();
        let t: usize = match &self.dd {
            Some(dd) => dd.byte_count()?,
            None => 0,
        };
        if d > usize::MAX - h {
            return Err(ZipError::TooLarge);
        }
        if t > usize::MAX - (h + d) {
            return Err(ZipError::TooLarge);
        }
        Ok(h + d + t)
    }
}

/// The 32-bit field and the shadow ZIP64 value that a size of `n` is set to.
pub open spec fn sized(n: int, force_zip64: bool) -> (u32, Option<u64>) {
    if !force_zip64 && n <= u32::MAX {
        (n as u32, None)
    } else {
        (u32::MAX, Some(n as u64))
    }
}

impl FileEntry {
    /// Compresses `uncompressed_data` with `compression_method` and builds the
    /// entry for it: a local header with the name, method, CRC-32 of the
    /// uncompressed bytes and both sizes (in ZIP64 form when forced or too
    /// large), and, with `use_dd`, a data descriptor that repeats CRC-32 and
    /// sizes, the header's data-descriptor flag set, and an empty ZIP64 extra
    /// kept where a size went to ZIP64.
    pub fn new(
        name: &str,
        uncompressed_data: &[u8],
        compression_method: CompressionMethod,
        force_zip64: bool,
        use_dd: bool,
    ) -> (r: Result<Self, ZipError>)
        ensures
            !is_supported(compression_method.0) ==> r == Err::<Self, ZipError>(ZipError::UnsupportedMethod(compression_method.0)),
            is_supported(compression_method.0) && encode_utf8(name@).len() > u16::MAX ==> r is Err,
            r matches Err(e) ==> e == ZipError::UnsupportedMethod(compression_method.0)
                || e == ZipError::CodecFailed(compression_method.0) || e == ZipError::FileNameTooLong,
            r matches Err(e) && e == ZipError::FileNameTooLong ==> encode_utf8(name@).len() > u16::MAX,
            compression_method.0 == CompressionMethod::STORED && encode_utf8(name@).len() <= u16::MAX ==> r is Ok,
            is_supported(compression_method.0) && compression_method.0 != CompressionMethod::ZSTD
                && encode_utf8(name@).len() <= u16::MAX ==> r is Ok,
            r matches Ok(f) ==> f.built_from(name, uncompressed_data@, compression_method, force_zip64, use_dd),
    {
        let compressed = compress(compression_method, uncompressed_data)?;
        let crc = crc32(uncompressed_data);
        let name_bytes = name.as_bytes();
        if name_bytes.len() > 0xffff {
            return Err(ZipError::FileNameTooLong);
        }
        let mut lfh = LocalFileHeader::new();
        lfh.compression_method = compression_method;
        lfh.file_name_length = name_bytes.len() as u16;
        lfh.file_name = bytes_to_vec(name_bytes);
        lfh.crc32 = crc;
        lfh.set_compressed_size(compressed.len(), force_zip64);
        lfh.set_uncompressed_size(uncompressed_data.len(), force_zip64);
        let dd = if use_dd {
            lfh.general_purpose_flag.insert(GeneralPurposeFlag::DATA_DESCRIPTOR);
            assert(0u16 | 8u16 == 8u16) by (bit_vector);
            let wide = lfh.zip64.compressed_size.is_some() || lfh.zip64.original_size.is_some();
            let (compressed_size, uncompressed_size) = if wide {
                // an empty ZIP64 extra keeps the slot in the local header
                lfh.keep_empty_zip64 = true;
                let c = match lfh.zip64.compressed_size {
                    Some(size) => size,
                    None => lfh.compressed_size as u64,
                };
                let u = match lfh.zip64.original_size {
                    Some(size) => size,
                    None => lfh.uncompressed_size as u64,
                };
                (U32or64::U64(c), U32or64::U64(u))
            } else {
                (U32or64::U32(lfh.compressed_size), U32or64::U32(lfh.uncompressed_size))
            };
            Some(DataDescriptor {
                signature: Some(DataDescriptor::SIGNATURE),
                crc32: crc,
                compressed_size,
                uncompressed_size,
            })
        } else {
            None
        };
        Ok(FileEntry { lfh, data: compressed, dd })
    }

    /// What `new` promises of the entry it builds.
    pub open spec fn built_from(
        &self,
        name: &str,
        data: Seq<u8>,
        method: CompressionMethod,
        force_zip64: bool,
        use_dd: bool,
    ) -> bool {
        let c = compressed_by(method.0, data);
        let cs = sized(c.len() as int, force_zip64);
        let us = sized(data.len() as int, force_zip64);
        &&& self.data@ == c
        &&& self.lfh.signature == LocalFileHeader::SIGNATURE
        &&& self.lfh.version_needed == 20
        &&& self.lfh.compression_method == method
        &&& self.lfh.file_name@ == encode_utf8(name@)
        &&& self.lfh.file_name_length == encode_utf8(name@).len()
        &&& self.lfh.crc32 == crc32_of(data)
        &&& self.lfh.compressed_size == cs.0
        &&& self.lfh.zip64.compressed_size == cs.1
        &&& self.lfh.uncompressed_size == us.0
        &&& self.lfh.zip64.original_size == us.1
        &&& self.lfh.zip64.relative_header_offset is None
        &&& self.lfh.zip64.disk_start_number is None
        &&& self.lfh.extra_fields@.len() == 0
        &&& self.lfh.extra_fields_raw@.len() == 0
        &&& self.lfh.extra_field_length == 0
        &&& self.lfh.general_purpose_flag.0 == (if use_dd { GeneralPurposeFlag::DATA_DESCRIPTOR } else { 0 })
        &&& self.lfh.keep_empty_zip64 == (use_dd && (cs.1 is Some || us.1 is Some))
        &&& (use_dd ==> self.dd == Some(DataDescriptor {
            signature: Some(DataDescriptor::SIGNATURE),
            crc32: crc32_of(data),
            compressed_size: if cs.1 is Some || us.1 is Some {
                U32or64::U64(c.len() as u64)
            } else {
                U32or64::U32(cs.0)
            },
            uncompressed_size: if cs.1 is Some || us.1 is Some {
                U32or64::U64(data.len() as u64)
            } else {
                U32or64::U32(us.0)
            },
        }))
        &&& (!use_dd ==> self.dd is None)
    }

    /// A copy that encodes to the same bytes, field by field.
    pub fn duplicate(&self) -> (r: Self)
        ensures
            r.lfh.same_but_extras(&self.lfh),
            r.lfh.extra_field_length == self.lfh.extra_field_length,
            fields_copied(self.lfh.extra_fields@, r.lfh.extra_fields@),
            r.data@ == self.data@,
            r.dd == self.dd,
            r.encoding() == self.encoding(),
    {
        FileEntry { lfh: self.lfh.duplicate(), data: self.data.clone(), dd: self.dd }
    }

    /// Appends this entry's central header, placed at `*offset`, to `cd`, and
    /// advances `*offset` past the entry.
    pub fn push_into_cd(&self, cd: &mut Vec<CentralDirectoryHeader>, offset: &mut usize) -> (r: Result<(), ZipError>)
        ensures
            r is Ok ==> final(cd)@.len() == old(cd)@.len() + 1
                && final(cd)@.subrange(0, old(cd)@.len() as int) == old(cd)@
                && cdh_for(final(cd)@.last(), *self, *old(offset) as int)
                && *final(offset) == *old(offset) + self.encoding().len(),
            r is Err ==> final(cd)@ == old(cd)@ && *final(offset) == *old(offset),
            r matches Err(e) ==> e == ZipError::DualExtraFields || e == ZipError::ExtraFieldTooLong
                || e == ZipError::ExtraFieldsTooLong || e == ZipError::TooLarge,
    {
        let mut cdh = CentralDirectoryHeader::from_entry(self);
        cdh.set_offset(*offset, false);
        let ghost before = cdh;
        cdh.finalize()?;
        let n = self.byte_count()?;
        if n > usize::MAX - *offset {
            return Err(ZipError::TooLarge);
        }
        proof {
            assert(cdh.same_but_extras(&before));
            lemma_cdh_extras(*self, before, cdh);
        }
        cd.push(cdh);
        assert(final(cd)@.subrange(0, old(cd)@.len() as int) =~= old(cd)@);
        *offset = *offset + n;
        Ok(())
    }
}

/// A whole archive: the entry stream, the central directory, the optional
/// ZIP64 end record and locator, and the classic end record, written in
/// that order. Nothing forces these parts to agree.
#[derive(Clone, Debug)]
pub struct ZipArchive {
    pub files: Vec<FileEntry>,
    pub cd: Vec<CentralDirectoryHeader>,
    pub zip64_eocdr: Option<Zip64EndOfCentralDirectoryRecord>,
    pub zip64_eocdl: Option<Zip64EndOfCentralDirectoryLocator>,
    pub eocdr: EndOfCentralDirectoryRecord,
}

pub open spec fn opt_zip64_eocdr_encoding(z: Option<Zip64EndOfCentralDirectoryRecord>) -> Seq<u8> {
    match z {
        Some(r) => r.encoding(),
        None => Seq::empty(),
    }
}

pub open spec fn opt_eocdl_encoding(z: Option<Zip64EndOfCentralDirectoryLocator>) -> Seq<u8> {
    match z {
        Some(r) => r.encoding(),
        None => Seq::empty(),
    }
}

/// A run of entries followed by a run of central headers, written back to
/// back: a piece of an archive to splice by hand.
#[derive(Clone, Debug)]
pub struct EntryGroup {
    pub files: Vec<FileEntry>,
    pub cd: Vec<CentralDirectoryHeader>,
}

impl EntryGroup {
    /// The entries and central directory of `zip`, without its end records.
    pub fn from_archive(zip: ZipArchive) -> (r: Self)
        ensures
            r.files == zip.files,
            r.cd == zip.cd,
    {
        EntryGroup { files: zip.files, cd: zip.cd }
    }
}

impl BinaryEncode for EntryGroup {
    open spec fn encoding(&self) -> Seq<u8> {
        self.files.encoding() + self.cd.encoding()
    }

    fn write(&self, out: &mut Vec<u8>) {
        self.files.write(out);
        self.cd.write(out);
        assert(out@ =~= old(out)@ + self.encoding());
    }
}

impl BinCount for EntryGroup {
    fn byte_count(&self) -> (r: Result<usize, ZipError>) {
        let a = self.files.byte_count()?;
        let b = self.cd.byte_count()?;
        if b > usize::MAX - a {
            return Err(ZipError::TooLarge);
        }
        Ok(a + b)
    }
}

/// Whether end records for `count` central headers of `size` bytes starting
/// at `start` can be the classic record alone.
pub open spec fn classic_fits(count: int, size: int, start: int) -> bool {
    count <= u16::MAX && size <= u32::MAX && start <= u32::MAX
}

/// The end records of `z` are those that `set_eocd` computes for `count`
/// central headers of `size` bytes starting at `start`: the classic record
/// alone (disks 0, both counts, size, offset, no comment) where it fits and
/// ZIP64 is not forced; else a ZIP64 record (versions 20, disks 0, size 44,
/// no version-2 block or extensible data), a locator pointing just past the
/// directory, and a classic record of all-ones sentinels with no comment.
pub open spec fn eocd_recomputed(z: ZipArchive, count: int, size: int, start: int, force: bool) -> bool {
    &&& z.eocdr.signature == EndOfCentralDirectoryRecord::SIGNATURE
    &&& z.eocdr.zip_file_comment_length == 0
    &&& z.eocdr.zip_file_comment@.len() == 0
    &&& if !force && classic_fits(count, size, start) {
        &&& z.zip64_eocdr is None
        &&& z.zip64_eocdl is None
        &&& z.eocdr.number_of_this_disk == 0
        &&& z.eocdr.start_of_cd_disk_number == 0
        &&& z.eocdr.this_disk_cdh_count == count
        &&& z.eocdr.total_cdh_count == count
        &&& z.eocdr.size_of_cd == size
        &&& z.eocdr.offset_of_cd_wrt_starting_disk == start
    } else {
        &&& z.eocdr.number_of_this_disk == u16::MAX
        &&& z.eocdr.start_of_cd_disk_number == u16::MAX
        &&& z.eocdr.this_disk_cdh_count == u16::MAX
        &&& z.eocdr.total_cdh_count == u16::MAX
        &&& z.eocdr.size_of_cd == u32::MAX
        &&& z.eocdr.offset_of_cd_wrt_starting_disk == u32::MAX
        &&& zip64_records_for(z, count, size, start)
    }
}

/// The ZIP64 end record of `r` for `count` central headers of `size` bytes
/// starting at `start`: versions 20, disks 0, size 44, no version-2 block
/// and no extensible data.
pub open spec fn zip64_record_for(r: Zip64EndOfCentralDirectoryRecord, count: int, size: int, start: int) -> bool {
    &&& r.signature == Zip64EndOfCentralDirectoryRecord::SIGNATURE
    &&& r.size == 44
    &&& r.version_made_by == 20
    &&& r.version_needed == 20
    &&& r.number_of_this_disk == 0
    &&& r.start_of_cd_disk_number == 0
    &&& r.this_disk_cdh_count == count
    &&& r.total_cdh_count == count
    &&& r.size_of_cd == size
    &&& r.offset_of_cd_wrt_starting_disk == start
    &&& r.v2 is None
    &&& r.extensible_data_sector@.len() == 0
}

/// `z` has the ZIP64 end record for these values and a locator pointing
/// just past the directory.
pub open spec fn zip64_records_for(z: ZipArchive, count: int, size: int, start: int) -> bool {
    &&& z.zip64_eocdr matches Some(r) && zip64_record_for(r, count, size, start)
    &&& z.zip64_eocdl == Some(Zip64EndOfCentralDirectoryLocator::spec_from_offset((start + size) as u64))
}

/// The length of the entries of `files` before index `i`.
pub open spec fn entries_before(files: Seq<FileEntry>, i: int) -> int {
    concat_encodings(files.subrange(0, i)).len() as int
}

proof fn lemma_plain_cd_len_step(s: Seq<FileEntry>, i: int)
    requires
        0 <= i < s.len(),
    ensures
        plain_cd_len(s.subrange(0, i + 1)) == plain_cd_len(s.subrange(0, i)) + 46 + s[i].lfh.file_name@.len(),
{
    assert(s.subrange(0, i + 1).drop_last() =~= s.subrange(0, i));
}

proof fn lemma_plain_cd_len_prefix(s: Seq<FileEntry>, k: int)
    requires
        0 <= k <= s.len(),
    ensures
        plain_cd_len(s.subrange(0, k)) <= plain_cd_len(s),
    decreases s.len() - k,
{
    if k < s.len() {
        lemma_plain_cd_len_prefix(s, k + 1);
        lemma_plain_cd_len_step(s, k);
    } else {
        assert(s.subrange(0, k) =~= s);
    }
}

/// One more entry adds its own length.
pub proof fn lemma_entries_before_step(s: Seq<FileEntry>, i: int)
    requires
        0 <= i < s.len(),
    ensures
        entries_before(s, i + 1) == entries_before(s, i) + s[i].encoding().len(),
{
    assert(s.subrange(0, i + 1).drop_last() =~= s.subrange(0, i));
}

/// The length before index `j` depends on the entries before `i >= j` alone.
pub proof fn lemma_entries_before_prefix(s1: Seq<FileEntry>, s2: Seq<FileEntry>, i: int, j: int)
    requires
        0 <= j <= i <= s1.len(),
        i <= s2.len(),
        s1.subrange(0, i) == s2.subrange(0, i),
    ensures
        entries_before(s1, j) == entries_before(s2, j),
{
    assert(s1.subrange(0, j) =~= s1.subrange(0, i).subrange(0, j));
    assert(s2.subrange(0, j) =~= s2.subrange(0, i).subrange(0, j));
}

/// `new` is `old` with its local header finalized successfully.
pub open spec fn entry_finalized(old: FileEntry, new: FileEntry) -> bool {
    &&& new.lfh.same_but_extras(&old.lfh)
    &&& new.data@ == old.data@
    &&& new.dd == old.dd
    &&& extras_outcome(old.lfh.pending(), old.lfh.extra_fields_raw@.len() as int) is None
    &&& fields_finalized(old.lfh.pending(), new.lfh.extra_fields@)
    &&& new.lfh.extra_field_length == extras_length(old.lfh.pending(), old.lfh.extra_fields_raw@.len() as int)
}

/// An entry with no extra fields of either kind and no shadow ZIP64
/// information.
pub open spec fn plain_entry(f: FileEntry) -> bool {
    &&& f.lfh.extra_fields@.len() == 0
    &&& f.lfh.extra_fields_raw@.len() == 0
    &&& f.lfh.zip64.spec_is_empty()
    &&& !f.lfh.keep_empty_zip64
}

/// The length of the central directory that `finalize` builds for plain
/// entries: 46 fixed bytes and the name for each.
pub open spec fn plain_cd_len(files: Seq<FileEntry>) -> int
    decreases files.len(),
{
    if files.len() == 0 {
        0
    } else {
        plain_cd_len(files.drop_last()) + 46 + files.last().lfh.file_name@.len()
    }
}

/// Plain entries whose stream and directory together fit in 32 bits: the
/// inputs on which `finalize` is sure to succeed.
pub open spec fn finalize_fits(files: Seq<FileEntry>) -> bool {
    &&& forall|i: int| 0 <= i < files.len() ==> plain_entry(#[trigger] files[i])
    &&& concat_encodings(files).len() + plain_cd_len(files) <= u32::MAX
}

/// An entry that `add_file` built without forced ZIP64, with both sizes
/// within 32 bits, is plain: `finalize` has no extra fields to refuse.
pub proof fn lemma_built_entry_is_plain(f: FileEntry, name: &str, data: Seq<u8>, method: CompressionMethod, use_dd: bool)
    requires
        f.built_from(name, data, method, false, use_dd),
        compressed_by(method.0, data).len() <= u32::MAX,
        data.len() <= u32::MAX,
    ensures
        plain_entry(f),
{
}

/// A central header with no extra fields of either kind and no shadow
/// ZIP64 value other than, possibly, its offset.
pub open spec fn plain_cdh(c: CentralDirectoryHeader) -> bool {
    &&& c.extra_fields@.len() == 0
    &&& c.extra_fields_raw@.len() == 0
    &&& c.zip64.original_size is None
    &&& c.zip64.compressed_size is None
    &&& c.zip64.disk_start_number is None
}

/// As many plain central headers as plain entries, all of it fitting in 32
/// bits from `base` on: the inputs on which `set_offsets` is sure to succeed.
pub open spec fn set_offsets_fits(z: ZipArchive, base: int) -> bool {
    &&& z.files@.len() == z.cd@.len()
    &&& forall|i: int| 0 <= i < z.files@.len() ==> plain_entry(#[trigger] z.files@[i])
    &&& forall|i: int| 0 <= i < z.cd@.len() ==> plain_cdh(#[trigger] z.cd@[i])
    &&& base + concat_encodings(z.files@).len() + concat_encodings(z.cd@).len() <= u32::MAX
}

proof fn lemma_cd_len_pointwise(a: Seq<CentralDirectoryHeader>, b: Seq<CentralDirectoryHeader>)
    requires
        a.len() == b.len(),
        forall|i: int| 0 <= i < a.len() ==> (#[trigger] a[i]).encoding().len() == b[i].encoding().len(),
    ensures
        concat_encodings(a).len() == concat_encodings(b).len(),
    decreases a.len(),
{
    if a.len() > 0 {
        let a1 = a.drop_last();
        let b1 = b.drop_last();
        assert forall|i: int| 0 <= i < a1.len() implies (#[trigger] a1[i]).encoding().len() == b1[i].encoding().len() by {
            assert(a1[i] == a[i]);
            assert(b1[i] == b[i]);
        }
        lemma_cd_len_pointwise(a1, b1);
        assert(a[a.len() - 1].encoding().len() == b[b.len() - 1].encoding().len());
    }
}

/// `cdh` is the central header made from `fe` and placed at `offset`.
pub open spec fn cdh_for(cdh: CentralDirectoryHeader, fe: FileEntry, offset: int) -> bool {
    &&& cdh.signature == CentralDirectoryHeader::SIGNATURE
    &&& cdh.version_made_by == fe.lfh.version_needed
    &&& cdh.version_needed == fe.lfh.version_needed
    &&& cdh.general_purpose_flag == fe.lfh.general_purpose_flag
    &&& cdh.compression_method == fe.lfh.compression_method
    &&& cdh.last_mod == fe.lfh.last_mod
    &&& cdh.file_name@ == fe.lfh.file_name@
    &&& cdh.file_name_length == fe.lfh.file_name_length
    &&& cdh.extra_fields_raw@ == fe.lfh.extra_fields_raw@
    &&& cdh.file_comment@.len() == 0
    &&& cdh.file_comment_length == 0
    &&& cdh.disk_number_start == 0
    &&& cdh.internal_file_attributes.0 == 0
    &&& cdh.external_file_attributes == 0
    &&& cdh.crc32 == (match fe.dd { Some(d) => d.crc32, None => fe.lfh.crc32 })
    &&& cdh.compressed_size == (match fe.dd { Some(d) => saturated(d.compressed_size), None => fe.lfh.compressed_size })
    &&& cdh.uncompressed_size == (match fe.dd { Some(d) => saturated(d.uncompressed_size), None => fe.lfh.uncompressed_size })
    &&& cdh.relative_header_offset == sized(offset, false).0
    &&& cdh.zip64.relative_header_offset == sized(offset, false).1
    &&& cdh.zip64.original_size == fe.lfh.zip64.original_size
    &&& cdh.zip64.compressed_size == fe.lfh.zip64.compressed_size
    &&& cdh.zip64.disk_start_number == fe.lfh.zip64.disk_start_number
    &&& extras_outcome(pending_extras(fe.lfh.extra_fields@, cdh.zip64, false), fe.lfh.extra_fields_raw@.len() as int) is None
    &&& fields_finalized(pending_extras(fe.lfh.extra_fields@, cdh.zip64, false), cdh.extra_fields@)
    &&& cdh.extra_field_length
        == extras_length(pending_extras(fe.lfh.extra_fields@, cdh.zip64, false), fe.lfh.extra_fields_raw@.len() as int)
}

proof fn lemma_cdh_extras(fe: FileEntry, placed: CentralDirectoryHeader, cdh: CentralDirectoryHeader)
    requires
        fields_copied(fe.lfh.extra_fields@, placed.extra_fields@),
        placed.extra_fields_raw@ == fe.lfh.extra_fields_raw@,
        cdh.zip64 == placed.zip64,
        extras_outcome(placed.pending(), placed.extra_fields_raw@.len() as int) is None,
        fields_finalized(placed.pending(), cdh.extra_fields@),
        cdh.extra_field_length == extras_length(placed.pending(), placed.extra_fields_raw@.len() as int),
    ensures
        extras_outcome(pending_extras(fe.lfh.extra_fields@, cdh.zip64, false), fe.lfh.extra_fields_raw@.len() as int) is None,
        fields_finalized(pending_extras(fe.lfh.extra_fields@, cdh.zip64, false), cdh.extra_fields@),
        cdh.extra_field_length
            == extras_length(pending_extras(fe.lfh.extra_fields@, cdh.zip64, false), fe.lfh.extra_fields_raw@.len() as int),
{
    let a = pending_extras(fe.lfh.extra_fields@, placed.zip64, false);
    lemma_pending_copied(fe.lfh.extra_fields@, placed.extra_fields@, placed.zip64, false);
    lemma_finalized_from_copy(a, placed.pending(), cdh.extra_fields@);
    lemma_outcome_copied(a, placed.pending(), fe.lfh.extra_fields_raw@.len() as int);
}

/// A size clamped to 32 bits.
pub open spec fn saturated(v: U32or64) -> u32 {
    if v.value() > u32::MAX { u32::MAX } else { v.value() as u32 }
}

/// `new` is what a successful `finalize` makes of `old`: the entries with
/// their local headers finalized, one central header per entry placed at
/// the entry's offset, and, where every value fits its classic field, a
/// classic end record that counts the headers and points past the entries.
pub open spec fn finalized_from(old: ZipArchive, new: ZipArchive) -> bool {
    &&& new.files@.len() == old.files@.len()
    &&& new.cd@.len() == old.files@.len()
    &&& forall|i: int| 0 <= i < old.files@.len() ==> #[trigger] entry_finalized(old.files@[i], new.files@[i])
    &&& forall|i: int| 0 <= i < old.files@.len()
        ==> #[trigger] cdh_for(new.cd@[i], old.files@[i], entries_before(new.files@, i))
    &&& eocd_recomputed(new, new.cd@.len() as int, new.cd.encoding().len() as int, new.cd_start(), false)
    &&& (entries_before(new.files@, new.files@.len() as int) <= u32::MAX
        ==> new.cd_start() == entries_before(new.files@, new.files@.len() as int))
}

/// The entry's shadow ZIP64 information, where it is carried as an extra
/// field, holds a size or a disk number (as every entry `add_file` builds
/// does), so the central header carries it too.
pub open spec fn shadow_carried_alike(f: FileEntry) -> bool {
    f.lfh.keep_empty_zip64 || !f.lfh.zip64.spec_is_empty() ==> {
        ||| f.lfh.zip64.original_size is Some
        ||| f.lfh.zip64.compressed_size is Some
        ||| f.lfh.zip64.disk_start_number is Some
    }
}

/// Every entry `add_file` builds carries its shadow alike in both headers.
pub proof fn lemma_built_entry_carries_alike(f: FileEntry, name: &str, data: Seq<u8>, method: CompressionMethod, force_zip64: bool, use_dd: bool)
    requires
        f.built_from(name, data, method, force_zip64, use_dd),
    ensures
        shadow_carried_alike(f),
{
}

proof fn lemma_cdh_idempotent(f0: FileEntry, f1: FileEntry, c1: CentralDirectoryHeader, c2: CentralDirectoryHeader, off: int)
    requires
        entry_finalized(f0, f1),
        cdh_for(c1, f0, off),
        cdh_for(c2, f1, off),
        shadow_carried_alike(f0),
    ensures
        c2.encoding() == c1.encoding(),
{
    let z = f0.lfh.zip64;
    let zc = c1.zip64;
    assert(c2.zip64 == zc);
    let p0 = f0.lfh.pending();
    let a0 = f0.lfh.extra_fields@;
    let a1 = f1.lfh.extra_fields@;
    let q0 = pending_extras(a0, zc, false);
    let q1 = pending_extras(a1, zc, false);
    assert forall|i: int| 0 <= i < a1.len() implies same_payload((#[trigger] a1[i]).data, p0[i].data) by {}
    if f0.lfh.keep_empty_zip64 || !z.spec_is_empty() {
        lemma_zip64_index_payloads(a1, p0);
        lemma_zip64_index_placed(a0, z);
        lemma_zip64_index_bound(a0);
        lemma_zip64_index_bound(a1);
        assert(!zc.spec_is_empty());
        assert(p0 == pending_extras(a0, z, true));
        assert(q0.len() == q1.len());
        assert forall|i: int| 0 <= i < q0.len() implies same_payload((#[trigger] q0[i]).data, q1[i].data) by {
            let k = zip64_index(a1);
            if i != k {
                assert(q1[i] == a1[i]);
                assert(p0[i] == a0[i]);
                assert(q0[i] == a0[i]);
            }
        }
    } else {
        assert(p0 == a0);
        lemma_pending_payloads(a0, a1, zc, false);
    }
    let b1 = c1.extra_fields@;
    let b2 = c2.extra_fields@;
    assert(fields_copied(b1, b2)) by {
        assert forall|i: int| 0 <= i < b1.len() implies {
            &&& (#[trigger] b2[i]).header_id == b1[i].header_id
            &&& b2[i].size == b1[i].size
            &&& same_payload(b2[i].data, b1[i].data)
        } by {
            assert(same_payload(b1[i].data, q0[i].data));
            assert(same_payload(b2[i].data, q1[i].data));
        }
    }
    lemma_copied_encoding(b1, b2);
    lemma_outcome_payloads(q0, q1, f0.lfh.extra_fields_raw@.len() as int);
    assert(c2.encoding() =~= c1.encoding());
}

/// Where every entry carries its shadow ZIP64 information alike in both
/// headers, `finalize` is an idempotent recomputation: running it on its
/// own result gives the same bytes.
pub proof fn lemma_finalize_idempotent(a0: ZipArchive, a1: ZipArchive, a2: ZipArchive)
    requires
        finalized_from(a0, a1),
        finalized_from(a1, a2),
        forall|i: int| 0 <= i < a0.files@.len() ==> shadow_carried_alike(#[trigger] a0.files@[i]),
    ensures
        a2.encoding() == a1.encoding(),
{
    let n = a0.files@.len() as int;
    assert forall|i: int| 0 <= i < n implies (#[trigger] a1.files@[i]).encoding() == a2.files@[i].encoding() by {
        assert(entry_finalized(a0.files@[i], a1.files@[i]));
        assert(entry_finalized(a1.files@[i], a2.files@[i]));
        lemma_lfh_finalize_idempotent(a0.files@[i].lfh, a1.files@[i].lfh, a2.files@[i].lfh);
        assert(a1.files@[i].encoding() =~= a2.files@[i].encoding());
    }
    lemma_concat_pointwise(a1.files@, a2.files@);
    assert forall|i: int| 0 <= i <= n implies entries_before(a1.files@, i) == entries_before(a2.files@, i) by {
        let s1 = a1.files@.subrange(0, i);
        let s2 = a2.files@.subrange(0, i);
        assert forall|j: int| 0 <= j < s1.len() implies (#[trigger] s1[j]).encoding() == s2[j].encoding() by {
            assert(s1[j] == a1.files@[j] && s2[j] == a2.files@[j]);
        }
        lemma_concat_pointwise(s1, s2);
    }
    assert forall|i: int| 0 <= i < n implies (#[trigger] a1.cd@[i]).encoding() == a2.cd@[i].encoding() by {
        assert(entry_finalized(a0.files@[i], a1.files@[i]));
        assert(cdh_for(a1.cd@[i], a0.files@[i], entries_before(a1.files@, i)));
        assert(cdh_for(a2.cd@[i], a1.files@[i], entries_before(a2.files@, i)));
        assert(shadow_carried_alike(a0.files@[i]));
        lemma_cdh_idempotent(a0.files@[i], a1.files@[i], a1.cd@[i], a2.cd@[i], entries_before(a1.files@, i));
    }
    lemma_concat_pointwise(a1.cd@, a2.cd@);
    assert(a1.cd_start() == a2.cd_start()) by {
        if n > 0 {
            assert(a1.cd@.last() == a1.cd@[n - 1]);
            assert(a2.cd@.last() == a2.cd@[n - 1]);
            assert(a1.files@.last() == a1.files@[n - 1]);
            assert(a2.files@.last() == a2.files@[n - 1]);
            assert(cdh_for(a1.cd@[n - 1], a0.files@[n - 1], entries_before(a1.files@, n - 1)));
            assert(cdh_for(a2.cd@[n - 1], a1.files@[n - 1], entries_before(a2.files@, n - 1)));
        }
    }
    assert(a1.eocdr.encoding() =~= a2.eocdr.encoding());
    assert(opt_eocdl_encoding(a1.zip64_eocdl) == opt_eocdl_encoding(a2.zip64_eocdl));
    if a1.zip64_eocdr is Some {
        let r1 = a1.zip64_eocdr->Some_0;
        let r2 = a2.zip64_eocdr->Some_0;
        assert(r1.extensible_data_sector@ =~= r2.extensible_data_sector@);
        assert(r1.encoding() =~= r2.encoding());
    }
    assert(a1.encoding() =~= a2.encoding());
}

/// After `finalize`, the central directory lists the entries in order: the
/// `i`-th central header names the `i`-th entry, has its method, and points
/// at the byte where that entry starts (where the offset fits 32 bits); the
/// entries keep their data; and where the classic end record suffices it
/// counts exactly these headers and points just past the entries.
pub proof fn lemma_directory_lists_entries(old: ZipArchive, new: ZipArchive)
    requires
        finalized_from(old, new),
    ensures
        new.cd@.len() == new.files@.len(),
        forall|i: int| 0 <= i < new.files@.len() ==> {
            &&& (#[trigger] new.cd@[i]).file_name@ == new.files@[i].lfh.file_name@
            &&& new.cd@[i].compression_method == new.files@[i].lfh.compression_method
            &&& new.files@[i].data@ == old.files@[i].data@
            &&& (entries_before(new.files@, i) <= u32::MAX ==> new.cd@[i].relative_header_offset == entries_before(new.files@, i))
        },
        (new.cd@.len() <= u16::MAX && new.cd.encoding().len() <= u32::MAX
            && entries_before(new.files@, new.files@.len() as int) <= u32::MAX) ==> {
            &&& new.eocdr.total_cdh_count == new.files@.len()
            &&& new.eocdr.offset_of_cd_wrt_starting_disk == entries_before(new.files@, new.files@.len() as int)
        },
{
    assert forall|i: int| 0 <= i < new.files@.len() implies {
        &&& (#[trigger] new.cd@[i]).file_name@ == new.files@[i].lfh.file_name@
        &&& new.cd@[i].compression_method == new.files@[i].lfh.compression_method
        &&& new.files@[i].data@ == old.files@[i].data@
        &&& (entries_before(new.files@, i) <= u32::MAX ==> new.cd@[i].relative_header_offset == entries_before(new.files@, i))
    } by {
        assert(entry_finalized(old.files@[i], new.files@[i]));
        assert(cdh_for(new.cd@[i], old.files@[i], entries_before(new.files@, i)));
    }
}

impl BinaryEncode for ZipArchive {
    open spec fn encoding(&self) -> Seq<u8> {
        self.files.encoding() + self.cd.encoding() + opt_zip64_eocdr_encoding(self.zip64_eocdr)
            + opt_eocdl_encoding(self.zip64_eocdl) + self.eocdr.encoding()
    }

    fn write(&self, out: &mut Vec<u8>) {
        self.files.write(out);
        self.cd.write(out);
        match &self.zip64_eocdr {
            Some(z) => z.write(out),
            None => {},
        }
        match &self.zip64_eocdl {
            Some(z) => z.write(out),
            None => {},
        }
        self.eocdr.write(out);
        assert(out@ =~= old(out)@ + self.encoding());
    }
}

impl BinCount for ZipArchive {
    fn byte_count(&self) -> (r: Result<usize, ZipError>) {
        let a = self.files.byte_count()?;
        let b = self.cd.byte_count()?;
        let c: usize = match &self.zip64_eocdr {
            Some(z) => z.byte_count()?,
            None => 0,
        };
        let d: usize = match &self.zip64_eocdl {
            Some(_) => 20,
            None => 0,
        };
        let e = self.eocdr.byte_count()?;
        if b > usize::MAX - a {
            return Err(ZipError::TooLarge);
        }
        if c > usize::MAX - (a + b) {
            return Err(ZipError::TooLarge);
        }
        if d > usize::MAX - (a + b + c) {
            return Err(ZipError::TooLarge);
        }
        if e > usize::MAX - (a + b + c + d) {
            return Err(ZipError::TooLarge);
        }
        Ok(a + b + c + d + e)
    }
}

impl Default for ZipArchive {
    fn default() -> (r: Self)
        ensures
            r.files@.len() == 0,
            r.cd@.len() == 0,
            r.zip64_eocdr is None,
            r.zip64_eocdl is None,
    {
        ZipArchive::new()
    }
}

impl ZipArchive {
    /// An archive with no entries, no central directory and an empty classic
    /// end record.
    pub fn new() -> (r: Self)
        ensures
            r.files@.len() == 0,
            r.cd@.len() == 0,
            r.zip64_eocdr is None,
            r.zip64_eocdl is None,
            r.eocdr.signature == EndOfCentralDirectoryRecord::SIGNATURE,
            r.eocdr.total_cdh_count == 0,
    {
        ZipArchive {
            files: Vec::new(),
            cd: Vec::new(),
            zip64_eocdr: None,
            zip64_eocdl: None,
            eocdr: EndOfCentralDirectoryRecord::new(),
        }
    }

    /// Appends the entry that `FileEntry::new` builds from the arguments.
    pub fn add_file(
        &mut self,
        name: &str,
        uncompressed_data: &[u8],
        compression_method: CompressionMethod,
        force_zip64: bool,
        use_dd: bool,
    ) -> (r: Result<(), ZipError>)
        ensures
            !is_supported(compression_method.0) ==> r == Err::<(), ZipError>(ZipError::UnsupportedMethod(compression_method.0)),
            is_supported(compression_method.0) && encode_utf8(name@).len() > u16::MAX ==> r is Err,
            compression_method.0 == CompressionMethod::STORED && encode_utf8(name@).len() <= u16::MAX ==> r is Ok,
            is_supported(compression_method.0) && compression_method.0 != CompressionMethod::ZSTD
                && encode_utf8(name@).len() <= u16::MAX ==> r is Ok,
            r is Ok ==> final(self).files@.len() == old(self).files@.len() + 1
                && final(self).files@.drop_last() == old(self).files@
                && final(self).files@.last().built_from(name, uncompressed_data@, compression_method, force_zip64, use_dd),
            r is Err ==> final(self).files@ == old(self).files@,
            final(self).cd@ == old(self).cd@,
            final(self).eocdr == old(self).eocdr,
            final(self).zip64_eocdr == old(self).zip64_eocdr,
            final(self).zip64_eocdl == old(self).zip64_eocdl,
    {
        let f = FileEntry::new(name, uncompressed_data, compression_method, force_zip64, use_dd)?;
        self.files.push(f);
        assert(self.files@.drop_last() =~= old(self).files@);
        Ok(())
    }

    /// `add_file` with the data stored, no ZIP64 forcing and no descriptor.
    pub fn add_simple(&mut self, name: &str, data: &[u8]) -> (r: Result<(), ZipError>)
        ensures
            r is Ok <==> encode_utf8(name@).len() <= u16::MAX,
            r is Ok ==> final(self).files@.len() == old(self).files@.len() + 1
                && final(self).files@.drop_last() == old(self).files@
                && final(self).files@.last().built_from(name, data@, CompressionMethod(CompressionMethod::STORED), false, false),
            r is Err ==> final(self).files@ == old(self).files@,
            final(self).cd@ == old(self).cd@,
            final(self).eocdr == old(self).eocdr,
            final(self).zip64_eocdr == old(self).zip64_eocdr,
            final(self).zip64_eocdl == old(self).zip64_eocdl,
    {
        self.add_file(name, data, CompressionMethod(CompressionMethod::STORED), false, false)
    }

    /// Where the central directory starts, by the last central header's
    /// offset and the length of the last entry.
    pub open spec fn cd_start(&self) -> int {
        (if self.cd@.len() > 0 { self.cd@.last().relative_header_offset as int } else { 0 })
            + (if self.files@.len() > 0 { self.files@.last().encoding().len() as int } else { 0 })
    }

    /// Whether the end records can be the classic one alone.
    /// The sizes `set_eocd` adds up fit its arithmetic.
    pub open spec fn eocd_sizes_fit(&self) -> bool {
        &&& self.cd_start() + self.cd.encoding().len() <= u64::MAX
        &&& self.cd_start() <= usize::MAX
        &&& self.cd.encoding().len() <= usize::MAX
    }


    /// Recomputes the end records from the central directory: with the
    /// classic record alone where every value fits its field and ZIP64 is
    /// not forced; else with a ZIP64 record and locator, and a classic record
    /// of all-ones sentinels.
    pub fn set_eocd(&mut self, force_zip64: bool) -> (r: Result<(), ZipError>)
        ensures
            final(self).files@ == old(self).files@,
            final(self).cd@ == old(self).cd@,
            r is Err ==> *final(self) == *old(self),
            r matches Err(e) ==> e == ZipError::TooLarge,
            old(self).eocd_sizes_fit() ==> r is Ok,
            r is Ok ==> eocd_recomputed(*final(self), old(self).cd@.len() as int, old(self).cd.encoding().len() as int,
                old(self).cd_start(), force_zip64),
    {
        let mut offset: usize = 0;
        if self.cd.len() > 0 {
            offset = self.cd[self.cd.len() - 1].relative_header_offset as usize;
        }
        if self.files.len() > 0 {
            let n = self.files[self.files.len() - 1].byte_count()?;
            if n > usize::MAX - offset {
                return Err(ZipError::TooLarge);
            }
            offset = offset + n;
        }
        let cd_size = self.cd.byte_count()?;
        if cd_size as u64 > u64::MAX - offset as u64 {
            return Err(ZipError::TooLarge);
        }
        let mut z = Zip64EndOfCentralDirectoryRecord::new();
        z.this_disk_cdh_count = self.cd.len() as u64;
        z.total_cdh_count = self.cd.len() as u64;
        z.size_of_cd = cd_size as u64;
        z.offset_of_cd_wrt_starting_disk = offset as u64;
        if !force_zip64 {
            match EndOfCentralDirectoryRecord::from_zip64(&z) {
                Some(e) => {
                    self.eocdr = e;
                    self.zip64_eocdl = None;
                    self.zip64_eocdr = None;
                    return Ok(());
                },
                None => {},
            }
        }
        // the fixed part after the size field; there is no extensible data
        // and no version-2 block
        z.size = 44;
        self.eocdr = EndOfCentralDirectoryRecord::all_ff();
        self.zip64_eocdl = Some(Zip64EndOfCentralDirectoryLocator {
            signature: Zip64EndOfCentralDirectoryLocator::SIGNATURE,
            zip64_eocdr_disk_number: 0,
            zip64_eocdr_offset: offset as u64 + z.size_of_cd,
            total_number_of_disks: 1,
        });
        self.zip64_eocdr = Some(z);
        Ok(())
    }

    /// Rebuilds the central directory from the entries, one header per entry
    /// placed at the entry's offset, finalizing each central and local header
    /// on the way; then recomputes the end records.
    pub fn finalize(&mut self) -> (r: Result<(), ZipError>)
        ensures
            r matches Err(e) ==> e == ZipError::DualExtraFields || e == ZipError::ExtraFieldTooLong
                || e == ZipError::ExtraFieldsTooLong || e == ZipError::TooLarge,
            r is Ok ==> finalized_from(*old(self), *final(self)),
            finalize_fits(old(self).files@) ==> r is Ok,
            (exists|i: int| 0 <= i < old(self).files@.len()
                && extras_outcome(#[trigger] old(self).files@[i].lfh.pending(), old(self).files@[i].lfh.extra_fields_raw@.len() as int) is Some)
                ==> r is Err,
    {
        let ghost fits = finalize_fits(self.files@);
        let ghost olds = self.files@;
        self.cd = Vec::new();
        let mut offset: usize = 0;
        let mut i: usize = 0;
        assert(self.files@.subrange(0, 0) =~= Seq::<FileEntry>::empty());
        assert(self.cd@ =~= Seq::<CentralDirectoryHeader>::empty());
        while i < self.files.len()
            invariant
                i <= self.files@.len(),
                olds == old(self).files@,
                fits == finalize_fits(olds),
                fits ==> entries_before(self.files@, i as int) == entries_before(olds, i as int),
                fits ==> concat_encodings(self.cd@).len() == plain_cd_len(olds.subrange(0, i as int)),
                self.files@.len() == old(self).files@.len(),
                self.cd@.len() == i,
                forall|j: int| i <= j < self.files@.len() ==> self.files@[j] == old(self).files@[j],
                forall|j: int| 0 <= j < i ==> #[trigger] entry_finalized(old(self).files@[j], self.files@[j]),
                forall|j: int| 0 <= j < i ==> #[trigger] cdh_for(self.cd@[j], old(self).files@[j], entries_before(self.files@, j)),
                offset == entries_before(self.files@, i as int),
            decreases self.files@.len() - i,
        {
            let ghost prev = self.files@;
            let ghost prev_cd = self.cd@;
            proof {
                if fits {
                    lemma_concat_prefix_grows(olds, i as int);
                    lemma_concat_prefix_grows(olds, i as int + 1);
                    lemma_entries_before_step(olds, i as int);
                    assert(plain_entry(olds[i as int]));
                    assert(self.files@[i as int] == olds[i as int]);
                    lemma_plain_cd_len_step(olds, i as int);
                    lemma_plain_cd_len_prefix(olds, i as int + 1);
                }
            }
            let mut cdh = CentralDirectoryHeader::from_entry(&self.files[i]);
            cdh.set_offset(offset, false);
            let ghost placed = cdh;
            proof {
                if fits {
                    assert(placed.pending() =~= Seq::<ExtraField>::empty());
                }
            }
            match cdh.finalize() {
                Ok(()) => {},
                Err(e) => return Err(e),
            }
            assert(cdh.same_but_extras(&placed));
            proof {
                lemma_cdh_extras(self.files@[i as int], placed, cdh);
            }
            self.cd.push(cdh);
            proof {
                assert(self.cd@.drop_last() =~= prev_cd);
            }
            let ghost lfh_before = self.files@[i as int].lfh;
            proof {
                if fits {
                    assert(lfh_before.pending() =~= Seq::<ExtraField>::empty());
                }
            }
            match self.files[i].lfh.finalize() {
                Ok(()) => {},
                Err(e) => return Err(e),
            }
            proof {
                if fits {
                    assert(self.files@[i as int].lfh.extra_fields@.len() == 0);
                    assert(self.files@[i as int].encoding().len() == olds[i as int].encoding().len());
                }
            }
            let n = match self.files[i].byte_count() {
                Ok(n) => n,
                Err(e) => return Err(e),
            };
            if n > usize::MAX - offset {
                return Err(ZipError::TooLarge);
            }
            proof {
                assert(self.files@.subrange(0, i as int) =~= prev.subrange(0, i as int));
                assert forall|j: int| 0 <= j <= i implies entries_before(self.files@, j) == entries_before(prev, j) by {
                    lemma_entries_before_prefix(self.files@, prev, i as int, j);
                }
                lemma_entries_before_step(self.files@, i as int);
                if fits {
                    assert(olds.subrange(0, i + 1).drop_last() =~= olds.subrange(0, i as int));
                }
                assert forall|j: int| 0 <= j < i + 1 implies #[trigger] cdh_for(self.cd@[j], old(self).files@[j], entries_before(self.files@, j)) by {
                    if j < i {
                        assert(cdh_for(self.cd@[j], old(self).files@[j], entries_before(prev, j)));
                    }
                }
                assert forall|j: int| 0 <= j < i + 1 implies #[trigger] entry_finalized(old(self).files@[j], self.files@[j]) by {
                    if j < i {
                        assert(self.files@[j] == prev[j]);
                    }
                }
            }
            offset = offset + n;
            i += 1;
        }
        proof {
            let n = self.files@.len() as int;
            if n > 0 {
                lemma_entries_before_step(self.files@, n - 1);
                assert(cdh_for(self.cd@[n - 1], old(self).files@[n - 1], entries_before(self.files@, n - 1)));
                assert(self.cd@.last() == self.cd@[n - 1]);
                assert(self.files@.last() == self.files@[n - 1]);
                if entries_before(self.files@, n) <= u32::MAX {
                    assert(self.cd_start() == entries_before(self.files@, n));
                }
            } else {
                assert(self.files@.subrange(0, 0) =~= Seq::<FileEntry>::empty());
                assert(self.cd_start() == entries_before(self.files@, n));
            }
            if fits {
                assert(olds.subrange(0, n) =~= olds);
            }
        }
        let r = self.set_eocd(false);
        proof {
            if r is Ok {
                assert forall|k: int| 0 <= k < old(self).files@.len() implies
                    extras_outcome(#[trigger] old(self).files@[k].lfh.pending(), old(self).files@[k].lfh.extra_fields_raw@.len() as int) is None by {
                    assert(entry_finalized(old(self).files@[k], self.files@[k]));
                }
            }
        }
        r
    }

    /// Places the central headers again, assuming the entry stream starts at
    /// `base`: the `i`-th central header gets the offset of the `i`-th entry
    /// (pairing entries and headers up to the shorter list), each central
    /// and local header is finalized on the way, and the end records are
    /// recomputed.
    pub fn set_offsets(&mut self, base: usize) -> (r: Result<(), ZipError>)
        ensures
            r matches Err(e) ==> e == ZipError::DualExtraFields || e == ZipError::ExtraFieldTooLong
                || e == ZipError::ExtraFieldsTooLong || e == ZipError::TooLarge,
            r is Ok ==> {
                &&& final(self).files@.len() == old(self).files@.len()
                &&& final(self).cd@.len() == old(self).cd@.len()
                &&& forall|i: int| 0 <= i < old(self).files@.len() && i < old(self).cd@.len()
                    ==> #[trigger] entry_finalized(old(self).files@[i], final(self).files@[i])
                &&& forall|i: int| 0 <= i < old(self).files@.len() && i < old(self).cd@.len()
                    ==> (#[trigger] final(self).cd@[i]).relative_header_offset
                        == sized(base + entries_before(final(self).files@, i), false).0
                &&& forall|i: int| 0 <= i < old(self).files@.len() && i < old(self).cd@.len() ==> {
                    &&& (#[trigger] final(self).cd@[i]).zip64.relative_header_offset
                        == sized(base + entries_before(final(self).files@, i), false).1
                    &&& final(self).cd@[i].same_core(&old(self).cd@[i])
                    &&& final(self).cd@[i].zip64.original_size == old(self).cd@[i].zip64.original_size
                    &&& final(self).cd@[i].zip64.compressed_size == old(self).cd@[i].zip64.compressed_size
                    &&& final(self).cd@[i].zip64.disk_start_number == old(self).cd@[i].zip64.disk_start_number
                }
                &&& forall|i: int| old(self).files@.len() <= i < old(self).cd@.len() ==> #[trigger] final(self).cd@[i] == old(self).cd@[i]
                &&& forall|i: int| old(self).cd@.len() <= i < old(self).files@.len() ==> #[trigger] final(self).files@[i] == old(self).files@[i]
                &&& eocd_recomputed(*final(self), final(self).cd@.len() as int, final(self).cd.encoding().len() as int,
                    final(self).cd_start(), false)
            },
            set_offsets_fits(*old(self), base as int) ==> r is Ok,
    {
        let ghost fits = set_offsets_fits(*self, base as int);
        let ghost olds = self.files@;
        let ghost old_cd = self.cd@;
        let mut offset: usize = base;
        let mut i: usize = 0;
        assert(self.files@.subrange(0, 0) =~= Seq::<FileEntry>::empty());
        while i < self.files.len() && i < self.cd.len()
            invariant
                olds == old(self).files@,
                old_cd == old(self).cd@,
                fits == set_offsets_fits(*old(self), base as int),
                fits ==> entries_before(self.files@, i as int) == entries_before(olds, i as int),
                forall|j: int| i <= j < self.cd@.len() ==> self.cd@[j] == old_cd[j],
                fits ==> forall|j: int| 0 <= j < i ==> (#[trigger] self.cd@[j]).encoding().len() == old_cd[j].encoding().len(),
                i <= self.files@.len(),
                i <= self.cd@.len(),
                self.files@.len() == old(self).files@.len(),
                self.cd@.len() == old(self).cd@.len(),
                forall|j: int| i <= j < self.files@.len() ==> self.files@[j] == old(self).files@[j],
                forall|j: int| 0 <= j < i ==> #[trigger] entry_finalized(old(self).files@[j], self.files@[j]),
                forall|j: int| 0 <= j < i ==> (#[trigger] self.cd@[j]).relative_header_offset
                    == sized(base + entries_before(self.files@, j), false).0,
                forall|j: int| 0 <= j < i ==> {
                    &&& (#[trigger] self.cd@[j]).zip64.relative_header_offset == sized(base + entries_before(self.files@, j), false).1
                    &&& self.cd@[j].same_core(&old_cd[j])
                    &&& self.cd@[j].zip64.original_size == old_cd[j].zip64.original_size
                    &&& self.cd@[j].zip64.compressed_size == old_cd[j].zip64.compressed_size
                    &&& self.cd@[j].zip64.disk_start_number == old_cd[j].zip64.disk_start_number
                },
                offset == base + entries_before(self.files@, i as int),
            decreases self.files@.len() - i,
        {
            let ghost prev = self.files@;
            let ghost prev_cd = self.cd@;
            proof {
                if fits {
                    lemma_concat_prefix_grows(olds, i as int);
                    lemma_concat_prefix_grows(olds, i as int + 1);
                    lemma_entries_before_step(olds, i as int);
                    assert(plain_entry(olds[i as int]));
                    assert(plain_cdh(old_cd[i as int]));
                    assert(self.files@[i as int] == olds[i as int]);
                }
            }
            self.cd[i].set_offset(offset, false);
            let ghost placed = self.cd@[i as int];
            proof {
                if fits {
                    assert(placed.pending() =~= Seq::<ExtraField>::empty());
                }
            }
            match self.cd[i].finalize() {
                Ok(()) => {},
                Err(e) => return Err(e),
            }
            proof {
                if fits {
                    assert(self.cd@[i as int].extra_fields@.len() == 0);
                    assert(self.cd@[i as int].encoding().len() == old_cd[i as int].encoding().len());
                }
            }
            let ghost lfh_before = self.files@[i as int].lfh;
            proof {
                if fits {
                    assert(lfh_before.pending() =~= Seq::<ExtraField>::empty());
                }
            }
            match self.files[i].lfh.finalize() {
                Ok(()) => {},
                Err(e) => return Err(e),
            }
            proof {
                if fits {
                    assert(self.files@[i as int].lfh.extra_fields@.len() == 0);
                    assert(self.files@[i as int].encoding().len() == olds[i as int].encoding().len());
                }
            }
            let n = match self.files[i].byte_count() {
                Ok(n) => n,
                Err(e) => return Err(e),
            };
            if n > usize::MAX - offset {
                return Err(ZipError::TooLarge);
            }
            proof {
                assert(self.files@.subrange(0, i as int) =~= prev.subrange(0, i as int));
                assert forall|j: int| 0 <= j <= i implies entries_before(self.files@, j) == entries_before(prev, j) by {
                    lemma_entries_before_prefix(self.files@, prev, i as int, j);
                }
                lemma_entries_before_step(self.files@, i as int);
                assert forall|j: int| 0 <= j < i + 1 implies (#[trigger] self.cd@[j]).relative_header_offset
                    == sized(base + entries_before(self.files@, j), false).0 by {
                    if j < i {
                        assert(self.cd@[j] == prev_cd[j]);
                    }
                }
                assert forall|j: int| 0 <= j < i + 1 implies {
                    &&& (#[trigger] self.cd@[j]).zip64.relative_header_offset == sized(base + entries_before(self.files@, j), false).1
                    &&& self.cd@[j].same_core(&old_cd[j])
                    &&& self.cd@[j].zip64.original_size == old_cd[j].zip64.original_size
                    &&& self.cd@[j].zip64.compressed_size == old_cd[j].zip64.compressed_size
                    &&& self.cd@[j].zip64.disk_start_number == old_cd[j].zip64.disk_start_number
                } by {
                    if j < i {
                        assert(self.cd@[j] == prev_cd[j]);
                    }
                }
                if fits {
                    assert forall|j: int| 0 <= j < i + 1 implies (#[trigger] self.cd@[j]).encoding().len() == old_cd[j].encoding().len() by {
                        if j < i {
                            assert(self.cd@[j] == prev_cd[j]);
                        }
                    }
                }
                assert forall|j: int| 0 <= j < i + 1 implies #[trigger] entry_finalized(old(self).files@[j], self.files@[j]) by {
                    if j < i {
                        assert(self.files@[j] == prev[j]);
                    }
                }
            }
            offset = offset + n;
            i += 1;
        }
        proof {
            if fits {
                let n = self.files@.len() as int;
                assert(olds.subrange(0, n) =~= olds);
                lemma_cd_len_pointwise(self.cd@, old_cd);
                if n > 0 {
                    lemma_entries_before_step(self.files@, n - 1);
                    assert(self.cd@.last() == self.cd@[n - 1]);
                    assert(self.files@.last() == self.files@[n - 1]);
                    assert(self.cd_start() == base + entries_before(self.files@, n));
                }
            }
        }
        self.set_eocd(false)
    }
}

} // verus!
