//! The end-of-central-directory records: the classic one, the ZIP64 one with
//! its optional version-2 block and extensible data, and the ZIP64 locator.

use crate::encode::{concat_encodings, BinCount, BinaryEncode};
use crate::error::ZipError;
use crate::extra::{same_payload, ExtraFieldData, ExtraFieldType};
use crate::fields::CompressionMethod;
use crate::le::{le16, le32, le64, push_bytes, push_u16, push_u32, push_u64};
use vstd::prelude::*;

verus! {

broadcast use crate::le::group_le_lengths;

/// The classic end-of-central-directory record.
#[derive(Clone, Debug)]
pub struct EndOfCentralDirectoryRecord {
    pub signature: u32,
    pub number_of_this_disk: u16,
    /// number of the disk with the start of the central directory
    pub start_of_cd_disk_number: u16,
    /// total number of entries in the central directory on this disk
    pub this_disk_cdh_count: u16,
    /// total number of entries in the central directory
    pub total_cdh_count: u16,
    /// size of the central directory
    pub size_of_cd: u32,
    /// offset of start of central directory with respect to the starting disk number
    pub offset_of_cd_wrt_starting_disk: u32,
    pub zip_file_comment_length: u16,
    pub zip_file_comment: Vec<u8>,
}

impl EndOfCentralDirectoryRecord {
    pub const SIGNATURE: u32 = 0x06054b50;

    /// The record with the signature and every other field zero or empty.
    pub fn new() -> (r: Self)
        ensures
            r.signature == Self::SIGNATURE,
            r.number_of_this_disk == 0,
            r.start_of_cd_disk_number == 0,
            r.this_disk_cdh_count == 0,
            r.total_cdh_count == 0,
            r.size_of_cd == 0,
            r.offset_of_cd_wrt_starting_disk == 0,
            r.zip_file_comment_length == 0,
            r.zip_file_comment@.len() == 0,
    {
        EndOfCentralDirectoryRecord {
            signature: Self::SIGNATURE,
            number_of_this_disk: 0,
            start_of_cd_disk_number: 0,
            this_disk_cdh_count: 0,
            total_cdh_count: 0,
            size_of_cd: 0,
            offset_of_cd_wrt_starting_disk: 0,
            zip_file_comment_length: 0,
            zip_file_comment: Vec::new(),
        }
    }

    /// The record whose every number is its all-ones sentinel ("see ZIP64"),
    /// with no comment.
    pub fn all_ff() -> (r: Self)
        ensures
            r.signature == Self::SIGNATURE,
            r.number_of_this_disk == u16::MAX,
            r.start_of_cd_disk_number == u16::MAX,
            r.this_disk_cdh_count == u16::MAX,
            r.total_cdh_count == u16::MAX,
            r.size_of_cd == u32::MAX,
            r.offset_of_cd_wrt_starting_disk == u32::MAX,
            r.zip_file_comment_length == 0,
            r.zip_file_comment@.len() == 0,
    {
        EndOfCentralDirectoryRecord {
            signature: Self::SIGNATURE,
            number_of_this_disk: 0xffff,
            start_of_cd_disk_number: 0xffff,
            this_disk_cdh_count: 0xffff,
            total_cdh_count: 0xffff,
            size_of_cd: 0xffff_ffff,
            offset_of_cd_wrt_starting_disk: 0xffff_ffff,
            zip_file_comment_length: 0,
            zip_file_comment: Vec::new(),
        }
    }

    /// Every number of `z` fits its classic field.
    pub open spec fn fits(z: &Zip64EndOfCentralDirectoryRecord) -> bool {
        &&& z.number_of_this_disk <= u16::MAX
        &&& z.start_of_cd_disk_number <= u16::MAX
        &&& z.this_disk_cdh_count <= u16::MAX
        &&& z.total_cdh_count <= u16::MAX
        &&& z.size_of_cd <= u32::MAX
        &&& z.offset_of_cd_wrt_starting_disk <= u32::MAX
    }

    /// The classic record with the numbers of `z`, when every one of them
    /// fits its narrower field.
    pub fn from_zip64(z: &Zip64EndOfCentralDirectoryRecord) -> (r: Option<Self>)
        ensures
            r is Some <==> Self::fits(z),
            r matches Some(e) ==> {
                &&& e.signature == Self::SIGNATURE
                &&& e.number_of_this_disk == z.number_of_this_disk
                &&& e.start_of_cd_disk_number == z.start_of_cd_disk_number
                &&& e.this_disk_cdh_count == z.this_disk_cdh_count
                &&& e.total_cdh_count == z.total_cdh_count
                &&& e.size_of_cd == z.size_of_cd
                &&& e.offset_of_cd_wrt_starting_disk == z.offset_of_cd_wrt_starting_disk
                &&& e.zip_file_comment_length == 0
                &&& e.zip_file_comment@.len() == 0
            },
    {
        if z.number_of_this_disk > 0xffff || z.start_of_cd_disk_number > 0xffff
            || z.this_disk_cdh_count > 0xffff || z.total_cdh_count > 0xffff
            || z.size_of_cd > 0xffff_ffff || z.offset_of_cd_wrt_starting_disk > 0xffff_ffff
        {
            return None;
        }
        Some(EndOfCentralDirectoryRecord {
            signature: Self::SIGNATURE,
            number_of_this_disk: z.number_of_this_disk as u16,
            start_of_cd_disk_number: z.start_of_cd_disk_number as u16,
            this_disk_cdh_count: z.this_disk_cdh_count as u16,
            total_cdh_count: z.total_cdh_count as u16,
            size_of_cd: z.size_of_cd as u32,
            offset_of_cd_wrt_starting_disk: z.offset_of_cd_wrt_starting_disk as u32,
            zip_file_comment_length: 0,
            zip_file_comment: Vec::new(),
        })
    }
}

impl BinaryEncode for EndOfCentralDirectoryRecord {
    open spec fn encoding(&self) -> Seq<u8> {
        le32(self.signature) + le16(self.number_of_this_disk) + le16(self.start_of_cd_disk_number)
            + le16(self.this_disk_cdh_count) + le16(self.total_cdh_count) + le32(self.size_of_cd)
            + le32(self.offset_of_cd_wrt_starting_disk) + le16(self.zip_file_comment_length)
            + self.zip_file_comment@
    }

    fn write(&self, out: &mut Vec<u8>) {
        push_u32(out, self.signature);
        push_u16(out, self.number_of_this_disk);
        push_u16(out, self.start_of_cd_disk_number);
        push_u16(out, self.this_disk_cdh_count);
        push_u16(out, self.total_cdh_count);
        push_u32(out, self.size_of_cd);
        push_u32(out, self.offset_of_cd_wrt_starting_disk);
        push_u16(out, self.zip_file_comment_length);
        push_bytes(out, self.zip_file_comment.as_slice());
        assert(out@ =~= old(out)@ + self.encoding());
    }
}

impl BinCount for EndOfCentralDirectoryRecord {
    fn byte_count(&self) -> (r: Result<usize, ZipError>) {
        let n = self.zip_file_comment.len();
        if n > usize::MAX - 22 {
            return Err(ZipError::TooLarge);
        }
        Ok(22 + n)
    }
}

/// The ZIP64 end-of-central-directory locator.
#[derive(Clone, Copy, Debug, PartialEq, Eq, Structural)]
pub struct Zip64EndOfCentralDirectoryLocator {
    pub signature: u32,
    /// number of the disk with the start of the zip64 end of central directory
    pub zip64_eocdr_disk_number: u32,
    /// relative offset of the zip64 end of central directory record
    pub zip64_eocdr_offset: u64,
    pub total_number_of_disks: u32,
}

impl Zip64EndOfCentralDirectoryLocator {
    pub const SIGNATURE: u32 = 0x07064b50;

    pub open spec fn spec_from_offset(offset: u64) -> Self {
        Zip64EndOfCentralDirectoryLocator {
            signature: Self::SIGNATURE,
            zip64_eocdr_disk_number: 0,
            zip64_eocdr_offset: offset,
            total_number_of_disks: 1,
        }
    }

    /// A locator on disk 0 of 1 pointing at `offset`.
    pub fn from_offset(offset: u64) -> (r: Self)
        ensures
            r == Self::spec_from_offset(offset),
    {
        Zip64EndOfCentralDirectoryLocator {
            signature: Self::SIGNATURE,
            zip64_eocdr_disk_number: 0,
            zip64_eocdr_offset: offset,
            total_number_of_disks: 1,
        }
    }
}

impl BinaryEncode for Zip64EndOfCentralDirectoryLocator {
    open spec fn encoding(&self) -> Seq<u8> {
        le32(self.signature) + le32(self.zip64_eocdr_disk_number) + le64(self.zip64_eocdr_offset)
            + le32(self.total_number_of_disks)
    }

    fn write(&self, out: &mut Vec<u8>) {
        push_u32(out, self.signature);
        push_u32(out, self.zip64_eocdr_disk_number);
        push_u64(out, self.zip64_eocdr_offset);
        push_u32(out, self.total_number_of_disks);
        assert(out@ =~= old(out)@ + self.encoding());
    }
}

impl BinCount for Zip64EndOfCentralDirectoryLocator {
    fn byte_count(&self) -> (r: Result<usize, ZipError>) {
        Ok(20)
    }
}

/// The version-2 block of a ZIP64 end-of-central-directory record.
#[derive(Clone, Debug)]
pub struct Zip64EocdrV2 {
    pub compression_method: CompressionMethod,
    pub compressed_size: u64,
    pub original_size: u64,
    pub encrypt_alg: u16,
    pub key_bit_len: u16,
    pub encrypt_flags: u16,
    pub hash_alg: u16,
    pub hash_len: u16,
    pub hash_data: Vec<u8>,
}

impl BinaryEncode for Zip64EocdrV2 {
    open spec fn encoding(&self) -> Seq<u8> {
        le16(self.compression_method.0) + le64(self.compressed_size) + le64(self.original_size)
            + le16(self.encrypt_alg) + le16(self.key_bit_len) + le16(self.encrypt_flags)
            + le16(self.hash_alg) + le16(self.hash_len) + self.hash_data@
    }

    fn write(&self, out: &mut Vec<u8>) {
        push_u16(out, self.compression_method.0);
        push_u64(out, self.compressed_size);
        push_u64(out, self.original_size);
        push_u16(out, self.encrypt_alg);
        push_u16(out, self.key_bit_len);
        push_u16(out, self.encrypt_flags);
        push_u16(out, self.hash_alg);
        push_u16(out, self.hash_len);
        push_bytes(out, self.hash_data.as_slice());
        assert(out@ =~= old(out)@ + self.encoding());
    }
}

impl BinCount for Zip64EocdrV2 {
    fn byte_count(&self) -> (r: Result<usize, ZipError>) {
        let n = self.hash_data.len();
        if n > usize::MAX - 28 {
            return Err(ZipError::TooLarge);
        }
        Ok(28 + n)
    }
}

/// One item of the ZIP64 extensible data sector: like an extra field, with a
/// 32-bit size.
#[derive(Clone, Debug)]
pub struct Zip64ExtensibleDataSector {
    pub header_id: u16,
    pub size: u32,
    pub data: ExtraFieldData,
}

impl Zip64ExtensibleDataSector {
    /// An item around `data`, with id and size still zero.
    pub fn from_data(data: ExtraFieldData) -> (r: Self)
        ensures
            r.header_id == 0,
            r.size == 0,
            r.data == data,
    {
        Zip64ExtensibleDataSector { header_id: 0, size: 0, data }
    }

    /// Sets the header id from the payload kind and the size from the
    /// payload's encoded length.
    pub fn finalize(&mut self) -> (r: Result<(), ZipError>)
        ensures
            r is Ok <==> old(self).data.encoding().len() <= u32::MAX,
            r matches Err(e) ==> e == ZipError::ExtraFieldTooLong && *final(self) == *old(self),
            r is Ok ==> final(self).header_id == old(self).data.spec_header_id()
                && final(self).size == old(self).data.encoding().len()
                && final(self).data == old(self).data,
    {
        let n = match self.data.byte_count() {
            Ok(n) => n,
            Err(_) => return Err(ZipError::ExtraFieldTooLong),
        };
        if n > 0xffff_ffff {
            return Err(ZipError::ExtraFieldTooLong);
        }
        self.header_id = self.data.header_id();
        self.size = n as u32;
        Ok(())
    }

    pub fn duplicate(&self) -> (r: Self)
        ensures
            r.header_id == self.header_id,
            r.size == self.size,
            same_payload(r.data, self.data),
    {
        Zip64ExtensibleDataSector { header_id: self.header_id, size: self.size, data: self.data.duplicate() }
    }
}

impl BinaryEncode for Zip64ExtensibleDataSector {
    open spec fn encoding(&self) -> Seq<u8> {
        le16(self.header_id) + le32(self.size) + self.data.encoding()
    }

    fn write(&self, out: &mut Vec<u8>) {
        push_u16(out, self.header_id);
        push_u32(out, self.size);
        self.data.write(out);
        assert(out@ =~= old(out)@ + self.encoding());
    }
}

impl BinCount for Zip64ExtensibleDataSector {
    fn byte_count(&self) -> (r: Result<usize, ZipError>) {
        let n = self.data.byte_count()?;
        if n > usize::MAX - 6 {
            return Err(ZipError::TooLarge);
        }
        Ok(6 + n)
    }
}

pub open spec fn opt_v2_encoding(v2: Option<Zip64EocdrV2>) -> Seq<u8> {
    match v2 {
        Some(v) => v.encoding(),
        None => Seq::empty(),
    }
}

/// `new` is `old` with each item's id and size set from its payload.
pub open spec fn sectors_finalized(old: Seq<Zip64ExtensibleDataSector>, new: Seq<Zip64ExtensibleDataSector>) -> bool {
    &&& new.len() == old.len()
    &&& forall|i: int|
        0 <= i < new.len() ==> {
            &&& same_payload(#[trigger] new[i].data, old[i].data)
            &&& new[i].header_id == old[i].data.spec_header_id()
            &&& new[i].size == old[i].data.encoding().len()
        }
}

/// The encoded length of `s` once every item's size matches its payload:
/// six header bytes and the payload, for each item.
pub open spec fn sectors_total(s: Seq<Zip64ExtensibleDataSector>) -> int
    decreases s.len(),
{
    if s.len() == 0 {
        0
    } else {
        sectors_total(s.drop_last()) + 6 + s.last().data.encoding().len()
    }
}

/// Every payload of `s` fits a 32-bit size field.
pub open spec fn sector_payloads_fit(s: Seq<Zip64ExtensibleDataSector>) -> bool {
    forall|i: int| 0 <= i < s.len() ==> (#[trigger] s[i]).data.encoding().len() <= u32::MAX
}

proof fn lemma_sectors_len(old: Seq<Zip64ExtensibleDataSector>, new: Seq<Zip64ExtensibleDataSector>)
    requires
        sectors_finalized(old, new),
    ensures
        concat_encodings(new).len() == sectors_total(old),
    decreases old.len(),
{
    if old.len() > 0 {
        let o = old.drop_last();
        let n = new.drop_last();
        assert(sectors_finalized(o, n)) by {
            assert forall|i: int| 0 <= i < n.len() implies {
                &&& same_payload(#[trigger] n[i].data, o[i].data)
                &&& n[i].header_id == o[i].data.spec_header_id()
                &&& n[i].size == o[i].data.encoding().len()
            } by {
                assert(n[i] == new[i]);
                assert(o[i] == old[i]);
            }
        }
        lemma_sectors_len(o, n);
        assert(same_payload(new[new.len() - 1].data, old[old.len() - 1].data));
    }
}

/// The ZIP64 end-of-central-directory record.
#[derive(Clone, Debug)]
pub struct Zip64EndOfCentralDirectoryRecord {
    pub signature: u32,
    /// size of the record after this field
    pub size: u64,
    pub version_made_by: u16,
    pub version_needed: u16,
    pub number_of_this_disk: u32,
    /// number of the disk with the start of the central directory
    pub start_of_cd_disk_number: u32,
    /// total number of entries in the central directory on this disk
    pub this_disk_cdh_count: u64,
    /// total number of entries in the central directory
    pub total_cdh_count: u64,
    /// size of the central directory
    pub size_of_cd: u64,
    /// offset of start of central directory with respect to the starting disk number
    pub offset_of_cd_wrt_starting_disk: u64,
    pub v2: Option<Zip64EocdrV2>,
    pub extensible_data_sector: Vec<Zip64ExtensibleDataSector>,
}

impl Zip64EndOfCentralDirectoryRecord {
    pub const SIGNATURE: u32 = 0x06064b50;

    /// The record with the signature, versions 20, and every other field zero
    /// or empty.
    pub fn new() -> (r: Self)
        ensures
            r.signature == Self::SIGNATURE,
            r.size == 0,
            r.version_made_by == 20,
            r.version_needed == 20,
            r.number_of_this_disk == 0,
            r.start_of_cd_disk_number == 0,
            r.this_disk_cdh_count == 0,
            r.total_cdh_count == 0,
            r.size_of_cd == 0,
            r.offset_of_cd_wrt_starting_disk == 0,
            r.v2 is None,
            r.extensible_data_sector@.len() == 0,
    {
        Zip64EndOfCentralDirectoryRecord {
            signature: Self::SIGNATURE,
            size: 0,
            version_made_by: 20,
            version_needed: 20,
            number_of_this_disk: 0,
            start_of_cd_disk_number: 0,
            this_disk_cdh_count: 0,
            total_cdh_count: 0,
            size_of_cd: 0,
            offset_of_cd_wrt_starting_disk: 0,
            v2: None,
            extensible_data_sector: Vec::new(),
        }
    }

    /// The value `size` should hold: the 44 fixed bytes after it, the
    /// extensible data sector and the version-2 block.
    pub open spec fn record_size(&self) -> int {
        (44 + self.extensible_data_sector.encoding().len() + opt_v2_encoding(self.v2).len()) as int
    }

    /// Every field but `size` and the extensible data sector agrees.
    pub open spec fn same_but_size(&self, o: &Self) -> bool {
        &&& self.signature == o.signature
        &&& self.version_made_by == o.version_made_by
        &&& self.version_needed == o.version_needed
        &&& self.number_of_this_disk == o.number_of_this_disk
        &&& self.start_of_cd_disk_number == o.start_of_cd_disk_number
        &&& self.this_disk_cdh_count == o.this_disk_cdh_count
        &&& self.total_cdh_count == o.total_cdh_count
        &&& self.size_of_cd == o.size_of_cd
        &&& self.offset_of_cd_wrt_starting_disk == o.offset_of_cd_wrt_starting_disk
        &&& self.v2 == o.v2
    }

    /// Finalizes every item of the extensible data sector, then sets `size`
    /// to the length of what follows it.
    pub fn finalize(&mut self) -> (r: Result<(), ZipError>)
        ensures
            final(self).same_but_size(old(self)),
            r is Ok ==> sectors_finalized(old(self).extensible_data_sector@, final(self).extensible_data_sector@),
            r is Ok ==> final(self).size == final(self).record_size(),
            r is Ok ==> forall|i: int| 0 <= i < old(self).extensible_data_sector@.len()
                ==> (#[trigger] old(self).extensible_data_sector@[i]).data.encoding().len() <= u32::MAX,
            r matches Err(e) && e == ZipError::ExtraFieldTooLong ==> exists|i: int| 0 <= i < old(self).extensible_data_sector@.len()
                && (#[trigger] old(self).extensible_data_sector@[i]).data.encoding().len() > u32::MAX,
            sector_payloads_fit(old(self).extensible_data_sector@)
                && 44 + sectors_total(old(self).extensible_data_sector@) + opt_v2_encoding(old(self).v2).len() <= u32::MAX ==> r is Ok,
            r matches Err(e) ==> e == ZipError::ExtraFieldTooLong || e == ZipError::TooLarge,
    {
        let mut done: Vec<Zip64ExtensibleDataSector> = Vec::new();
        let mut i: usize = 0;
        while i < self.extensible_data_sector.len()
            invariant
                i <= self.extensible_data_sector@.len(),
                *self == *old(self),
                sectors_finalized(self.extensible_data_sector@.subrange(0, i as int), done@),
                forall|j: int| 0 <= j < i ==> (#[trigger] self.extensible_data_sector@[j]).data.encoding().len() <= u32::MAX,
            decreases self.extensible_data_sector@.len() - i,
        {
            let mut f = self.extensible_data_sector[i].duplicate();
            match f.finalize() {
                Ok(()) => {},
                Err(e) => {
                    assert(self.extensible_data_sector@[i as int].data.encoding().len() > u32::MAX);
                    assert(!sector_payloads_fit(old(self).extensible_data_sector@));
                    return Err(e);
                },
            }
            done.push(f);
            proof {
                let s = self.extensible_data_sector@.subrange(0, i + 1);
                assert forall|j: int| 0 <= j < done@.len() implies {
                    &&& same_payload(#[trigger] done@[j].data, s[j].data)
                    &&& done@[j].header_id == s[j].data.spec_header_id()
                    &&& done@[j].size == s[j].data.encoding().len()
                } by {
                    if j < i {
                        assert(s[j] == self.extensible_data_sector@.subrange(0, i as int)[j]);
                    }
                }
            }
            i += 1;
        }
        proof {
            assert(self.extensible_data_sector@.subrange(0, self.extensible_data_sector@.len() as int) =~= self.extensible_data_sector@);
            lemma_sectors_len(self.extensible_data_sector@, done@);
        }
        self.extensible_data_sector = done;
        let ext = match self.extensible_data_sector.byte_count() {
            Ok(n) => n,
            Err(_) => return Err(ZipError::TooLarge),
        };
        let v2: usize = match &self.v2 {
            Some(v) => match v.byte_count() {
                Ok(n) => n,
                Err(_) => return Err(ZipError::TooLarge),
            },
            None => 0,
        };
        if ext as u64 > u64::MAX - 44 || v2 as u64 > u64::MAX - 44 - ext as u64 {
            return Err(ZipError::TooLarge);
        }
        self.size = 44 + ext as u64 + v2 as u64;
        Ok(())
    }

    /// Turns the record into version 2: versions 62, and a version-2 block
    /// whose sizes are the central directory size; then finalizes.
    pub fn use_v2(&mut self) -> (r: Result<(), ZipError>)
        ensures
            final(self).signature == old(self).signature,
            final(self).version_made_by == 62,
            final(self).version_needed == 62,
            final(self).v2 matches Some(v) && v.compressed_size == old(self).size_of_cd
                && v.original_size == old(self).size_of_cd && v.compression_method.0 == 0
                && v.encrypt_alg == 0 && v.key_bit_len == 0 && v.encrypt_flags == 0
                && v.hash_alg == 0 && v.hash_len == 0 && v.hash_data@.len() == 0,
            final(self).number_of_this_disk == old(self).number_of_this_disk,
            final(self).start_of_cd_disk_number == old(self).start_of_cd_disk_number,
            final(self).this_disk_cdh_count == old(self).this_disk_cdh_count,
            final(self).total_cdh_count == old(self).total_cdh_count,
            final(self).size_of_cd == old(self).size_of_cd,
            final(self).offset_of_cd_wrt_starting_disk == old(self).offset_of_cd_wrt_starting_disk,
            r is Ok ==> final(self).size == final(self).record_size(),
            sector_payloads_fit(old(self).extensible_data_sector@)
                && 44 + sectors_total(old(self).extensible_data_sector@) + 28 <= u32::MAX ==> r is Ok,
    {
        self.version_made_by = 62;
        self.version_needed = 62;
        self.v2 = Some(Zip64EocdrV2 {
            compression_method: CompressionMethod(0),
            compressed_size: self.size_of_cd,
            original_size: self.size_of_cd,
            encrypt_alg: 0,
            key_bit_len: 0,
            encrypt_flags: 0,
            hash_alg: 0,
            hash_len: 0,
            hash_data: Vec::new(),
        });
        self.finalize()
    }
}

impl BinaryEncode for Zip64EndOfCentralDirectoryRecord {
    open spec fn encoding(&self) -> Seq<u8> {
        le32(self.signature) + le64(self.size) + le16(self.version_made_by) + le16(self.version_needed)
            + le32(self.number_of_this_disk) + le32(self.start_of_cd_disk_number)
            + le64(self.this_disk_cdh_count) + le64(self.total_cdh_count) + le64(self.size_of_cd)
            + le64(self.offset_of_cd_wrt_starting_disk) + opt_v2_encoding(self.v2)
            + self.extensible_data_sector.encoding()
    }

    fn write(&self, out: &mut Vec<u8>) {
        push_u32(out, self.signature);
        push_u64(out, self.size);
        push_u16(out, self.version_made_by);
        push_u16(out, self.version_needed);
        push_u32(out, self.number_of_this_disk);
        push_u32(out, self.start_of_cd_disk_number);
        push_u64(out, self.this_disk_cdh_count);
        push_u64(out, self.total_cdh_count);
        push_u64(out, self.size_of_cd);
        push_u64(out, self.offset_of_cd_wrt_starting_disk);
        match &self.v2 {
            Some(v) => v.write(out),
            None => {},
        }
        self.extensible_data_sector.write(out);
        assert(out@ =~= old(out)@ + self.encoding());
    }
}

impl BinCount for Zip64EndOfCentralDirectoryRecord {
    fn byte_count(&self) -> (r: Result<usize, ZipError>) {
        let ext = self.extensible_data_sector.byte_count()?;
        let v2: usize = match &self.v2 {
            Some(v) => v.byte_count()?,
            None => 0,
        };
        if ext > usize::MAX - 56 {
            return Err(ZipError::TooLarge);
        }
        if v2 > usize::MAX - 56 - ext {
            return Err(ZipError::TooLarge);
        }
        Ok(56 + v2 + ext)
    }
}

} // verus!
