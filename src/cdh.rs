//! The central directory header.

use crate::dd::DataDescriptor;
use crate::encode::{BinCount, BinaryEncode};
use crate::error::ZipError;
use crate::extra::{copy_fields, fields_copied, fields_finalized, finalize_extras, ExtraField, ExtraFieldData, Zip64ExtendedInfo};
use crate::fields::{CompressionMethod, DosDateTime, GeneralPurposeFlag, InternalFileAttributes};
use crate::le::{le16, le32, push_bytes, push_u16, push_u32};
use crate::lfh::{extras_length, extras_outcome, pending_extras, place_zip64, zip64_field, LocalFileHeader};
use crate::zip::FileEntry;
use vstd::prelude::*;

verus! {

broadcast use crate::le::group_le_lengths;

/// A central directory header: the local header's fields and more. Its
/// shadow `zip64` is not written; `finalize` turns it into an extra field.
#[derive(Clone, Debug)]
pub struct CentralDirectoryHeader {
    pub signature: u32,
    pub version_made_by: u16,
    pub version_needed: u16,
    pub general_purpose_flag: GeneralPurposeFlag,
    pub compression_method: CompressionMethod,
    pub last_mod: DosDateTime,
    pub crc32: u32,
    pub compressed_size: u32,
    pub uncompressed_size: u32,
    pub file_name_length: u16,
    pub extra_field_length: u16,
    pub file_comment_length: u16,
    pub disk_number_start: u16,
    pub internal_file_attributes: InternalFileAttributes,
    pub external_file_attributes: u32,
    pub relative_header_offset: u32,
    pub file_name: Vec<u8>,
    pub extra_fields: Vec<ExtraField>,
    /// only one of `extra_fields` and `extra_fields_raw` may be non-empty
    pub extra_fields_raw: Vec<u8>,
    pub file_comment: Vec<u8>,
    pub zip64: Zip64ExtendedInfo,
}

impl CentralDirectoryHeader {
    pub const SIGNATURE: u32 = 0x02014b50;

    /// The fields taken from a local header (all but CRC-32 and sizes) agree
    /// with `lfh`, and those only the central header has are at their defaults.
    pub open spec fn based_on(&self, lfh: &LocalFileHeader) -> bool {
        &&& self.signature == Self::SIGNATURE
        &&& self.version_made_by == lfh.version_needed
        &&& self.version_needed == lfh.version_needed
        &&& self.general_purpose_flag == lfh.general_purpose_flag
        &&& self.compression_method == lfh.compression_method
        &&& self.last_mod == lfh.last_mod
        &&& self.file_name_length == lfh.file_name_length
        &&& self.extra_field_length == lfh.extra_field_length
        &&& self.file_comment_length == 0
        &&& self.disk_number_start == 0
        &&& self.internal_file_attributes.0 == 0
        &&& self.external_file_attributes == 0
        &&& self.relative_header_offset == 0
        &&& self.file_name@ == lfh.file_name@
        &&& fields_copied(lfh.extra_fields@, self.extra_fields@)
        &&& self.extra_fields_raw@ == lfh.extra_fields_raw@
        &&& self.file_comment@.len() == 0
        &&& self.zip64 == lfh.zip64
    }

    /// The central header that repeats `lfh`.
    pub fn from_lfh(lfh: &LocalFileHeader) -> (r: Self)
        ensures
            r.based_on(lfh),
            r.crc32 == lfh.crc32,
            r.compressed_size == lfh.compressed_size,
            r.uncompressed_size == lfh.uncompressed_size,
    {
        CentralDirectoryHeader {
            signature: Self::SIGNATURE,
            version_made_by: lfh.version_needed,
            version_needed: lfh.version_needed,
            general_purpose_flag: lfh.general_purpose_flag,
            compression_method: lfh.compression_method,
            last_mod: lfh.last_mod,
            crc32: lfh.crc32,
            compressed_size: lfh.compressed_size,
            uncompressed_size: lfh.uncompressed_size,
            file_name_length: lfh.file_name_length,
            extra_field_length: lfh.extra_field_length,
            file_comment_length: 0,
            disk_number_start: 0,
            internal_file_attributes: InternalFileAttributes(0),
            external_file_attributes: 0,
            relative_header_offset: 0,
            file_name: lfh.file_name.clone(),
            extra_fields: copy_fields(&lfh.extra_fields),
            extra_fields_raw: lfh.extra_fields_raw.clone(),
            file_comment: Vec::new(),
            zip64: lfh.zip64,
        }
    }

    /// The central header of an entry: as for its local header, but where the
    /// entry has a data descriptor the CRC-32 and the sizes come from it, each
    /// size clamped to 32 bits.
    pub fn from_entry(fe: &FileEntry) -> (r: Self)
        ensures
            r.based_on(&fe.lfh),
            fe.dd is None ==> r.crc32 == fe.lfh.crc32 && r.compressed_size == fe.lfh.compressed_size
                && r.uncompressed_size == fe.lfh.uncompressed_size,
            fe.dd matches Some(dd) ==> r.crc32 == dd.crc32
                && (dd.compressed_size.value() <= u32::MAX ==> r.compressed_size == dd.compressed_size.value())
                && (dd.compressed_size.value() > u32::MAX ==> r.compressed_size == u32::MAX)
                && (dd.uncompressed_size.value() <= u32::MAX ==> r.uncompressed_size == dd.uncompressed_size.value())
                && (dd.uncompressed_size.value() > u32::MAX ==> r.uncompressed_size == u32::MAX),
    {
        let mut r = Self::from_lfh(&fe.lfh);
        match &fe.dd {
            None => {},
            Some(dd) => {
                r.crc32 = dd.crc32;
                r.compressed_size = dd.compressed_size.saturate();
                r.uncompressed_size = dd.uncompressed_size.saturate();
            },
        }
        r
    }

    /// Every field but the relative header offset and the shadow ZIP64
    /// header offset agrees.
    pub open spec fn same_but_offset(&self, o: &Self) -> bool {
        &&& self.same_but_extras(o)
        &&& self.extra_field_length == o.extra_field_length
        &&& self.extra_fields@ == o.extra_fields@
    }

    /// Every field but the extra fields, their length, the offset and the
    /// shadow ZIP64 information agrees.
    pub open spec fn same_core(&self, o: &Self) -> bool {
        &&& self.signature == o.signature
        &&& self.version_made_by == o.version_made_by
        &&& self.version_needed == o.version_needed
        &&& self.general_purpose_flag == o.general_purpose_flag
        &&& self.compression_method == o.compression_method
        &&& self.last_mod == o.last_mod
        &&& self.crc32 == o.crc32
        &&& self.compressed_size == o.compressed_size
        &&& self.uncompressed_size == o.uncompressed_size
        &&& self.file_name_length == o.file_name_length
        &&& self.file_comment_length == o.file_comment_length
        &&& self.disk_number_start == o.disk_number_start
        &&& self.internal_file_attributes == o.internal_file_attributes
        &&& self.external_file_attributes == o.external_file_attributes
        &&& self.file_name@ == o.file_name@
        &&& self.extra_fields_raw@ == o.extra_fields_raw@
        &&& self.file_comment@ == o.file_comment@
    }

    /// Every field but the extra fields and their length agrees.
    pub open spec fn same_but_extras(&self, o: &Self) -> bool {
        &&& self.same_core(o)
        &&& self.zip64.original_size == o.zip64.original_size
        &&& self.zip64.compressed_size == o.zip64.compressed_size
        &&& self.zip64.disk_start_number == o.zip64.disk_start_number
    }

    /// Sets the offset of the local header: in the 32-bit field where it
    /// fits and ZIP64 is not forced, else as the `0xFFFFFFFF` sentinel with
    /// the true value in the shadow ZIP64 information.
    pub fn set_offset(&mut self, offset: usize, force_zip64: bool)
        ensures
            !force_zip64 && offset <= u32::MAX ==> final(self).relative_header_offset == offset
                && final(self).zip64.relative_header_offset == None::<u64>,
            force_zip64 || offset > u32::MAX ==> final(self).relative_header_offset == u32::MAX
                && final(self).zip64.relative_header_offset == Some(offset as u64),
            final(self).same_but_offset(old(self)),
    {
        if !force_zip64 && offset <= 0xffff_ffff {
            self.relative_header_offset = offset as u32;
            self.zip64.relative_header_offset = None;
        } else {
            self.relative_header_offset = 0xffff_ffff;
            self.zip64.relative_header_offset = Some(offset as u64);
        }
    }

    /// The extra fields `finalize` works on.
    pub open spec fn pending(&self) -> Seq<ExtraField> {
        pending_extras(self.extra_fields@, self.zip64, false)
    }

    /// Puts the shadow ZIP64 information in as an extra field when it holds
    /// a value (in place of an earlier ZIP64 extra field if there is one),
    /// then sets each extra field's id and size and the extra-field
    /// length.
    pub fn finalize(&mut self) -> (r: Result<(), ZipError>)
        ensures
            final(self).same_but_extras(old(self)),
            final(self).zip64 == old(self).zip64,
            final(self).relative_header_offset == old(self).relative_header_offset,
            r is Ok <==> extras_outcome(old(self).pending(), old(self).extra_fields_raw@.len() as int) is None,
            r matches Err(e) ==> Some(e) == extras_outcome(old(self).pending(), old(self).extra_fields_raw@.len() as int),
            r is Ok ==> final(self).extra_field_length == extras_length(old(self).pending(), old(self).extra_fields_raw@.len() as int),
            r is Ok ==> fields_finalized(old(self).pending(), final(self).extra_fields@),
    {
        if !self.zip64.is_empty() {
            place_zip64(&mut self.extra_fields, self.zip64);
        }
        let raw_len = self.extra_fields_raw.len();
        let mut length = self.extra_field_length;
        let r = finalize_extras(&mut self.extra_fields, raw_len, &mut length);
        self.extra_field_length = length;
        proof {
            if r is Ok && old(self).pending().len() == 0 {
                assert(fields_finalized(old(self).pending(), self.extra_fields@));
            }
        }
        r
    }

    /// A copy that encodes to the same bytes, field by field.
    pub fn duplicate(&self) -> (r: Self)
        ensures
            r.same_core(self),
            r.zip64 == self.zip64,
            r.relative_header_offset == self.relative_header_offset,
            r.extra_field_length == self.extra_field_length,
            fields_copied(self.extra_fields@, r.extra_fields@),
            r.encoding() == self.encoding(),
    {
        let r = CentralDirectoryHeader {
            signature: self.signature,
            version_made_by: self.version_made_by,
            version_needed: self.version_needed,
            general_purpose_flag: self.general_purpose_flag,
            compression_method: self.compression_method,
            last_mod: self.last_mod,
            crc32: self.crc32,
            compressed_size: self.compressed_size,
            uncompressed_size: self.uncompressed_size,
            file_name_length: self.file_name_length,
            extra_field_length: self.extra_field_length,
            file_comment_length: self.file_comment_length,
            disk_number_start: self.disk_number_start,
            internal_file_attributes: self.internal_file_attributes,
            external_file_attributes: self.external_file_attributes,
            relative_header_offset: self.relative_header_offset,
            file_name: self.file_name.clone(),
            extra_fields: copy_fields(&self.extra_fields),
            extra_fields_raw: self.extra_fields_raw.clone(),
            file_comment: self.file_comment.clone(),
            zip64: self.zip64,
        };
        assert(r.encoding() =~= self.encoding());
        r
    }
}

impl BinaryEncode for CentralDirectoryHeader {
    open spec fn encoding(&self) -> Seq<u8> {
        le32(self.signature) + le16(self.version_made_by) + le16(self.version_needed)
            + le16(self.general_purpose_flag.0) + le16(self.compression_method.0)
            + self.last_mod.encoding() + le32(self.crc32) + le32(self.compressed_size)
            + le32(self.uncompressed_size) + le16(self.file_name_length)
            + le16(self.extra_field_length) + le16(self.file_comment_length)
            + le16(self.disk_number_start) + le16(self.internal_file_attributes.0)
            + le32(self.external_file_attributes) + le32(self.relative_header_offset)
            + self.file_name@ + self.extra_fields.encoding() + self.extra_fields_raw@
            + self.file_comment@
    }

    fn write(&self, out: &mut Vec<u8>) {
        push_u32(out, self.signature);
        push_u16(out, self.version_made_by);
        push_u16(out, self.version_needed);
        push_u16(out, self.general_purpose_flag.0);
        push_u16(out, self.compression_method.0);
        self.last_mod.write(out);
        push_u32(out, self.crc32);
        push_u32(out, self.compressed_size);
        push_u32(out, self.uncompressed_size);
        push_u16(out, self.file_name_length);
        push_u16(out, self.extra_field_length);
        push_u16(out, self.file_comment_length);
        push_u16(out, self.disk_number_start);
        push_u16(out, self.internal_file_attributes.0);
        push_u32(out, self.external_file_attributes);
        push_u32(out, self.relative_header_offset);
        push_bytes(out, self.file_name.as_slice());
        self.extra_fields.write(out);
        push_bytes(out, self.extra_fields_raw.as_slice());
        push_bytes(out, self.file_comment.as_slice());
        assert(out@ =~= old(out)@ + self.encoding());
    }
}

impl BinCount for CentralDirectoryHeader {
    fn byte_count(&self) -> (r: Result<usize, ZipError>) {
        let extras = self.extra_fields.byte_count()?;
        let name = self.file_name.len();
        let raw = self.extra_fields_raw.len();
        let comment = self.file_comment.len();
        if name > usize::MAX - 46 {
            return Err(ZipError::TooLarge);
        }
        let a = 46 + name;
        if extras > usize::MAX - a {
            return Err(ZipError::TooLarge);
        }
        let b = a + extras;
        if raw > usize::MAX - b {
            return Err(ZipError::TooLarge);
        }
        let c = b + raw;
        if comment > usize::MAX - c {
            return Err(ZipError::TooLarge);
        }
        Ok(c + comment)
    }
}

} // verus!
