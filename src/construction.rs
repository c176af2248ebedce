//! A hand-built ambiguity: central directories whose placement depends on
//! how a reader finds them.

use crate::cdh::CentralDirectoryHeader;
use crate::encode::{binary_encode, BinCount, BinaryEncode};
use crate::eocd::EndOfCentralDirectoryRecord;
use crate::error::ZipError;
use crate::lfh::LocalFileHeader;
use crate::lookup::same_bytes;
use crate::zip::{EntryGroup, ZipArchive};
use vstd::prelude::*;
use vstd::string::StringSliceAdditionalSpecFns;

verus! {

/// A string with the same length and CRC-32 as `CRC32B`.
pub const CRC32A: &'static str = "oxueekz";

/// A string with the same length and CRC-32 as `CRC32A`.
pub const CRC32B: &'static str = "pyqptgs";

/// Entry groups written one after another, then a classic end record.
#[derive(Clone, Debug)]
pub struct CdOffsetZip {
    pub groups: Vec<EntryGroup>,
    pub eocdr: EndOfCentralDirectoryRecord,
}

impl BinaryEncode for CdOffsetZip {
    open spec fn encoding(&self) -> Seq<u8> {
        self.groups.encoding() + self.eocdr.encoding()
    }

    fn write(&self, out: &mut Vec<u8>) {
        self.groups.write(out);
        self.eocdr.write(out);
        assert(out@ =~= old(out)@ + self.encoding());
    }
}

impl BinCount for CdOffsetZip {
    fn byte_count(&self) -> (r: Result<usize, ZipError>) {
        let a = self.groups.byte_count()?;
        let b = self.eocdr.byte_count()?;
        if b > usize::MAX - a {
            return Err(ZipError::TooLarge);
        }
        Ok(a + b)
    }
}

/// `s` followed by `A`s up to `width` bytes.
fn padded(s: &str, width: usize) -> (r: Vec<u8>)
    ensures
        r@.len() == if s.spec_bytes().len() >= width { s.spec_bytes().len() as int } else { width as int },
{
    let mut v = crate::le::bytes_to_vec(s.as_bytes());
    while v.len() < width
        invariant
            v@.len() >= s.spec_bytes().len(),
            v@.len() <= width || v@.len() == s.spec_bytes().len(),
        decreases width - v@.len(),
    {
        v.push(0x41);
    }
    v
}

fn to_u32(n: usize) -> (r: Result<u32, ZipError>)
    ensures
        r matches Ok(v) ==> v == n,
{
    if n > 0xffff_ffff {
        return Err(ZipError::TooLarge);
    }
    Ok(n as u32)
}

/// Three entry groups and one end record, so that readers that take the
/// directory the end record points at, readers that take the directory right
/// before the end record, and streaming readers each see a different file:
/// the two `adjac` entries hold colliding CRC-32 strings padded so that an
/// entry is exactly as long as a central header.
pub fn cd_offset() -> (r: Result<CdOffsetZip, ZipError>)
    ensures
        r matches Ok(z) ==> {
            &&& z.groups@.len() == 3
            &&& z.groups@[0].files@.len() == 1 && z.groups@[0].cd@.len() == 1
            &&& z.groups@[1].files@.len() == 2 && z.groups@[1].cd@.len() == 1
            &&& z.groups@[2].files@.len() == 1 && z.groups@[2].cd@.len() == 1
            &&& z.groups@[1].cd@[0].relative_header_offset == z.groups@[0].encoding().len()
            &&& z.groups@[2].cd@[0].relative_header_offset
                == z.groups@[1].cd@[0].relative_header_offset + z.groups@[1].files@[0].encoding().len()
            &&& z.eocdr.this_disk_cdh_count == 1
            &&& z.eocdr.total_cdh_count == 1
            &&& z.eocdr.offset_of_cd_wrt_starting_disk
                == z.groups@[1].cd@[0].relative_header_offset + z.groups@[1].files.encoding().len()
        },
{
    let mut zip = ZipArchive::new();
    let a: [u8; 1] = [0x61];
    zip.add_simple("stream", &a)?;
    zip.add_simple("eocdr", &a)?;
    let cd_size = CentralDirectoryHeader::from_lfh(&zip.files[1].lfh).byte_count()?;
    let mut probe = LocalFileHeader::new();
    probe.file_name = crate::le::bytes_to_vec("adjac".as_bytes());
    let lfh_size = probe.byte_count()?;
    if cd_size < lfh_size {
        return Err(ZipError::LayoutMismatch);
    }
    let content_width = cd_size - lfh_size;
    let first = padded(CRC32A, content_width);
    let second = padded(CRC32B, content_width);
    zip.add_simple("adjac", first.as_slice())?;
    zip.add_simple("adjac", second.as_slice())?;
    zip.finalize()?;
    if zip.files.len() != 4 || zip.cd.len() != 4 {
        return Err(ZipError::LayoutMismatch);
    }
    // the entry must be exactly as long as a central header for the offsets
    // to line up, and so must the central header for the size in the end
    // record to fit both directories
    if zip.files[3].byte_count()? != cd_size || zip.cd[2].byte_count()? != cd_size {
        return Err(ZipError::LayoutMismatch);
    }
    // the two central headers must be identical, offsets included
    zip.cd[3].relative_header_offset = zip.cd[2].relative_header_offset;
    let h2 = binary_encode(&zip.cd[2]);
    let h3 = binary_encode(&zip.cd[3]);
    if !same_bytes(h2.as_slice(), h3.as_slice()) {
        return Err(ZipError::LayoutMismatch);
    }
    // for streaming readers
    let mut g1_files: Vec<crate::zip::FileEntry> = Vec::new();
    g1_files.push(zip.files[0].duplicate());
    let mut g1_cd: Vec<CentralDirectoryHeader> = Vec::new();
    g1_cd.push(zip.cd[0].duplicate());
    let group1 = EntryGroup { files: g1_files, cd: g1_cd };
    // the first entry for readers that use the directory the end record
    // points at; the second for readers that use the adjacent directory
    // without adjusting offsets
    let mut g2_files: Vec<crate::zip::FileEntry> = Vec::new();
    g2_files.push(zip.files[1].duplicate());
    g2_files.push(zip.files[2].duplicate());
    let mut g2_cd: Vec<CentralDirectoryHeader> = Vec::new();
    let mut c1 = zip.cd[1].duplicate();
    c1.relative_header_offset = to_u32(group1.byte_count()?)?;
    g2_cd.push(c1);
    let group2 = EntryGroup { files: g2_files, cd: g2_cd };
    // for readers that use the adjacent directory and adjust offsets
    let mut g3_files: Vec<crate::zip::FileEntry> = Vec::new();
    g3_files.push(zip.files[3].duplicate());
    let mut c2 = zip.cd[2].duplicate();
    let first_len = to_u32(group2.files[0].byte_count()?)?;
    let base = group2.cd[0].relative_header_offset;
    if first_len > 0xffff_ffff - base {
        return Err(ZipError::TooLarge);
    }
    c2.relative_header_offset = base + first_len;
    let mut g3_cd: Vec<CentralDirectoryHeader> = Vec::new();
    g3_cd.push(c2);
    let group3 = EntryGroup { files: g3_files, cd: g3_cd };
    let files_len = to_u32(group2.files.byte_count()?)?;
    if files_len > 0xffff_ffff - base {
        return Err(ZipError::TooLarge);
    }
    let mut eocdr = EndOfCentralDirectoryRecord::new();
    eocdr.this_disk_cdh_count = 1;
    eocdr.total_cdh_count = 1;
    eocdr.size_of_cd = to_u32(cd_size)?;
    eocdr.offset_of_cd_wrt_starting_disk = base + files_len;
    let mut groups: Vec<EntryGroup> = Vec::new();
    groups.push(group1);
    groups.push(group2);
    groups.push(group3);
    Ok(CdOffsetZip { groups, eocdr })
}

} // verus!
