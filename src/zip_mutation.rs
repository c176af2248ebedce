//! Mutations of structured archives. Each operator picks its target at
//! random; an operator with nothing to work on reports `false` and the caller
//! draws again.

use crate::cdh::CentralDirectoryHeader;
use crate::codec::{compress, compressed_by, decompress, decompressed_by, is_supported};
use crate::crc::{crc32, crc32_of};
use crate::dd::{DataDescriptor, U32or64};
use crate::bytes_mutation::{bytes_mutation_order, bytes_mutations, bytes_outcome};
use crate::encode::{binary_encode, BinCount, BinaryEncode};
use crate::eocd::{EndOfCentralDirectoryRecord, Zip64EndOfCentralDirectoryLocator, Zip64EndOfCentralDirectoryRecord};
use crate::extra::{ExtraField, ExtraFieldData, InfoZipUnicodePath, Zip64ExtendedInfo};
use crate::fields::{CompressionMethod, GeneralPurposeFlag};
use crate::lfh::LocalFileHeader;
use crate::rng::{below, rand_len, random_bool, random_bytes, random_string, random_u16, random_u32, random_u8, ratio};
use crate::zip::{classic_fits, saturated, zip64_record_for, zip64_records_for, FileEntry, ZipArchive};
use rand::rngs::ThreadRng;
use vstd::prelude::*;

verus! {

/// Which headers of an entry a field mutation touches.
#[derive(Clone, Copy, Debug, PartialEq, Eq, Structural)]
pub enum HeaderLocation {
    Lfh,
    Cdh,
    Both,
}

impl HeaderLocation {
    pub open spec fn has_lfh(self) -> bool {
        self is Lfh || self is Both
    }

    pub open spec fn has_cdh(self) -> bool {
        self is Cdh || self is Both
    }

    pub fn lfh(self) -> (r: bool)
        ensures
            r == self.has_lfh(),
    {
        match self {
            HeaderLocation::Lfh | HeaderLocation::Both => true,
            HeaderLocation::Cdh => false,
        }
    }

    pub fn cdh(self) -> (r: bool)
        ensures
            r == self.has_cdh(),
    {
        match self {
            HeaderLocation::Cdh | HeaderLocation::Both => true,
            HeaderLocation::Lfh => false,
        }
    }
}

/// Local header only, central header only, or both, with odds 1 : 1 : 3.
pub fn rand_location(rng: &mut ThreadRng) -> HeaderLocation {
    match below(rng, 5) {
        0 => HeaderLocation::Lfh,
        1 => HeaderLocation::Cdh,
        _ => HeaderLocation::Both,
    }
}

/// A location, then an entry index valid for it; `None` where the location
/// has no header to offer.
pub fn rand_header(zip: &ZipArchive, rng: &mut ThreadRng) -> (r: Option<(usize, HeaderLocation)>)
    ensures
        r matches Some((i, loc)) ==> (loc.has_lfh() ==> i < zip.files@.len()) && (loc.has_cdh() ==> i < zip.cd@.len()),
        zip.files@.len() > 0 && zip.cd@.len() > 0 ==> r is Some,
{
    let loc = rand_location(rng);
    let len = match loc {
        HeaderLocation::Lfh => zip.files.len(),
        HeaderLocation::Cdh => zip.cd.len(),
        HeaderLocation::Both => if zip.files.len() < zip.cd.len() { zip.files.len() } else { zip.cd.len() },
    };
    if len == 0 {
        return None;
    }
    Some((below(rng, len), loc))
}

/// `old` moved by `d` up (saturating at `max`) or down (saturating at 0).
pub open spec fn stepped(old: int, d: int, max: int, up: bool) -> int {
    if up {
        if old + d > max { max } else { old + d }
    } else {
        if old - d < 0 { 0 } else { old - d }
    }
}

/// `new` is `old` moved by a random length, upward from zero.
pub open spec fn len_mutated(old: int, new: int, max: int) -> bool {
    exists|d: int, up: bool| 1 <= d <= 65 && (old == 0 ==> up) && new == #[trigger] stepped(old, d, max, up)
}

pub fn mutate_len_u16(x: &mut u16, rng: &mut ThreadRng)
    ensures
        len_mutated(*old(x) as int, *final(x) as int, u16::MAX as int),
{
    let d = rand_len(rng) as u16;
    let up = *x == 0 || random_bool(rng);
    *x = if up { x.saturating_add(d) } else { x.saturating_sub(d) };
    assert(*x as int == stepped(*old(x) as int, d as int, u16::MAX as int, up));
}

pub fn mutate_len_u32(x: &mut u32, rng: &mut ThreadRng)
    ensures
        len_mutated(*old(x) as int, *final(x) as int, u32::MAX as int),
{
    let d = rand_len(rng) as u32;
    let up = *x == 0 || random_bool(rng);
    *x = if up { x.saturating_add(d) } else { x.saturating_sub(d) };
    assert(*x as int == stepped(*old(x) as int, d as int, u32::MAX as int, up));
}

pub fn mutate_len_u64(x: &mut u64, rng: &mut ThreadRng)
    ensures
        len_mutated(*old(x) as int, *final(x) as int, u64::MAX as int),
{
    let d = rand_len(rng) as u64;
    let up = *x == 0 || random_bool(rng);
    *x = if up { x.saturating_add(d) } else { x.saturating_sub(d) };
    assert(*x as int == stepped(*old(x) as int, d as int, u64::MAX as int, up));
}

pub fn mutate_len_usize(x: &mut usize, rng: &mut ThreadRng)
    ensures
        len_mutated(*old(x) as int, *final(x) as int, usize::MAX as int),
{
    let d = rand_len(rng);
    let up = *x == 0 || random_bool(rng);
    *x = if up { x.saturating_add(d) } else { x.saturating_sub(d) };
    assert(*x as int == stepped(*old(x) as int, d as int, usize::MAX as int, up));
}

/// A compression method other than `current`, drawn with weight toward the
/// methods that have a codec: stored 10, deflated 5, bzip2, XZ, LZMA, Zstandard
/// and an arbitrary tag 1 each, out of 20.
pub fn rand_compression(current: CompressionMethod, rng: &mut ThreadRng) -> (r: CompressionMethod)
    ensures
        r != current,
{
    let mut tries: usize = 0;
    while tries < 64
        decreases 64 - tries,
    {
        let new = match below(rng, 20) {
            0 => CompressionMethod(random_u16(rng)),
            1 => CompressionMethod(CompressionMethod::BZIP2),
            2 => CompressionMethod(CompressionMethod::XZ),
            3 => CompressionMethod(CompressionMethod::LZMA),
            4 => CompressionMethod(CompressionMethod::ZSTD),
            5 | 6 | 7 | 8 | 9 => CompressionMethod(CompressionMethod::DEFLATED),
            _ => CompressionMethod(CompressionMethod::STORED),
        };
        if new.0 != current.0 {
            return new;
        }
        tries += 1;
    }
    if current.0 == CompressionMethod::STORED {
        CompressionMethod(CompressionMethod::DEFLATED)
    } else {
        CompressionMethod(CompressionMethod::STORED)
    }
}

/// A byte with its ASCII case swapped: lower to upper, anything else to lower.
pub open spec fn swap_case(c: u8) -> u8 {
    if 0x61 <= c <= 0x7a {
        (c - 32) as u8
    } else if 0x41 <= c <= 0x5a {
        (c + 32) as u8
    } else {
        c
    }
}

fn swap_case_bytes(v: &mut Vec<u8>)
    ensures
        final(v)@.len() == old(v)@.len(),
        forall|i: int| 0 <= i < old(v)@.len() ==> #[trigger] final(v)@[i] == swap_case(old(v)@[i]),
{
    let mut i: usize = 0;
    while i < v.len()
        invariant
            i <= v@.len(),
            v@.len() == old(v)@.len(),
            forall|k: int| 0 <= k < i ==> #[trigger] v@[k] == swap_case(old(v)@[k]),
            forall|k: int| i <= k < v@.len() ==> v@[k] == old(v)@[k],
        decreases v@.len() - i,
    {
        let c = v[i];
        let d = if 0x61 <= c && c <= 0x7a {
            c - 32
        } else if 0x41 <= c && c <= 0x5a {
            c + 32
        } else {
            c
        };
        v.set(i, d);
        i += 1;
    }
}

/// `v` grown or cut to `n` bytes, new bytes random.
fn resize_random(v: &mut Vec<u8>, n: usize, rng: &mut ThreadRng)
    ensures
        final(v)@.len() == n,
        forall|i: int| 0 <= i < n && i < old(v)@.len() ==> #[trigger] final(v)@[i] == old(v)@[i],
{
    if v.len() > n {
        v.truncate(n);
    } else {
        while v.len() < n
            invariant
                v@.len() <= n,
                old(v)@.len() <= v@.len(),
                forall|i: int| 0 <= i < old(v)@.len() ==> #[trigger] v@[i] == old(v)@[i],
            decreases n - v@.len(),
        {
            v.push(random_u8(rng));
        }
    }
}

/// Inserts `len` random path characters (`.`, `/` or `\\`) at random places.
fn add_path_chars(v: &mut Vec<u8>, len: usize, rng: &mut ThreadRng)
    requires
        old(v)@.len() + len <= usize::MAX,
    ensures
        final(v)@.len() == old(v)@.len() + len,
{
    let mut k: usize = 0;
    while k < len
        invariant
            k <= len,
            v@.len() == old(v)@.len() + k,
            old(v)@.len() + len <= usize::MAX,
        decreases len - k,
    {
        let index = below(rng, v.len() + 1);
        let c: u8 = match below(rng, 3) {
            0 => 0x2e,
            1 => 0x2f,
            _ => 0x5c,
        };
        v.insert(index, c);
        k += 1;
    }
}

/// The field mutations that apply to local headers, central headers or both.
#[derive(Clone, Copy, Debug, PartialEq, Eq, Structural)]
pub enum EntryField {
    VersionNeeded,
    FlipGeneralPurposeFlag,
    CompressionMethod,
    LastMod,
    Crc32,
    CompressedSize,
    UncompressedSize,
    FileNameLength,
    FileName,
    FileNameAndLength,
    FileNameCasing,
    PathCharInName,
    ExtraFieldLength,
    Zip64ExtraField,
    UpExtraField,
    RemoveExtraField,
}

/// The CRC-32 source name for a new Unicode Path field: an existing one's
/// Unicode name, the new name, or the header's own name.
fn up_crc_source(extra_fields: &Vec<ExtraField>, file_name: &Vec<u8>, unicode_name: &String, rng: &mut ThreadRng) -> Vec<u8> {
    match below(rng, 4) {
        0 => {
            let mut names: Vec<Vec<u8>> = Vec::new();
            let mut i: usize = 0;
            while i < extra_fields.len()
                decreases extra_fields@.len() - i,
            {
                match &extra_fields[i].data {
                    ExtraFieldData::UnicodePath(up) => {
                        names.push(crate::le::bytes_to_vec(up.unicode_name.as_str().as_bytes()));
                    },
                    _ => {},
                }
                i += 1;
            }
            if names.len() == 0 {
                file_name.clone()
            } else {
                let k = below(rng, names.len());
                names[k].clone()
            }
        },
        1 => crate::le::bytes_to_vec(unicode_name.as_str().as_bytes()),
        _ => file_name.clone(),
    }
}

fn unicode_path_version(rng: &mut ThreadRng) -> u8 {
    match below(rng, 8) {
        5 => 0,
        6 => 2,
        7 => 0xff,
        _ => 1,
    }
}

fn zip64_extra_for(compressed_size: u32, uncompressed_size: u32, rng: &mut ThreadRng) -> ExtraField {
    let original_size = match below(rng, 3) {
        0 => None,
        1 => Some(uncompressed_size as u64),
        _ => Some(0u64),
    };
    let zip64_compressed_size = match below(rng, 3) {
        0 => None,
        1 => Some(compressed_size as u64),
        _ => Some(0u64),
    };
    ExtraField::from_data(ExtraFieldData::Zip64(Zip64ExtendedInfo {
        original_size,
        compressed_size: zip64_compressed_size,
        relative_header_offset: None,
        disk_start_number: None,
    }))
}

/// Applies field mutation `m` to a local header; `false` where it cannot
/// apply (a random byte of an empty name, or extra fields that no longer
/// finalize).
pub fn mutate_lfh_field(m: EntryField, h: &mut LocalFileHeader, rng: &mut ThreadRng) -> (r: bool)
    ensures
        m == EntryField::FileNameCasing ==> r && final(h).file_name@.len() == old(h).file_name@.len()
            && forall|i: int| 0 <= i < old(h).file_name@.len() ==> #[trigger] final(h).file_name@[i] == swap_case(old(h).file_name@[i]),
        m == EntryField::FileNameAndLength ==> r && final(h).file_name@.len() == final(h).file_name_length
            && len_mutated(old(h).file_name_length as int, final(h).file_name_length as int, u16::MAX as int),
        m == EntryField::FileNameLength ==> r && final(h).file_name@ == old(h).file_name@
            && len_mutated(old(h).file_name_length as int, final(h).file_name_length as int, u16::MAX as int),
        m == EntryField::CompressionMethod ==> r && final(h).compression_method != old(h).compression_method,
        m == EntryField::FileName ==> (r <==> old(h).file_name@.len() > 0),
        m == EntryField::RemoveExtraField ==> r && (old(h).extra_fields@.len() > 0 ==> final(h).extra_fields@.len() == old(h).extra_fields@.len() - 1),
        m != EntryField::FileName && m != EntryField::Zip64ExtraField && m != EntryField::UpExtraField
            && m != EntryField::PathCharInName ==> r,
{
    match m {
        EntryField::VersionNeeded => {
            h.version_needed = random_u16(rng);
        },
        EntryField::FlipGeneralPurposeFlag => {
            let bit = below(rng, 16) as u16;
            h.general_purpose_flag.toggle(1u16 << bit);
        },
        EntryField::CompressionMethod => {
            h.compression_method = rand_compression(h.compression_method, rng);
        },
        EntryField::LastMod => {
            if random_bool(rng) {
                h.last_mod.time = random_u16(rng);
            } else {
                h.last_mod.date = random_u16(rng);
            }
        },
        EntryField::Crc32 => {
            h.crc32 = if random_bool(rng) { 0 } else { random_u32(rng) };
        },
        EntryField::CompressedSize => {
            let k = below(rng, 50);
            if k == 0 {
                h.compressed_size = 0xffff_ffff;
            } else if k < 10 {
                h.compressed_size = 0;
            } else {
                mutate_len_u32(&mut h.compressed_size, rng);
            }
        },
        EntryField::UncompressedSize => {
            let k = below(rng, 50);
            if k == 0 {
                h.uncompressed_size = 0xffff_ffff;
            } else if k < 10 {
                h.uncompressed_size = 0;
            } else {
                mutate_len_u32(&mut h.uncompressed_size, rng);
            }
        },
        EntryField::FileNameLength => {
            mutate_len_u16(&mut h.file_name_length, rng);
        },
        EntryField::FileName => {
            if h.file_name.len() == 0 {
                return false;
            }
            let i = below(rng, h.file_name.len());
            let b = random_u8(rng);
            h.file_name.set(i, b);
        },
        EntryField::FileNameAndLength => {
            mutate_len_u16(&mut h.file_name_length, rng);
            let n = h.file_name_length as usize;
            resize_random(&mut h.file_name, n, rng);
        },
        EntryField::FileNameCasing => {
            swap_case_bytes(&mut h.file_name);
        },
        EntryField::PathCharInName => {
            let len = rand_len(rng);
            if h.file_name.len() > usize::MAX - len {
                return false;
            }
            h.file_name_length = h.file_name_length.wrapping_add(len as u16);
            add_path_chars(&mut h.file_name, len, rng);
        },
        EntryField::ExtraFieldLength => {
            mutate_len_u16(&mut h.extra_field_length, rng);
        },
        EntryField::Zip64ExtraField => {
            let f = zip64_extra_for(h.compressed_size, h.uncompressed_size, rng);
            h.extra_fields.push(f);
            if random_bool(rng) {
                h.compressed_size = 0xffff_ffff;
            }
            if random_bool(rng) {
                h.uncompressed_size = 0xffff_ffff;
            }
            return h.finalize().is_ok();
        },
        EntryField::UpExtraField => {
            let version = unicode_path_version(rng);
            let n = below(rng, 10);
            let unicode_name = random_string(rng, n);
            let source = up_crc_source(&h.extra_fields, &h.file_name, &unicode_name, rng);
            let name_crc32 = crc32(source.as_slice());
            h.extra_fields.push(ExtraField::from_data(ExtraFieldData::UnicodePath(InfoZipUnicodePath {
                version,
                name_crc32,
                unicode_name,
            })));
            return h.finalize().is_ok();
        },
        EntryField::RemoveExtraField => {
            let len = h.extra_fields.len();
            if len > 0 {
                let index = below(rng, len);
                h.extra_fields.remove(index);
            }
        },
    }
    true
}

/// Applies field mutation `m` to a central header, as for a local header.
pub fn mutate_cdh_field(m: EntryField, h: &mut CentralDirectoryHeader, rng: &mut ThreadRng) -> (r: bool)
    ensures
        m == EntryField::FileNameCasing ==> r && final(h).file_name@.len() == old(h).file_name@.len()
            && forall|i: int| 0 <= i < old(h).file_name@.len() ==> #[trigger] final(h).file_name@[i] == swap_case(old(h).file_name@[i]),
        m == EntryField::FileNameAndLength ==> r && final(h).file_name@.len() == final(h).file_name_length
            && len_mutated(old(h).file_name_length as int, final(h).file_name_length as int, u16::MAX as int),
        m == EntryField::FileNameLength ==> r && final(h).file_name@ == old(h).file_name@
            && len_mutated(old(h).file_name_length as int, final(h).file_name_length as int, u16::MAX as int),
        m == EntryField::CompressionMethod ==> r && final(h).compression_method != old(h).compression_method,
        m == EntryField::FileName ==> (r <==> old(h).file_name@.len() > 0),
        m == EntryField::RemoveExtraField ==> r && (old(h).extra_fields@.len() > 0 ==> final(h).extra_fields@.len() == old(h).extra_fields@.len() - 1),
        m != EntryField::FileName && m != EntryField::Zip64ExtraField && m != EntryField::UpExtraField
            && m != EntryField::PathCharInName ==> r,
{
    match m {
        EntryField::VersionNeeded => {
            h.version_needed = random_u16(rng);
        },
        EntryField::FlipGeneralPurposeFlag => {
            let bit = below(rng, 16) as u16;
            h.general_purpose_flag.toggle(1u16 << bit);
        },
        EntryField::CompressionMethod => {
            h.compression_method = rand_compression(h.compression_method, rng);
        },
        EntryField::LastMod => {
            if random_bool(rng) {
                h.last_mod.time = random_u16(rng);
            } else {
                h.last_mod.date = random_u16(rng);
            }
        },
        EntryField::Crc32 => {
            h.crc32 = if random_bool(rng) { 0 } else { random_u32(rng) };
        },
        EntryField::CompressedSize => {
            let k = below(rng, 50);
            if k == 0 {
                h.compressed_size = 0xffff_ffff;
            } else if k < 10 {
                h.compressed_size = 0;
            } else {
                mutate_len_u32(&mut h.compressed_size, rng);
            }
        },
        EntryField::UncompressedSize => {
            let k = below(rng, 50);
            if k == 0 {
                h.uncompressed_size = 0xffff_ffff;
            } else if k < 10 {
                h.uncompressed_size = 0;
            } else {
                mutate_len_u32(&mut h.uncompressed_size, rng);
            }
        },
        EntryField::FileNameLength => {
            mutate_len_u16(&mut h.file_name_length, rng);
        },
        EntryField::FileName => {
            if h.file_name.len() == 0 {
                return false;
            }
            let i = below(rng, h.file_name.len());
            let b = random_u8(rng);
            h.file_name.set(i, b);
        },
        EntryField::FileNameAndLength => {
            mutate_len_u16(&mut h.file_name_length, rng);
            let n = h.file_name_length as usize;
            resize_random(&mut h.file_name, n, rng);
        },
        EntryField::FileNameCasing => {
            swap_case_bytes(&mut h.file_name);
        },
        EntryField::PathCharInName => {
            let len = rand_len(rng);
            if h.file_name.len() > usize::MAX - len {
                return false;
            }
            h.file_name_length = h.file_name_length.wrapping_add(len as u16);
            add_path_chars(&mut h.file_name, len, rng);
        },
        EntryField::ExtraFieldLength => {
            mutate_len_u16(&mut h.extra_field_length, rng);
        },
        EntryField::Zip64ExtraField => {
            let f = zip64_extra_for(h.compressed_size, h.uncompressed_size, rng);
            h.extra_fields.push(f);
            if random_bool(rng) {
                h.compressed_size = 0xffff_ffff;
            }
            if random_bool(rng) {
                h.uncompressed_size = 0xffff_ffff;
            }
            return h.finalize().is_ok();
        },
        EntryField::UpExtraField => {
            let version = unicode_path_version(rng);
            let n = below(rng, 10);
            let unicode_name = random_string(rng, n);
            let source = up_crc_source(&h.extra_fields, &h.file_name, &unicode_name, rng);
            let name_crc32 = crc32(source.as_slice());
            h.extra_fields.push(ExtraField::from_data(ExtraFieldData::UnicodePath(InfoZipUnicodePath {
                version,
                name_crc32,
                unicode_name,
            })));
            return h.finalize().is_ok();
        },
        EntryField::RemoveExtraField => {
            let len = h.extra_fields.len();
            if len > 0 {
                let index = below(rng, len);
                h.extra_fields.remove(index);
            }
        },
    }
    true
}

/// Applies field mutation `m` to the local header, the central header, or
/// both headers of one random entry.
pub fn mutate_entry_field(m: EntryField, zip: &mut ZipArchive, rng: &mut ThreadRng) -> (r: bool)
    ensures
        final(zip).files@.len() == old(zip).files@.len(),
        final(zip).cd@.len() == old(zip).cd@.len(),
        exists|k: int| #[trigger] only_entry_changed(*old(zip), *final(zip), k),
        final(zip).eocdr == old(zip).eocdr,
        old(zip).files@.len() > 0 && old(zip).cd@.len() > 0 && m != EntryField::FileName && m != EntryField::Zip64ExtraField
            && m != EntryField::UpExtraField && m != EntryField::PathCharInName ==> r,
{
    let (index, loc) = match rand_header(zip, rng) {
        Some(x) => x,
        None => {
            assert(only_entry_changed(*old(zip), *zip, 0));
            return false;
        },
    };
    if loc.lfh() {
        if !mutate_lfh_field(m, &mut zip.files[index].lfh, rng) {
            assert(only_entry_changed(*old(zip), *zip, index as int));
            return false;
        }
    }
    if loc.cdh() {
        if !mutate_cdh_field(m, &mut zip.cd[index], rng) {
            assert(only_entry_changed(*old(zip), *zip, index as int));
            return false;
        }
    }
    assert(only_entry_changed(*old(zip), *zip, index as int));
    true
}

/// Every entry and central header but those at index `k` is as it was.
pub open spec fn only_entry_changed(old: ZipArchive, new: ZipArchive, k: int) -> bool {
    &&& forall|j: int| 0 <= j < old.files@.len() && j != k ==> #[trigger] new.files@[j] == old.files@[j]
    &&& forall|j: int| 0 <= j < old.cd@.len() && j != k ==> #[trigger] new.cd@[j] == old.cd@[j]
}

/// The total encoded length of the first `k` central headers, saturating at
/// `usize::MAX`.
fn cd_prefix_len(cd: &Vec<CentralDirectoryHeader>, k: usize) -> usize
    requires
        k <= cd@.len(),
{
    let mut total: usize = 0;
    let mut i: usize = 0;
    while i < k
        invariant
            i <= k <= cd@.len(),
        decreases k - i,
    {
        let n = match cd[i].byte_count() {
            Ok(n) => n,
            Err(_) => usize::MAX,
        };
        total = total.saturating_add(n);
        i += 1;
    }
    total
}

/// Sets a central-directory size: for an empty directory, and one time in
/// five otherwise, by a random length step; else to the byte count of a
/// random proper prefix of the directory.
fn mutate_cd_size_u32(cd: &Vec<CentralDirectoryHeader>, size: &mut u32, rng: &mut ThreadRng)
    ensures
        cd@.len() == 0 ==> len_mutated(*old(size) as int, *final(size) as int, u32::MAX as int),
{
    if cd.len() == 0 || ratio(rng, 1, 5) {
        mutate_len_u32(size, rng);
    } else {
        let k = below(rng, cd.len());
        let n = cd_prefix_len(cd, k);
        *size = if n > 0xffff_ffff { 0xffff_ffff } else { n as u32 };
    }
}

fn mutate_cd_size_u64(cd: &Vec<CentralDirectoryHeader>, size: &mut u64, rng: &mut ThreadRng)
    ensures
        cd@.len() == 0 ==> len_mutated(*old(size) as int, *final(size) as int, u64::MAX as int),
{
    if cd.len() == 0 || ratio(rng, 1, 5) {
        mutate_len_u64(size, rng);
    } else {
        let k = below(rng, cd.len());
        let n = cd_prefix_len(cd, k);
        *size = n as u64;
    }
}

/// Shifts the offsets of every central header from `from` on by `delta`,
/// up or down, saturating; the ones before `from` stay.
pub fn shift_offsets(cd: &mut Vec<CentralDirectoryHeader>, from: usize, delta: u32, add: bool)
    requires
        from <= old(cd)@.len(),
    ensures
        final(cd)@.len() == old(cd)@.len(),
        forall|i: int| 0 <= i < from ==> #[trigger] final(cd)@[i] == old(cd)@[i],
        forall|i: int| from <= i < old(cd)@.len() ==>
            (#[trigger] final(cd)@[i]).relative_header_offset as int
                == stepped(old(cd)@[i].relative_header_offset as int, delta as int, u32::MAX as int, add)
            && final(cd)@[i].file_name@ == old(cd)@[i].file_name@,
{
    let mut i: usize = from;
    while i < cd.len()
        invariant
            from <= i <= cd@.len(),
            cd@.len() == old(cd)@.len(),
            forall|k: int| 0 <= k < from ==> #[trigger] cd@[k] == old(cd)@[k],
            forall|k: int| i <= k < cd@.len() ==> #[trigger] cd@[k] == old(cd)@[k],
            forall|k: int| from <= k < i ==>
                (#[trigger] cd@[k]).relative_header_offset as int
                    == stepped(old(cd)@[k].relative_header_offset as int, delta as int, u32::MAX as int, add)
                && cd@[k].file_name@ == old(cd)@[k].file_name@,
        decreases cd@.len() - i,
    {
        let o = cd[i].relative_header_offset;
        cd[i].relative_header_offset = if add { o.saturating_add(delta) } else { o.saturating_sub(delta) };
        i += 1;
    }
}

/// The archive-level mutation operators.
#[derive(Clone, Copy, Debug, PartialEq, Eq, Structural)]
pub enum ZipMutation {
    FixZip,
    SetOffsets,
    AddFileEntry,
    RemoveLfh,
    RemoveCdh,
    Field(EntryField),
    AddDataDescriptor,
    ModifyCdhVersionMadeBy,
    ModifyCdhComment,
    ModifyCdhCommentLength,
    ModifyCdhCommentAndLength,
    ModifyCdhDiskNumberStart,
    FlipCdhInternalFileAttributes,
    FlipCdhExternalFileAttributes,
    ModifyCdhRelativeHeaderOffset,
    ModifyContentCompression,
    ModifyContentSize,
    ModifyEocdrCurrentDisk,
    ModifyEocdrStartOfCdDisk,
    ModifyEocdrThisDiskCdhCount,
    ModifyEocdrTotalCdhCount,
    ModifyEocdrCdSize,
    ModifyEocdrCdOffset,
    ModifyEocdrComment,
    ModifyEocdrCommentLength,
    ModifyEocdrCommentAndLength,
    UseZip64Eocd,
    UseZip64EocdNoFf,
    ModifyZip64Eocdr,
    UseZip64EocdrV2,
    ModifyEocdl,
}

/// What operator `m` may have done to `old`, giving `new` and reporting `r`.
pub open spec fn zip_outcome(m: ZipMutation, old: ZipArchive, new: ZipArchive, r: bool) -> bool {
    &&& (!(m == ZipMutation::FixZip || m == ZipMutation::SetOffsets || m == ZipMutation::AddFileEntry
                || m == ZipMutation::RemoveLfh || m == ZipMutation::RemoveCdh)
                ==> new.files@.len() == old.files@.len() && new.cd@.len() == old.cd@.len())
    &&& (m == ZipMutation::RemoveLfh ==> (r <==> old.files@.len() > 0)
                && (r ==> new.files@.len() == old.files@.len() - 1 && new.cd@ == old.cd@))
    &&& (m == ZipMutation::RemoveCdh ==> (r <==> old.cd@.len() > 0)
                && (r ==> new.cd@.len() == old.cd@.len() - 1 && new.files@ == old.files@))
    &&& (m == ZipMutation::ModifyCdhRelativeHeaderOffset ==> (r <==> old.cd@.len() > 0)
                && new.cd@.len() == old.cd@.len() && new.files@ == old.files@)
    &&& (m == ZipMutation::ModifyEocdrCurrentDisk ==> r && len_mutated(old.eocdr.number_of_this_disk as int,
                new.eocdr.number_of_this_disk as int, u16::MAX as int))
    &&& (m == ZipMutation::ModifyEocdrTotalCdhCount ==> r && len_mutated(old.eocdr.total_cdh_count as int,
                new.eocdr.total_cdh_count as int, u16::MAX as int))
    &&& (m == ZipMutation::ModifyEocdrCdOffset ==> r && len_mutated(old.eocdr.offset_of_cd_wrt_starting_disk as int,
                new.eocdr.offset_of_cd_wrt_starting_disk as int, u32::MAX as int))
    &&& (m == ZipMutation::AddDataDescriptor ==> {
        &&& (r <==> old.files@.len() > 0)
        &&& (!r ==> new == old)
        &&& (r ==> exists|i: int, c: DescriptorChoices| #[trigger] descriptor_set(old, new, i, c))
    })
    &&& (m == ZipMutation::ModifyContentCompression ==> {
        &&& (r <==> old.files@.len() > 0)
        &&& (!r ==> new == old)
        &&& (r ==> exists|i: int, c: CompressionMethod| c != old.files@[i].lfh.compression_method
            && #[trigger] content_set(old, new, i, c, new.files@[i].data@, content_of(old.files@[i])))
    })
    &&& (m == ZipMutation::ModifyContentSize ==> {
        &&& (!r ==> new == old)
        &&& (r ==> exists|i: int, content: Seq<u8>| #![trigger old.files@[i], content.len()] {
            let o = old.files@[i];
            let m = o.lfh.compression_method;
            &&& decompressed_by(m.0, o.data@) is Some
            &&& len_mutated(decompressed_by(m.0, o.data@)->Some_0.len() as int, content.len() as int, usize::MAX as int)
            &&& (forall|k: int| 0 <= k < content.len() && k < decompressed_by(m.0, o.data@)->Some_0.len()
                ==> content[k] == decompressed_by(m.0, o.data@)->Some_0[k])
            &&& content_set(old, new, i, o.lfh.compression_method,
                compressed_by(o.lfh.compression_method.0, content), content)
        })
        &&& (old.files@.len() > 0 ==> (r || exists|i: int| 0 <= i < old.files@.len()
            && !(is_supported(old.files@[i].lfh.compression_method.0)
                && old.files@[i].lfh.compression_method.0 != CompressionMethod::ZSTD
                && decompressed_by(old.files@[i].lfh.compression_method.0, old.files@[i].data@) is Some)))
    })
    &&& (m == ZipMutation::UseZip64EocdNoFf ==> {
        &&& (new.files@ == old.files@)
        &&& (new.cd@ == old.cd@)
        &&& (old.eocd_sizes_fit() && classic_fits(old.cd@.len() as int, old.cd.encoding().len() as int,
            old.cd_start()) ==> r)
        &&& (r ==> classic_fits(old.cd@.len() as int, old.cd.encoding().len() as int, old.cd_start())
            && zip64_records_for(new, old.cd@.len() as int, old.cd.encoding().len() as int, old.cd_start())
            && classic_from_zip64(new.eocdr, old.cd@.len() as int, old.cd.encoding().len() as int, old.cd_start()))
    })
    &&& (m == ZipMutation::ModifyZip64Eocdr ==> {
        &&& (new.files@ == old.files@)
        &&& (new.cd@ == old.cd@)
        &&& (old.zip64_eocdr is Some || old.eocd_sizes_fit() ==> r)
        &&& (r ==> exists|b: Zip64EndOfCentralDirectoryRecord| #[trigger] zip64_base(old, new, b)
            && (new.zip64_eocdr matches Some(z) && zip64_record_mutated(b, z)))
    })
    &&& (m == ZipMutation::UseZip64EocdrV2 ==> {
        &&& (new.files@ == old.files@)
        &&& (new.cd@ == old.cd@)
        &&& ((old.zip64_eocdr is None && old.eocd_sizes_fit())
            || (old.zip64_eocdr matches Some(b) && b.extensible_data_sector@.len() == 0) ==> r)
        &&& (r ==> exists|b: Zip64EndOfCentralDirectoryRecord| #[trigger] zip64_base(old, new, b)
            && (new.zip64_eocdr matches Some(z) && {
            &&& z.signature == b.signature
            &&& z.number_of_this_disk == b.number_of_this_disk
            &&& z.start_of_cd_disk_number == b.start_of_cd_disk_number
            &&& z.this_disk_cdh_count == b.this_disk_cdh_count
            &&& z.total_cdh_count == b.total_cdh_count
            &&& z.size_of_cd == b.size_of_cd
            &&& z.offset_of_cd_wrt_starting_disk == b.offset_of_cd_wrt_starting_disk
            &&& (z.version_made_by == 62 || z.version_made_by == 20)
            &&& (z.version_needed == 62 || z.version_needed == 20)
            &&& z.v2 matches Some(v) && {
                &&& (v.compression_method.0 == 0 || v.compression_method.0 == CompressionMethod::DEFLATED)
                &&& v.encrypt_alg == 0 && v.key_bit_len == 0 && v.encrypt_flags == 0
                &&& v.hash_alg == 0 && v.hash_len == 0 && v.hash_data@.len() == 0
            }
        }))
    })
    &&& (m == ZipMutation::ModifyEocdl ==> {
        &&& (r)
        &&& (new.eocdr == old.eocdr)
        &&& (new.zip64_eocdr == old.zip64_eocdr)
        &&& (old.zip64_eocdl matches Some(l) ==> (new.zip64_eocdl is None || (new.zip64_eocdl matches Some(n) && {
            &&& n.signature == l.signature
            &&& kept_or_stepped(l.zip64_eocdr_disk_number as int, n.zip64_eocdr_disk_number as int, u32::MAX as int)
            &&& kept_or_stepped(l.zip64_eocdr_offset as int, n.zip64_eocdr_offset as int, u64::MAX as int)
            &&& kept_or_stepped(l.total_number_of_disks as int, n.total_number_of_disks as int, u32::MAX as int)
        })))
        &&& (old.zip64_eocdl is None ==> new.zip64_eocdl == Some(
            Zip64EndOfCentralDirectoryLocator::spec_from_offset(old.eocdr.offset_of_cd_wrt_starting_disk as u64)))
        &&& (new.files@ == old.files@)
        &&& (new.cd@ == old.cd@)
    })
}

/// The archive operators in arm order.
pub open spec fn zip_mutation_order() -> Seq<ZipMutation> {
    seq![
        ZipMutation::FixZip,
        ZipMutation::SetOffsets,
        ZipMutation::AddFileEntry,
        ZipMutation::RemoveLfh,
        ZipMutation::RemoveCdh,
        ZipMutation::Field(EntryField::VersionNeeded),
        ZipMutation::Field(EntryField::FlipGeneralPurposeFlag),
        ZipMutation::Field(EntryField::CompressionMethod),
        ZipMutation::Field(EntryField::LastMod),
        ZipMutation::Field(EntryField::Crc32),
        ZipMutation::Field(EntryField::CompressedSize),
        ZipMutation::Field(EntryField::UncompressedSize),
        ZipMutation::Field(EntryField::FileNameLength),
        ZipMutation::Field(EntryField::FileName),
        ZipMutation::Field(EntryField::FileNameAndLength),
        ZipMutation::Field(EntryField::FileNameCasing),
        ZipMutation::Field(EntryField::PathCharInName),
        ZipMutation::Field(EntryField::ExtraFieldLength),
        ZipMutation::Field(EntryField::Zip64ExtraField),
        ZipMutation::Field(EntryField::UpExtraField),
        ZipMutation::Field(EntryField::RemoveExtraField),
        ZipMutation::AddDataDescriptor,
        ZipMutation::ModifyCdhVersionMadeBy,
        ZipMutation::ModifyCdhComment,
        ZipMutation::ModifyCdhCommentLength,
        ZipMutation::ModifyCdhCommentAndLength,
        ZipMutation::ModifyCdhDiskNumberStart,
        ZipMutation::FlipCdhInternalFileAttributes,
        ZipMutation::FlipCdhExternalFileAttributes,
        ZipMutation::ModifyCdhRelativeHeaderOffset,
        ZipMutation::ModifyContentCompression,
        ZipMutation::ModifyContentSize,
        ZipMutation::ModifyEocdrCurrentDisk,
        ZipMutation::ModifyEocdrStartOfCdDisk,
        ZipMutation::ModifyEocdrThisDiskCdhCount,
        ZipMutation::ModifyEocdrTotalCdhCount,
        ZipMutation::ModifyEocdrCdSize,
        ZipMutation::ModifyEocdrCdOffset,
        ZipMutation::ModifyEocdrComment,
        ZipMutation::ModifyEocdrCommentLength,
        ZipMutation::ModifyEocdrCommentAndLength,
        ZipMutation::UseZip64Eocd,
        ZipMutation::UseZip64EocdNoFf,
        ZipMutation::ModifyZip64Eocdr,
        ZipMutation::UseZip64EocdrV2,
        ZipMutation::ModifyEocdl,
    ]
}

/// Every archive operator, in arm order.
pub fn zip_mutations() -> (r: Vec<ZipMutation>)
    ensures
        r@ == zip_mutation_order(),
{
    let mut r: Vec<ZipMutation> = Vec::new();
    r.push(ZipMutation::FixZip);
    assert(r@ =~= zip_mutation_order().take(1));
    r.push(ZipMutation::SetOffsets);
    assert(r@ =~= zip_mutation_order().take(2));
    r.push(ZipMutation::AddFileEntry);
    assert(r@ =~= zip_mutation_order().take(3));
    r.push(ZipMutation::RemoveLfh);
    assert(r@ =~= zip_mutation_order().take(4));
    r.push(ZipMutation::RemoveCdh);
    assert(r@ =~= zip_mutation_order().take(5));
    r.push(ZipMutation::Field(EntryField::VersionNeeded));
    assert(r@ =~= zip_mutation_order().take(6));
    r.push(ZipMutation::Field(EntryField::FlipGeneralPurposeFlag));
    assert(r@ =~= zip_mutation_order().take(7));
    r.push(ZipMutation::Field(EntryField::CompressionMethod));
    assert(r@ =~= zip_mutation_order().take(8));
    r.push(ZipMutation::Field(EntryField::LastMod));
    assert(r@ =~= zip_mutation_order().take(9));
    r.push(ZipMutation::Field(EntryField::Crc32));
    assert(r@ =~= zip_mutation_order().take(10));
    r.push(ZipMutation::Field(EntryField::CompressedSize));
    assert(r@ =~= zip_mutation_order().take(11));
    r.push(ZipMutation::Field(EntryField::UncompressedSize));
    assert(r@ =~= zip_mutation_order().take(12));
    r.push(ZipMutation::Field(EntryField::FileNameLength));
    assert(r@ =~= zip_mutation_order().take(13));
    r.push(ZipMutation::Field(EntryField::FileName));
    assert(r@ =~= zip_mutation_order().take(14));
    r.push(ZipMutation::Field(EntryField::FileNameAndLength));
    assert(r@ =~= zip_mutation_order().take(15));
    r.push(ZipMutation::Field(EntryField::FileNameCasing));
    assert(r@ =~= zip_mutation_order().take(16));
    r.push(ZipMutation::Field(EntryField::PathCharInName));
    assert(r@ =~= zip_mutation_order().take(17));
    r.push(ZipMutation::Field(EntryField::ExtraFieldLength));
    assert(r@ =~= zip_mutation_order().take(18));
    r.push(ZipMutation::Field(EntryField::Zip64ExtraField));
    assert(r@ =~= zip_mutation_order().take(19));
    r.push(ZipMutation::Field(EntryField::UpExtraField));
    assert(r@ =~= zip_mutation_order().take(20));
    r.push(ZipMutation::Field(EntryField::RemoveExtraField));
    assert(r@ =~= zip_mutation_order().take(21));
    r.push(ZipMutation::AddDataDescriptor);
    assert(r@ =~= zip_mutation_order().take(22));
    r.push(ZipMutation::ModifyCdhVersionMadeBy);
    assert(r@ =~= zip_mutation_order().take(23));
    r.push(ZipMutation::ModifyCdhComment);
    assert(r@ =~= zip_mutation_order().take(24));
    r.push(ZipMutation::ModifyCdhCommentLength);
    assert(r@ =~= zip_mutation_order().take(25));
    r.push(ZipMutation::ModifyCdhCommentAndLength);
    assert(r@ =~= zip_mutation_order().take(26));
    r.push(ZipMutation::ModifyCdhDiskNumberStart);
    assert(r@ =~= zip_mutation_order().take(27));
    r.push(ZipMutation::FlipCdhInternalFileAttributes);
    assert(r@ =~= zip_mutation_order().take(28));
    r.push(ZipMutation::FlipCdhExternalFileAttributes);
    assert(r@ =~= zip_mutation_order().take(29));
    r.push(ZipMutation::ModifyCdhRelativeHeaderOffset);
    assert(r@ =~= zip_mutation_order().take(30));
    r.push(ZipMutation::ModifyContentCompression);
    assert(r@ =~= zip_mutation_order().take(31));
    r.push(ZipMutation::ModifyContentSize);
    assert(r@ =~= zip_mutation_order().take(32));
    r.push(ZipMutation::ModifyEocdrCurrentDisk);
    assert(r@ =~= zip_mutation_order().take(33));
    r.push(ZipMutation::ModifyEocdrStartOfCdDisk);
    assert(r@ =~= zip_mutation_order().take(34));
    r.push(ZipMutation::ModifyEocdrThisDiskCdhCount);
    assert(r@ =~= zip_mutation_order().take(35));
    r.push(ZipMutation::ModifyEocdrTotalCdhCount);
    assert(r@ =~= zip_mutation_order().take(36));
    r.push(ZipMutation::ModifyEocdrCdSize);
    assert(r@ =~= zip_mutation_order().take(37));
    r.push(ZipMutation::ModifyEocdrCdOffset);
    assert(r@ =~= zip_mutation_order().take(38));
    r.push(ZipMutation::ModifyEocdrComment);
    assert(r@ =~= zip_mutation_order().take(39));
    r.push(ZipMutation::ModifyEocdrCommentLength);
    assert(r@ =~= zip_mutation_order().take(40));
    r.push(ZipMutation::ModifyEocdrCommentAndLength);
    assert(r@ =~= zip_mutation_order().take(41));
    r.push(ZipMutation::UseZip64Eocd);
    assert(r@ =~= zip_mutation_order().take(42));
    r.push(ZipMutation::UseZip64EocdNoFf);
    assert(r@ =~= zip_mutation_order().take(43));
    r.push(ZipMutation::ModifyZip64Eocdr);
    assert(r@ =~= zip_mutation_order().take(44));
    r.push(ZipMutation::UseZip64EocdrV2);
    assert(r@ =~= zip_mutation_order().take(45));
    r.push(ZipMutation::ModifyEocdl);
    assert(r@ =~= zip_mutation_order().take(46));
    assert(r@ =~= zip_mutation_order());
    r
}

impl ZipMutation {
    pub fn name(&self) -> &'static str {
        match self {
            ZipMutation::FixZip => "FixZip",
            ZipMutation::SetOffsets => "SetOffsets",
            ZipMutation::AddFileEntry => "AddFileEntry",
            ZipMutation::RemoveLfh => "RemoveLfh",
            ZipMutation::RemoveCdh => "RemoveCdh",
            ZipMutation::Field(f) => match f {
                EntryField::VersionNeeded => "ModifyVersionNeeded",
                EntryField::FlipGeneralPurposeFlag => "FlipGeneralPurposeFlag",
                EntryField::CompressionMethod => "ModifyCompressionMethod",
                EntryField::LastMod => "ModifyLastMod",
                EntryField::Crc32 => "ModifyCrc32",
                EntryField::CompressedSize => "ModifyCompressedSize",
                EntryField::UncompressedSize => "ModifyUncompressedSize",
                EntryField::FileNameLength => "ModifyFileNameLength",
                EntryField::FileName => "ModifyFileName",
                EntryField::FileNameAndLength => "ModifyFileNameAndLength",
                EntryField::FileNameCasing => "ModifyFileNameCasing",
                EntryField::PathCharInName => "AddPathCharInName",
                EntryField::ExtraFieldLength => "ModifyExtraFieldLength",
                EntryField::Zip64ExtraField => "AddZip64ExtraField",
                EntryField::UpExtraField => "AddUpExtraField",
                EntryField::RemoveExtraField => "RemoveExtraField",
            },
            ZipMutation::AddDataDescriptor => "AddDataDescriptor",
            ZipMutation::ModifyCdhVersionMadeBy => "ModifyCdhVersionMadeBy",
            ZipMutation::ModifyCdhComment => "ModifyCdhComment",
            ZipMutation::ModifyCdhCommentLength => "ModifyCdhCommentLength",
            ZipMutation::ModifyCdhCommentAndLength => "ModifyCdhCommentAndLength",
            ZipMutation::ModifyCdhDiskNumberStart => "ModifyCdhDiskNumberStart",
            ZipMutation::FlipCdhInternalFileAttributes => "FlipCdhInternalFileAttributes",
            ZipMutation::FlipCdhExternalFileAttributes => "FlipCdhExternalFileAttributes",
            ZipMutation::ModifyCdhRelativeHeaderOffset => "ModifyCdhRelativeHeaderOffset",
            ZipMutation::ModifyContentCompression => "ModifyContentCompression",
            ZipMutation::ModifyContentSize => "ModifyContentSize",
            ZipMutation::ModifyEocdrCurrentDisk => "ModifyEocdrCurrentDisk",
            ZipMutation::ModifyEocdrStartOfCdDisk => "ModifyEocdrStartOfCdDisk",
            ZipMutation::ModifyEocdrThisDiskCdhCount => "ModifyEocdrThisDiskCdhCount",
            ZipMutation::ModifyEocdrTotalCdhCount => "ModifyEocdrTotalCdhCount",
            ZipMutation::ModifyEocdrCdSize => "ModifyEocdrCdSize",
            ZipMutation::ModifyEocdrCdOffset => "ModifyEocdrCdOffset",
            ZipMutation::ModifyEocdrComment => "ModifyEocdrComment",
            ZipMutation::ModifyEocdrCommentLength => "ModifyEocdrCommentLength",
            ZipMutation::ModifyEocdrCommentAndLength => "ModifyEocdrCommentAndLength",
            ZipMutation::UseZip64Eocd => "UseZip64Eocd",
            ZipMutation::UseZip64EocdNoFf => "UseZip64EocdNoFf",
            ZipMutation::ModifyZip64Eocdr => "ModifyZip64Eocdr",
            ZipMutation::UseZip64EocdrV2 => "UseZip64EocdrV2",
            ZipMutation::ModifyEocdl => "ModifyEocdl",
        }
    }

    /// Applies the operator to `zip`. `false` means the operator found
    /// nothing to work on or could not finish; `zip` may then be partly
    /// changed and is to be discarded.
    pub fn mutate(&self, zip: &mut ZipArchive, rng: &mut ThreadRng) -> (r: bool)
        ensures
            zip_outcome(*self, *old(zip), *final(zip), r),
    {
        match self {
            ZipMutation::FixZip => zip.finalize().is_ok(),
            ZipMutation::SetOffsets => {
                let base = rand_len(rng) - 1;
                zip.set_offsets(base).is_ok()
            },
            ZipMutation::AddFileEntry => {
                let name_len = rand_len(rng);
                let name = random_string(rng, name_len);
                let data_len = rand_len(rng);
                let data = random_bytes(rng, data_len);
                let method = if random_bool(rng) { CompressionMethod::DEFLATED } else { CompressionMethod::STORED };
                let force_zip64 = random_bool(rng);
                let use_dd = random_bool(rng);
                if zip.add_file(name.as_str(), data.as_slice(), CompressionMethod(method), force_zip64, use_dd).is_err() {
                    return false;
                }
                zip.finalize().is_ok()
            },
            ZipMutation::RemoveLfh => {
                if zip.files.len() == 0 {
                    return false;
                }
                let i = below(rng, zip.files.len());
                zip.files.remove(i);
                true
            },
            ZipMutation::RemoveCdh => {
                if zip.cd.len() == 0 {
                    return false;
                }
                let i = below(rng, zip.cd.len());
                zip.cd.remove(i);
                true
            },
            ZipMutation::Field(f) => mutate_entry_field(*f, zip, rng),
            ZipMutation::AddDataDescriptor => add_data_descriptor(zip, rng),
            ZipMutation::ModifyCdhVersionMadeBy => {
                if zip.cd.len() == 0 {
                    return false;
                }
                let i = below(rng, zip.cd.len());
                zip.cd[i].version_made_by = random_u16(rng);
                true
            },
            ZipMutation::ModifyCdhCommentLength => {
                if zip.cd.len() == 0 {
                    return false;
                }
                let i = below(rng, zip.cd.len());
                mutate_len_u16(&mut zip.cd[i].file_comment_length, rng);
                true
            },
            ZipMutation::ModifyCdhComment => {
                if zip.cd.len() == 0 {
                    return false;
                }
                let i = below(rng, zip.cd.len());
                if zip.cd[i].file_comment.len() == 0 {
                    mutate_len_u16(&mut zip.cd[i].file_comment_length, rng);
                    let n = zip.cd[i].file_comment_length as usize;
                    resize_random(&mut zip.cd[i].file_comment, n, rng);
                } else {
                    let k = below(rng, zip.cd[i].file_comment.len());
                    let b = random_u8(rng);
                    zip.cd[i].file_comment.set(k, b);
                }
                true
            },
            ZipMutation::ModifyCdhCommentAndLength => {
                if zip.cd.len() == 0 {
                    return false;
                }
                let i = below(rng, zip.cd.len());
                mutate_len_u16(&mut zip.cd[i].file_comment_length, rng);
                let n = zip.cd[i].file_comment_length as usize;
                resize_random(&mut zip.cd[i].file_comment, n, rng);
                true
            },
            ZipMutation::ModifyCdhDiskNumberStart => {
                if zip.cd.len() == 0 {
                    return false;
                }
                let i = below(rng, zip.cd.len());
                mutate_len_u16(&mut zip.cd[i].disk_number_start, rng);
                true
            },
            ZipMutation::FlipCdhInternalFileAttributes => {
                if zip.cd.len() == 0 {
                    return false;
                }
                let i = below(rng, zip.cd.len());
                let bit = below(rng, 16) as u16;
                zip.cd[i].internal_file_attributes.toggle(1u16 << bit);
                true
            },
            ZipMutation::FlipCdhExternalFileAttributes => {
                if zip.cd.len() == 0 {
                    return false;
                }
                let i = below(rng, zip.cd.len());
                let bit = below(rng, 32) as u32;
                zip.cd[i].external_file_attributes = zip.cd[i].external_file_attributes ^ (1u32 << bit);
                true
            },
            ZipMutation::ModifyCdhRelativeHeaderOffset => {
                if zip.cd.len() == 0 {
                    return false;
                }
                let from = below(rng, zip.cd.len());
                let delta = rand_len(rng) as u32;
                let add = random_bool(rng);
                shift_offsets(&mut zip.cd, from, delta, add);
                true
            },
            ZipMutation::ModifyContentCompression => modify_content_compression(zip, rng),
            ZipMutation::ModifyContentSize => modify_content_size(zip, rng),
            ZipMutation::ModifyEocdrCurrentDisk => {
                mutate_len_u16(&mut zip.eocdr.number_of_this_disk, rng);
                true
            },
            ZipMutation::ModifyEocdrStartOfCdDisk => {
                mutate_len_u16(&mut zip.eocdr.start_of_cd_disk_number, rng);
                true
            },
            ZipMutation::ModifyEocdrThisDiskCdhCount => {
                mutate_len_u16(&mut zip.eocdr.this_disk_cdh_count, rng);
                true
            },
            ZipMutation::ModifyEocdrTotalCdhCount => {
                mutate_len_u16(&mut zip.eocdr.total_cdh_count, rng);
                true
            },
            ZipMutation::ModifyEocdrCdSize => {
                mutate_cd_size_u32(&zip.cd, &mut zip.eocdr.size_of_cd, rng);
                true
            },
            ZipMutation::ModifyEocdrCdOffset => {
                mutate_len_u32(&mut zip.eocdr.offset_of_cd_wrt_starting_disk, rng);
                true
            },
            ZipMutation::ModifyEocdrComment => {
                if zip.eocdr.zip_file_comment.len() == 0 {
                    mutate_len_u16(&mut zip.eocdr.zip_file_comment_length, rng);
                    let n = zip.eocdr.zip_file_comment_length as usize;
                    resize_random(&mut zip.eocdr.zip_file_comment, n, rng);
                } else {
                    let k = below(rng, zip.eocdr.zip_file_comment.len());
                    let b = random_u8(rng);
                    zip.eocdr.zip_file_comment.set(k, b);
                }
                true
            },
            ZipMutation::ModifyEocdrCommentLength => {
                mutate_len_u16(&mut zip.eocdr.zip_file_comment_length, rng);
                true
            },
            ZipMutation::ModifyEocdrCommentAndLength => {
                mutate_len_u16(&mut zip.eocdr.zip_file_comment_length, rng);
                let n = zip.eocdr.zip_file_comment_length as usize;
                resize_random(&mut zip.eocdr.zip_file_comment, n, rng);
                true
            },
            ZipMutation::UseZip64Eocd => zip.set_eocd(true).is_ok(),
            ZipMutation::UseZip64EocdNoFf => use_zip64_eocd_no_ff(zip, rng),
            ZipMutation::ModifyZip64Eocdr => modify_zip64_eocdr(zip, rng),
            ZipMutation::UseZip64EocdrV2 => use_zip64_eocdr_v2(zip, rng),
            ZipMutation::ModifyEocdl => modify_eocdl(zip, rng),
        }
    }
}

/// What drawing one arm of the archive bank gave.
pub enum ZipArmOutcome {
    /// The operator changed a copy of the archive.
    Mutated(ZipArchive, &'static str),
    /// The arm past the last operator: the archive as bytes, for the byte
    /// bank to work on.
    ToBytes(Vec<u8>),
    /// The operator found nothing to work on.
    Failed,
}

/// Plays arm `p` of the archive bank on `zip` (a copy the caller can spare):
/// operator `p` of `zip_mutations()`, or, for the arm after the last
/// operator, the archive's bytes.
pub fn apply_zip_arm(zip: ZipArchive, p: usize, rng: &mut ThreadRng) -> (r: ZipArmOutcome)
    requires
        p <= 46,
    ensures
        p == 46 ==> (r matches ZipArmOutcome::ToBytes(b) && b@ == zip.encoding()),
        p < 46 ==> !(r is ToBytes),
        p < 46 ==> (r matches ZipArmOutcome::Mutated(z, _) ==> zip_outcome(zip_mutation_order()[p as int], zip, z, true)),
        p < 46 ==> (r is Failed ==> exists|z: ZipArchive| #[trigger] zip_outcome(zip_mutation_order()[p as int], zip, z, false)),
{
    let ops = zip_mutations();
    if p == ops.len() {
        return ZipArmOutcome::ToBytes(binary_encode(&zip));
    }
    let op = ops[p];
    let mut copy = zip;
    if op.mutate(&mut copy, rng) {
        ZipArmOutcome::Mutated(copy, op.name())
    } else {
        ZipArmOutcome::Failed
    }
}

/// Plays arm `p` of the byte bank on a copy of `bytes`: the mutated copy,
/// or `None` where the operator found nothing to work on.
pub fn apply_bytes_arm(bytes: &Vec<u8>, p: usize, rng: &mut ThreadRng) -> (r: Option<Vec<u8>>)
    requires
        p < 6,
        bytes@.len() < usize::MAX,
    ensures
        r matches Some(v) ==> bytes_outcome(bytes_mutation_order()[p as int], bytes@, v@, true),
        r is None ==> bytes_outcome(bytes_mutation_order()[p as int], bytes@, bytes@, false),
{
    let ops = bytes_mutations();
    let mut copy = bytes.clone();
    assert(copy@ == bytes@);
    if ops[p].mutate(&mut copy, rng) {
        Some(copy)
    } else {
        None
    }
}

/// The random choices that shape a new data descriptor: whether it has a
/// signature; whether it repeats the local CRC-32 and each size (else 0);
/// whether its sizes are 64-bit; and which local fields are then zeroed
/// (all three, or each on its own).
#[derive(Clone, Copy, Debug, PartialEq, Eq, Structural)]
pub struct DescriptorChoices {
    pub signature: bool,
    pub keep_crc: bool,
    pub keep_compressed: bool,
    pub keep_uncompressed: bool,
    pub wide: bool,
    pub zero_all: bool,
    pub zero_crc: bool,
    pub zero_compressed: bool,
    pub zero_uncompressed: bool,
}

/// A 32-bit value as a descriptor size of the chosen width.
pub open spec fn dd_size(v: u32, wide: bool) -> U32or64 {
    if wide { U32or64::U64(v as u64) } else { U32or64::U32(v) }
}

/// `b` is `a` with at most its CRC-32, sizes and flag changed.
pub open spec fn lfh_same_but_crc_sizes_flag(a: LocalFileHeader, b: LocalFileHeader) -> bool {
    &&& b.signature == a.signature
    &&& b.version_needed == a.version_needed
    &&& b.compression_method == a.compression_method
    &&& b.last_mod == a.last_mod
    &&& b.file_name_length == a.file_name_length
    &&& b.extra_field_length == a.extra_field_length
    &&& b.file_name@ == a.file_name@
    &&& b.extra_fields@ == a.extra_fields@
    &&& b.extra_fields_raw@ == a.extra_fields_raw@
    &&& b.zip64 == a.zip64
    &&& b.keep_empty_zip64 == a.keep_empty_zip64
}

/// `new` is `old` with entry `i` marked as followed by a data descriptor: an
/// existing descriptor stays and the local CRC-32 and sizes toggle between 0
/// and its values; otherwise one is made as `c` says and local fields are
/// zeroed as `c` says. Nothing else changes.
pub open spec fn descriptor_set(old: ZipArchive, new: ZipArchive, i: int, c: DescriptorChoices) -> bool {
    let o = old.files@[i];
    let e = new.files@[i];
    &&& 0 <= i < old.files@.len()
    &&& new.files@.len() == old.files@.len()
    &&& forall|j: int| 0 <= j < old.files@.len() && j != i ==> #[trigger] new.files@[j] == old.files@[j]
    &&& new.cd@ == old.cd@
    &&& new.eocdr == old.eocdr
    &&& new.zip64_eocdr == old.zip64_eocdr
    &&& new.zip64_eocdl == old.zip64_eocdl
    &&& e.data@ == o.data@
    &&& e.lfh.general_purpose_flag.0 == o.lfh.general_purpose_flag.0 | GeneralPurposeFlag::DATA_DESCRIPTOR
    &&& lfh_same_but_crc_sizes_flag(o.lfh, e.lfh)
    &&& match o.dd {
        Some(d) => {
            &&& e.dd == o.dd
            &&& e.lfh.crc32 == (if o.lfh.crc32 == 0 { d.crc32 } else { 0 })
            &&& e.lfh.compressed_size == (if o.lfh.compressed_size == 0 { saturated(d.compressed_size) } else { 0 })
            &&& e.lfh.uncompressed_size == (if o.lfh.uncompressed_size == 0 { saturated(d.uncompressed_size) } else { 0 })
        },
        None => {
            &&& e.dd == Some(DataDescriptor {
                signature: if c.signature { Some(DataDescriptor::SIGNATURE) } else { None },
                crc32: if c.keep_crc { o.lfh.crc32 } else { 0 },
                compressed_size: dd_size(if c.keep_compressed { o.lfh.compressed_size } else { 0 }, c.wide),
                uncompressed_size: dd_size(if c.keep_uncompressed { o.lfh.uncompressed_size } else { 0 }, c.wide),
            })
            &&& e.lfh.crc32 == (if c.zero_all || c.zero_crc { 0 } else { o.lfh.crc32 })
            &&& e.lfh.compressed_size == (if c.zero_all || c.zero_compressed { 0 } else { o.lfh.compressed_size })
            &&& e.lfh.uncompressed_size == (if c.zero_all || c.zero_uncompressed { 0 } else { o.lfh.uncompressed_size })
        },
    }
}

/// Marks entry `i` as followed by a data descriptor, as `descriptor_set`
/// describes.
pub fn set_data_descriptor(zip: &mut ZipArchive, i: usize, c: DescriptorChoices)
    requires
        i < old(zip).files@.len(),
    ensures
        descriptor_set(*old(zip), *final(zip), i as int, c),
{
    zip.files[i].lfh.general_purpose_flag.insert(GeneralPurposeFlag::DATA_DESCRIPTOR);
    match zip.files[i].dd {
        Some(dd) => {
            let crc = if zip.files[i].lfh.crc32 == 0 { dd.crc32 } else { 0 };
            let cs = if zip.files[i].lfh.compressed_size == 0 { dd.compressed_size.saturate() } else { 0 };
            let us = if zip.files[i].lfh.uncompressed_size == 0 { dd.uncompressed_size.saturate() } else { 0 };
            zip.files[i].lfh.crc32 = crc;
            zip.files[i].lfh.compressed_size = cs;
            zip.files[i].lfh.uncompressed_size = us;
        },
        None => {
            let signature = if c.signature { Some(DataDescriptor::SIGNATURE) } else { None };
            let crc = if c.keep_crc { zip.files[i].lfh.crc32 } else { 0 };
            let cs = if c.keep_compressed { zip.files[i].lfh.compressed_size } else { 0 };
            let us = if c.keep_uncompressed { zip.files[i].lfh.uncompressed_size } else { 0 };
            let (compressed_size, uncompressed_size) = if c.wide {
                (U32or64::U64(cs as u64), U32or64::U64(us as u64))
            } else {
                (U32or64::U32(cs), U32or64::U32(us))
            };
            zip.files[i].dd = Some(DataDescriptor { signature, crc32: crc, compressed_size, uncompressed_size });
            if c.zero_all || c.zero_crc {
                zip.files[i].lfh.crc32 = 0;
            }
            if c.zero_all || c.zero_compressed {
                zip.files[i].lfh.compressed_size = 0;
            }
            if c.zero_all || c.zero_uncompressed {
                zip.files[i].lfh.uncompressed_size = 0;
            }
        },
    }
}

/// Marks a random entry as followed by a data descriptor, with random
/// choices (one time in ten 64-bit sizes; half the time all three local
/// fields zeroed, else each with odds one half).
pub fn add_data_descriptor(zip: &mut ZipArchive, rng: &mut ThreadRng) -> (r: bool)
    ensures
        r <==> old(zip).files@.len() > 0,
        !r ==> *final(zip) == *old(zip),
        r ==> exists|i: int, c: DescriptorChoices| #[trigger] descriptor_set(*old(zip), *final(zip), i, c),
{
    if zip.files.len() == 0 {
        return false;
    }
    let i = below(rng, zip.files.len());
    let signature = random_bool(rng);
    let keep_crc = random_bool(rng);
    let keep_compressed = random_bool(rng);
    let keep_uncompressed = random_bool(rng);
    let wide = ratio(rng, 1, 10);
    let zero_all = random_bool(rng);
    let zero_crc = random_bool(rng);
    let zero_compressed = random_bool(rng);
    let zero_uncompressed = random_bool(rng);
    let c = DescriptorChoices {
        signature,
        keep_crc,
        keep_compressed,
        keep_uncompressed,
        wide,
        zero_all,
        zero_crc,
        zero_compressed,
        zero_uncompressed,
    };
    set_data_descriptor(zip, i, c);
    true
}

/// The content an entry's bytes stand for: decoded with its method where
/// that decodes, else the bytes as they are.
pub open spec fn content_of(f: FileEntry) -> Seq<u8> {
    let m = f.lfh.compression_method.0;
    if is_supported(m) && decompressed_by(m, f.data@) is Some {
        decompressed_by(m, f.data@)->Some_0
    } else {
        f.data@
    }
}

/// `b` is `a` with at most its method, sizes and CRC-32 changed.
pub open spec fn cdh_same_but_method_sizes_crc(a: CentralDirectoryHeader, b: CentralDirectoryHeader) -> bool {
    &&& b.signature == a.signature
    &&& b.version_made_by == a.version_made_by
    &&& b.version_needed == a.version_needed
    &&& b.general_purpose_flag == a.general_purpose_flag
    &&& b.last_mod == a.last_mod
    &&& b.file_name_length == a.file_name_length
    &&& b.extra_field_length == a.extra_field_length
    &&& b.file_comment_length == a.file_comment_length
    &&& b.disk_number_start == a.disk_number_start
    &&& b.internal_file_attributes == a.internal_file_attributes
    &&& b.external_file_attributes == a.external_file_attributes
    &&& b.relative_header_offset == a.relative_header_offset
    &&& b.file_name@ == a.file_name@
    &&& b.extra_fields@ == a.extra_fields@
    &&& b.extra_fields_raw@ == a.extra_fields_raw@
    &&& b.file_comment@ == a.file_comment@
    &&& b.zip64 == a.zip64
}

/// `new` is `old` with entry `i` holding `data` under method `method`: the
/// local header, and the central header at the same index where there is
/// one, get the method, the sizes (cut to 32 bits) and the CRC-32 of
/// `content`. Nothing else changes.
pub open spec fn content_set(old: ZipArchive, new: ZipArchive, i: int, method: CompressionMethod, data: Seq<u8>, content: Seq<u8>) -> bool {
    let o = old.files@[i];
    let e = new.files@[i];
    &&& 0 <= i < old.files@.len()
    &&& new.files@.len() == old.files@.len()
    &&& forall|j: int| 0 <= j < old.files@.len() && j != i ==> #[trigger] new.files@[j] == old.files@[j]
    &&& new.cd@.len() == old.cd@.len()
    &&& forall|j: int| 0 <= j < old.cd@.len() && j != i ==> #[trigger] new.cd@[j] == old.cd@[j]
    &&& new.eocdr == old.eocdr
    &&& new.zip64_eocdr == old.zip64_eocdr
    &&& new.zip64_eocdl == old.zip64_eocdl
    &&& e.data@ == data
    &&& e.dd == o.dd
    &&& e.lfh.compression_method == method
    &&& e.lfh.compressed_size == data.len() as u32
    &&& e.lfh.uncompressed_size == content.len() as u32
    &&& e.lfh.crc32 == crc32_of(content)
    &&& e.lfh.general_purpose_flag == o.lfh.general_purpose_flag
    &&& e.lfh.version_needed == o.lfh.version_needed
    &&& e.lfh.last_mod == o.lfh.last_mod
    &&& e.lfh.file_name@ == o.lfh.file_name@
    &&& e.lfh.file_name_length == o.lfh.file_name_length
    &&& e.lfh.extra_fields@ == o.lfh.extra_fields@
    &&& e.lfh.extra_fields_raw@ == o.lfh.extra_fields_raw@
    &&& e.lfh.extra_field_length == o.lfh.extra_field_length
    &&& e.lfh.zip64 == o.lfh.zip64
    &&& e.lfh.keep_empty_zip64 == o.lfh.keep_empty_zip64
    &&& (i < old.cd@.len() ==> {
        &&& cdh_same_but_method_sizes_crc(old.cd@[i], new.cd@[i])
        &&& new.cd@[i].compression_method == method
        &&& new.cd@[i].compressed_size == data.len() as u32
        &&& new.cd@[i].uncompressed_size == content.len() as u32
        &&& new.cd@[i].crc32 == crc32_of(content)
    })
}

/// Stores `data`, the encoding of `content` under `method`, as entry `i`,
/// as `content_set` describes.
pub fn set_entry_content(zip: &mut ZipArchive, i: usize, method: CompressionMethod, data: Vec<u8>, content: &Vec<u8>)
    requires
        i < old(zip).files@.len(),
    ensures
        content_set(*old(zip), *final(zip), i as int, method, data@, content@),
{
    let crc = crc32(content.as_slice());
    let cs = data.len() as u32;
    let us = content.len() as u32;
    zip.files[i].lfh.compression_method = method;
    zip.files[i].lfh.compressed_size = cs;
    zip.files[i].lfh.uncompressed_size = us;
    zip.files[i].lfh.crc32 = crc;
    zip.files[i].data = data;
    if i < zip.cd.len() {
        zip.cd[i].compression_method = method;
        zip.cd[i].compressed_size = cs;
        zip.cd[i].uncompressed_size = us;
        zip.cd[i].crc32 = crc;
    }
}

/// Entry `i` re-encoded with method `c`: its content (decoded where its
/// method decodes it) compressed with `c`, or kept as it is where `c` has no
/// codec or the codec fails.
pub fn recompress_entry(zip: &mut ZipArchive, i: usize, c: CompressionMethod)
    requires
        i < old(zip).files@.len(),
    ensures
        content_set(*old(zip), *final(zip), i as int, c, final(zip).files@[i as int].data@, content_of(old(zip).files@[i as int])),
        final(zip).files@[i as int].data@ == compressed_by(c.0, content_of(old(zip).files@[i as int]))
            || final(zip).files@[i as int].data@ == content_of(old(zip).files@[i as int]),
        is_supported(c.0) && c.0 != CompressionMethod::ZSTD
            ==> final(zip).files@[i as int].data@ == compressed_by(c.0, content_of(old(zip).files@[i as int])),
{
    let method = zip.files[i].lfh.compression_method;
    let content = match decompress(method, zip.files[i].data.as_slice()) {
        Ok(d) => d,
        Err(_) => zip.files[i].data.clone(),
    };
    let data = match compress(c, content.as_slice()) {
        Ok(v) => v,
        Err(_) => content.clone(),
    };
    set_entry_content(zip, i, c, data, &content);
}

/// Re-compresses a random entry's content with another method (keeping the
/// bytes as they are where a codec fails), and sets the local header's and,
/// where there is one, the matching central header's method, sizes and
/// CRC-32 to match.
pub fn modify_content_compression(zip: &mut ZipArchive, rng: &mut ThreadRng) -> (r: bool)
    ensures
        r <==> old(zip).files@.len() > 0,
        !r ==> *final(zip) == *old(zip),
        r ==> exists|i: int, c: CompressionMethod| c != old(zip).files@[i].lfh.compression_method
            && #[trigger] content_set(*old(zip), *final(zip), i, c, final(zip).files@[i].data@, content_of(old(zip).files@[i])),
{
    if zip.files.len() == 0 {
        return false;
    }
    let index = below(rng, zip.files.len());
    let compression = rand_compression(zip.files[index].lfh.compression_method, rng);
    recompress_entry(zip, index, compression);
    true
}

/// Resizes a random entry's content by a random length step (new bytes
/// random), re-compresses it with its method, and updates sizes and CRC-32
/// in the local header and the matching central header. It fails, changing
/// nothing, where the content does not decode or the codec fails.
pub fn modify_content_size(zip: &mut ZipArchive, rng: &mut ThreadRng) -> (r: bool)
    ensures
        !r ==> *final(zip) == *old(zip),
        r ==> exists|i: int, content: Seq<u8>| #![trigger old(zip).files@[i], content.len()] {
            let o = old(zip).files@[i];
            let m = o.lfh.compression_method;
            &&& decompressed_by(m.0, o.data@) is Some
            &&& len_mutated(decompressed_by(m.0, o.data@)->Some_0.len() as int, content.len() as int, usize::MAX as int)
            &&& (forall|k: int| 0 <= k < content.len() && k < decompressed_by(m.0, o.data@)->Some_0.len()
                ==> content[k] == decompressed_by(m.0, o.data@)->Some_0[k])
            &&& content_set(*old(zip), *final(zip), i, o.lfh.compression_method,
                compressed_by(o.lfh.compression_method.0, content), content)
        },
        old(zip).files@.len() > 0 ==> (r || exists|i: int| 0 <= i < old(zip).files@.len()
            && !(is_supported(old(zip).files@[i].lfh.compression_method.0)
                && old(zip).files@[i].lfh.compression_method.0 != CompressionMethod::ZSTD
                && decompressed_by(old(zip).files@[i].lfh.compression_method.0, old(zip).files@[i].data@) is Some)),
{
    if zip.files.len() == 0 {
        return false;
    }
    let index = below(rng, zip.files.len());
    let method = zip.files[index].lfh.compression_method;
    let mut content = match decompress(method, zip.files[index].data.as_slice()) {
        Ok(d) => d,
        Err(_) => return false,
    };
    let ghost decoded = content@;
    let mut size = content.len();
    mutate_len_usize(&mut size, rng);
    resize_random(&mut content, size, rng);
    let data = match compress(method, content.as_slice()) {
        Ok(c) => c,
        Err(_) => return false,
    };
    set_entry_content(zip, index, method, data, &content);
    true
}

/// Switches to ZIP64 end records, then copies into the classic record (all
/// of it, or a random choice of its numbers) the values of the ZIP64 record,
/// where they fit.
pub fn use_zip64_eocd_no_ff(zip: &mut ZipArchive, rng: &mut ThreadRng) -> (r: bool)
    ensures
        final(zip).files@ == old(zip).files@,
        final(zip).cd@ == old(zip).cd@,
        old(zip).eocd_sizes_fit() && classic_fits(old(zip).cd@.len() as int, old(zip).cd.encoding().len() as int,
            old(zip).cd_start()) ==> r,
        r ==> classic_fits(old(zip).cd@.len() as int, old(zip).cd.encoding().len() as int, old(zip).cd_start())
            && zip64_records_for(*final(zip), old(zip).cd@.len() as int, old(zip).cd.encoding().len() as int, old(zip).cd_start())
            && classic_from_zip64(final(zip).eocdr, old(zip).cd@.len() as int, old(zip).cd.encoding().len() as int, old(zip).cd_start()),
{
    if zip.set_eocd(true).is_err() {
        return false;
    }
    let e = match &zip.zip64_eocdr {
        Some(z) => match EndOfCentralDirectoryRecord::from_zip64(z) {
            Some(e) => e,
            None => return false,
        },
        None => return false,
    };
    if random_bool(rng) {
        zip.eocdr = e;
    } else {
        if random_bool(rng) {
            zip.eocdr.number_of_this_disk = e.number_of_this_disk;
        }
        if random_bool(rng) {
            zip.eocdr.start_of_cd_disk_number = e.start_of_cd_disk_number;
        }
        if random_bool(rng) {
            zip.eocdr.this_disk_cdh_count = e.this_disk_cdh_count;
        }
        if random_bool(rng) {
            zip.eocdr.total_cdh_count = e.total_cdh_count;
        }
        if random_bool(rng) {
            zip.eocdr.size_of_cd = e.size_of_cd;
        }
        if random_bool(rng) {
            zip.eocdr.offset_of_cd_wrt_starting_disk = e.offset_of_cd_wrt_starting_disk;
        }
    }
    true
}

/// Each number of the classic record `e` is either its all-ones sentinel
/// or the value of the ZIP64 record for `count` headers of `size` bytes at
/// `start`; the comment stays empty.
pub open spec fn classic_from_zip64(e: EndOfCentralDirectoryRecord, count: int, size: int, start: int) -> bool {
    &&& e.signature == EndOfCentralDirectoryRecord::SIGNATURE
    &&& e.zip_file_comment_length == 0
    &&& e.zip_file_comment@.len() == 0
    &&& (e.number_of_this_disk == u16::MAX || e.number_of_this_disk == 0)
    &&& (e.start_of_cd_disk_number == u16::MAX || e.start_of_cd_disk_number == 0)
    &&& (e.this_disk_cdh_count == u16::MAX || e.this_disk_cdh_count == count)
    &&& (e.total_cdh_count == u16::MAX || e.total_cdh_count == count)
    &&& (e.size_of_cd == u32::MAX || e.size_of_cd == size)
    &&& (e.offset_of_cd_wrt_starting_disk == u32::MAX || e.offset_of_cd_wrt_starting_disk == start)
}

/// `a` is kept or moved by a random length step.
pub open spec fn kept_or_stepped(a: int, b: int, max: int) -> bool {
    a == b || len_mutated(a, b, max)
}

/// `z` is `b` with each number kept or stepped, its versions and the central
/// directory size possibly redrawn, and the rest kept.
pub open spec fn zip64_record_mutated(b: Zip64EndOfCentralDirectoryRecord, z: Zip64EndOfCentralDirectoryRecord) -> bool {
    &&& z.signature == b.signature
    &&& z.v2 == b.v2
    &&& z.extensible_data_sector@ == b.extensible_data_sector@
    &&& kept_or_stepped(b.size as int, z.size as int, u64::MAX as int)
    &&& kept_or_stepped(b.number_of_this_disk as int, z.number_of_this_disk as int, u32::MAX as int)
    &&& kept_or_stepped(b.start_of_cd_disk_number as int, z.start_of_cd_disk_number as int, u32::MAX as int)
    &&& kept_or_stepped(b.this_disk_cdh_count as int, z.this_disk_cdh_count as int, u64::MAX as int)
    &&& kept_or_stepped(b.total_cdh_count as int, z.total_cdh_count as int, u64::MAX as int)
    &&& kept_or_stepped(b.offset_of_cd_wrt_starting_disk as int, z.offset_of_cd_wrt_starting_disk as int, u64::MAX as int)
}

/// The ZIP64 record a ZIP64 mutation starts from: the archive's own, or
/// the one `set_eocd(true)` makes (with its classic record and locator).
pub open spec fn zip64_base(old: ZipArchive, new: ZipArchive, b: Zip64EndOfCentralDirectoryRecord) -> bool {
    ||| old.zip64_eocdr == Some(b) && new.eocdr == old.eocdr && new.zip64_eocdl == old.zip64_eocdl
    ||| old.zip64_eocdr is None && {
        let count = old.cd@.len() as int;
        let size = old.cd.encoding().len() as int;
        let start = old.cd_start();
        &&& zip64_record_for(b, count, size, start)
        &&& new.zip64_eocdl == Some(Zip64EndOfCentralDirectoryLocator::spec_from_offset((start + size) as u64))
        &&& new.eocdr.signature == EndOfCentralDirectoryRecord::SIGNATURE
        &&& new.eocdr.zip_file_comment_length == 0
        &&& new.eocdr.zip_file_comment@.len() == 0
        &&& new.eocdr.number_of_this_disk == u16::MAX
        &&& new.eocdr.start_of_cd_disk_number == u16::MAX
        &&& new.eocdr.this_disk_cdh_count == u16::MAX
        &&& new.eocdr.total_cdh_count == u16::MAX
        &&& new.eocdr.size_of_cd == u32::MAX
        &&& new.eocdr.offset_of_cd_wrt_starting_disk == u32::MAX
    }
}

/// Makes sure there is a ZIP64 end record, then steps each of its numbers
/// by a random length (or sets its version fields at random) with odds one
/// in five each.
pub fn modify_zip64_eocdr(zip: &mut ZipArchive, rng: &mut ThreadRng) -> (r: bool)
    ensures
        final(zip).files@ == old(zip).files@,
        final(zip).cd@ == old(zip).cd@,
        old(zip).zip64_eocdr is Some || old(zip).eocd_sizes_fit() ==> r,
        r ==> exists|b: Zip64EndOfCentralDirectoryRecord| #[trigger] zip64_base(*old(zip), *final(zip), b)
            && (final(zip).zip64_eocdr matches Some(z) && zip64_record_mutated(b, z)),
{
    if zip.zip64_eocdr.is_none() {
        if zip.set_eocd(true).is_err() {
            return false;
        }
    }
    let ghost mid = *zip;
    let ghost b = zip.zip64_eocdr->Some_0;
    assert(zip64_base(*old(zip), mid, b));
    assert(zip.cd@ == old(zip).cd@);
    let cd = &zip.cd;
    let r = match &mut zip.zip64_eocdr {
        Some(z) => {
            if ratio(rng, 1, 5) {
                mutate_len_u64(&mut z.size, rng);
            }
            if ratio(rng, 1, 5) {
                z.version_made_by = random_u16(rng);
            }
            if ratio(rng, 1, 5) {
                z.version_needed = random_u16(rng);
            }
            if ratio(rng, 1, 5) {
                mutate_len_u32(&mut z.number_of_this_disk, rng);
            }
            if ratio(rng, 1, 5) {
                mutate_len_u32(&mut z.start_of_cd_disk_number, rng);
            }
            if ratio(rng, 1, 5) {
                mutate_len_u64(&mut z.this_disk_cdh_count, rng);
            }
            if ratio(rng, 1, 5) {
                mutate_len_u64(&mut z.total_cdh_count, rng);
            }
            if ratio(rng, 1, 5) {
                mutate_cd_size_u64(cd, &mut z.size_of_cd, rng);
            }
            if ratio(rng, 1, 5) {
                mutate_len_u64(&mut z.offset_of_cd_wrt_starting_disk, rng);
            }
            true
        },
        None => false,
    };
    proof {
        if r {
            assert(zip64_base(*old(zip), *zip, b));
        }
    }
    r
}

/// Makes sure there is a ZIP64 end record and turns it into version 2; then
/// may put its versions back to 20, mark the block deflated, and step its
/// sizes.
pub fn use_zip64_eocdr_v2(zip: &mut ZipArchive, rng: &mut ThreadRng) -> (r: bool)
    ensures
        final(zip).files@ == old(zip).files@,
        final(zip).cd@ == old(zip).cd@,
        (old(zip).zip64_eocdr is None && old(zip).eocd_sizes_fit())
            || (old(zip).zip64_eocdr matches Some(b) && b.extensible_data_sector@.len() == 0) ==> r,
        r ==> exists|b: Zip64EndOfCentralDirectoryRecord| #[trigger] zip64_base(*old(zip), *final(zip), b)
            && (final(zip).zip64_eocdr matches Some(z) && {
            &&& z.signature == b.signature
            &&& z.number_of_this_disk == b.number_of_this_disk
            &&& z.start_of_cd_disk_number == b.start_of_cd_disk_number
            &&& z.this_disk_cdh_count == b.this_disk_cdh_count
            &&& z.total_cdh_count == b.total_cdh_count
            &&& z.size_of_cd == b.size_of_cd
            &&& z.offset_of_cd_wrt_starting_disk == b.offset_of_cd_wrt_starting_disk
            &&& (z.version_made_by == 62 || z.version_made_by == 20)
            &&& (z.version_needed == 62 || z.version_needed == 20)
            &&& z.v2 matches Some(v) && {
                &&& (v.compression_method.0 == 0 || v.compression_method.0 == CompressionMethod::DEFLATED)
                &&& v.encrypt_alg == 0 && v.key_bit_len == 0 && v.encrypt_flags == 0
                &&& v.hash_alg == 0 && v.hash_len == 0 && v.hash_data@.len() == 0
            }
        }),
{
    if zip.zip64_eocdr.is_none() {
        if zip.set_eocd(true).is_err() {
            return false;
        }
    }
    let ghost mid = *zip;
    let ghost b = zip.zip64_eocdr->Some_0;
    assert(zip64_base(*old(zip), mid, b));
    assert(zip.cd@ == old(zip).cd@);
    let cd = &zip.cd;
    let r = match &mut zip.zip64_eocdr {
        Some(z) => {
            if z.use_v2().is_err() {
                return false;
            }
            if random_bool(rng) {
                z.version_made_by = 20;
            }
            if random_bool(rng) {
                z.version_needed = 20;
            }
            match &mut z.v2 {
                Some(v2) => {
                    if ratio(rng, 1, 5) {
                        v2.compression_method = CompressionMethod(CompressionMethod::DEFLATED);
                    }
                    if random_bool(rng) {
                        mutate_cd_size_u64(cd, &mut v2.compressed_size, rng);
                    }
                    if random_bool(rng) {
                        mutate_cd_size_u64(cd, &mut v2.original_size, rng);
                    }
                    true
                },
                None => false,
            }
        },
        None => false,
    };
    proof {
        if r {
            assert(zip64_base(*old(zip), *zip, b));
        }
    }
    r
}

/// Adds a locator pointing where the classic record says the directory
/// starts, where there is none; else steps some of its numbers, or drops it
/// when none was chosen.
pub fn modify_eocdl(zip: &mut ZipArchive, rng: &mut ThreadRng) -> (r: bool)
    ensures
        r,
        final(zip).eocdr == old(zip).eocdr,
        final(zip).zip64_eocdr == old(zip).zip64_eocdr,
        old(zip).zip64_eocdl matches Some(l) ==> (final(zip).zip64_eocdl is None || (final(zip).zip64_eocdl matches Some(n) && {
            &&& n.signature == l.signature
            &&& kept_or_stepped(l.zip64_eocdr_disk_number as int, n.zip64_eocdr_disk_number as int, u32::MAX as int)
            &&& kept_or_stepped(l.zip64_eocdr_offset as int, n.zip64_eocdr_offset as int, u64::MAX as int)
            &&& kept_or_stepped(l.total_number_of_disks as int, n.total_number_of_disks as int, u32::MAX as int)
        })),
        old(zip).zip64_eocdl is None ==> final(zip).zip64_eocdl == Some(
            Zip64EndOfCentralDirectoryLocator::spec_from_offset(old(zip).eocdr.offset_of_cd_wrt_starting_disk as u64)),
        final(zip).files@ == old(zip).files@,
        final(zip).cd@ == old(zip).cd@,
{
    match &mut zip.zip64_eocdl {
        None => {
            zip.zip64_eocdl = Some(Zip64EndOfCentralDirectoryLocator::from_offset(
                zip.eocdr.offset_of_cd_wrt_starting_disk as u64,
            ));
        },
        Some(l) => {
            let a = random_bool(rng);
            let b = random_bool(rng);
            let c = random_bool(rng);
            if a {
                mutate_len_u32(&mut l.zip64_eocdr_disk_number, rng);
            }
            if b {
                mutate_len_u64(&mut l.zip64_eocdr_offset, rng);
            }
            if c {
                mutate_len_u32(&mut l.total_number_of_disks, rng);
            }
            if !a && !b && !c {
                zip.zip64_eocdl = None;
            }
        },
    }
    true
}

} // verus!
