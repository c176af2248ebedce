use zip_diff::cdh::CentralDirectoryHeader;
use zip_diff::codec::{compress, decompress};
use zip_diff::crc::{crc32_patch, crc32_patch_from};
use zip_diff::dd::{DataDescriptor, U32or64};
use zip_diff::encode::{binary_encode, BinCount};
use zip_diff::eocd::{
    EndOfCentralDirectoryRecord, Zip64EndOfCentralDirectoryLocator,
    Zip64EndOfCentralDirectoryRecord, Zip64ExtensibleDataSector,
};
use zip_diff::error::ZipError;
use zip_diff::extra::{
    ExtraField, ExtraFieldData, ExtraFieldType, InfoZipUnicodePath, PatchDescriptor,
    PatchDescriptorFlag, Zip64ExtendedInfo,
};
use zip_diff::fields::{CompressionMethod, DosDateTime};
use zip_diff::lfh::LocalFileHeader;
use zip_diff::zip::{FileEntry, ZipArchive};

const CRC32A: &str = "oxueekz";
const CRC32B: &str = "pyqptgs";

fn m(x: u16) -> CompressionMethod {
    CompressionMethod(x)
}

fn u16_at(b: &[u8], i: usize) -> u16 {
    u16::from_le_bytes([b[i], b[i + 1]])
}

fn u32_at(b: &[u8], i: usize) -> u32 {
    u32::from_le_bytes([b[i], b[i + 1], b[i + 2], b[i + 3]])
}

#[test]
fn stored_lfh_desync_writes_method_zero_and_eight() {
    let mut zip = ZipArchive::new();
    zip.add_file("test", b"test", m(CompressionMethod::DEFLATED), false, false).unwrap();
    zip.finalize().unwrap();
    zip.files[0].lfh.compression_method = m(CompressionMethod::STORED);
    zip.files[0].lfh.compressed_size = 4;
    let bytes = binary_encode(&zip);
    assert_eq!(&bytes[0..4], b"PK\x03\x04");
    assert_eq!(u16_at(&bytes, 8), 0);
    let cd_start = zip.files.byte_count().unwrap();
    assert_eq!(&bytes[cd_start..cd_start + 4], b"PK\x01\x02");
    assert_eq!(u16_at(&bytes, cd_start + 10), 8);
    assert_eq!(zip.eocdr.offset_of_cd_wrt_starting_disk as usize, cd_start);
}

#[test]
fn duplicate_names_give_two_headers_each() {
    let mut zip = ZipArchive::new();
    zip.add_file("test", b"a", m(CompressionMethod::STORED), false, false).unwrap();
    zip.add_file("test", b"b", m(CompressionMethod::STORED), false, false).unwrap();
    zip.finalize().unwrap();
    assert_eq!(zip.files.len(), 2);
    assert_eq!(zip.cd.len(), 2);
    assert_eq!(zip.eocdr.total_cdh_count, 2);
    assert_eq!(zip.eocdr.this_disk_cdh_count, 2);
    let bytes = binary_encode(&zip);
    assert_eq!(bytes.len(), zip.byte_count().unwrap());
}

#[test]
fn lfh_and_cdh_names_can_disagree() {
    let mut zip = ZipArchive::new();
    zip.add_simple("lfh", b"test").unwrap();
    zip.finalize().unwrap();
    zip.cd[0].file_name = b"cdh".to_vec();
    assert_eq!(zip.files[0].lfh.file_name, b"lfh".to_vec());
    assert_eq!(zip.cd[0].file_name, b"cdh".to_vec());
    assert_eq!(zip.files[0].lfh.file_name_length, 3);
    assert_eq!(zip.cd[0].file_name_length, 3);
    let bytes = binary_encode(&zip);
    assert_eq!(&bytes[30..33], b"lfh");
}

#[test]
fn modulo_65536_counts_wrap_to_one() {
    let mut zip = ZipArchive::new();
    for i in 1u32..=65537 {
        zip.add_simple(&format!("{:x}/{:x}", i / 256, i % 256), b"").unwrap();
    }
    zip.finalize().unwrap();
    let z = zip.zip64_eocdr.as_mut().unwrap();
    assert_eq!(z.total_cdh_count, 65537);
    assert_eq!(zip.eocdr.total_cdh_count, 0xffff);
    z.this_disk_cdh_count -= 65536;
    z.total_cdh_count -= 65536;
    zip.eocdr = EndOfCentralDirectoryRecord::from_zip64(z).unwrap();
    zip.zip64_eocdr = None;
    zip.zip64_eocdl = None;
    assert_eq!(zip.eocdr.total_cdh_count, 1);
    assert_eq!(zip.eocdr.this_disk_cdh_count, 1);
}

#[test]
fn crc32_collision_keeps_unicode_path_valid() {
    assert_eq!(CRC32A.len(), CRC32B.len());
    assert_eq!(crc32fast::hash(CRC32A.as_bytes()), crc32fast::hash(CRC32B.as_bytes()));
    let a = InfoZipUnicodePath::new("x".to_string(), CRC32A);
    let b = InfoZipUnicodePath::new("x".to_string(), CRC32B);
    assert_eq!(a.name_crc32, b.name_crc32);
    assert_eq!(a.name_crc32, crc32fast::hash(CRC32B.as_bytes()));
    assert_ne!(a.name_crc32, crc32fast::hash(b"x"));
}

#[test]
fn crc32_patch_reaches_target() {
    for (data, target) in [(&b""[..], 0u32), (&b"hello"[..], 0xdeadbeef), (&b"zip-diff"[..], 0x12345678), (&b"\x00\xff"[..], u32::MAX)] {
        let patch = crc32_patch(data, target);
        let mut all = data.to_vec();
        all.extend_from_slice(&patch.to_le_bytes());
        assert_eq!(crc32fast::hash(&all), target);
        assert_eq!(patch, crc32_patch_from(crc32fast::hash(data), target));
    }
}

#[test]
fn codecs_round_trip() {
    let data: Vec<u8> = (0..2000u32).map(|i| (i % 7 + i / 100) as u8).collect();
    for method in [
        CompressionMethod::STORED,
        CompressionMethod::DEFLATED,
        CompressionMethod::BZIP2,
        CompressionMethod::ZSTD,
        CompressionMethod::LZMA,
        CompressionMethod::XZ,
    ] {
        for input in [&data[..], &b""[..], &b"a"[..]] {
            let c = compress(m(method), input).unwrap();
            if method != CompressionMethod::STORED && input.len() == data.len() {
                assert_ne!(c, input.to_vec());
            }
            assert_eq!(decompress(m(method), &c).unwrap(), input.to_vec());
        }
    }
}

#[test]
fn unsupported_methods_are_refused() {
    for method in [CompressionMethod::SHRUNK, CompressionMethod::IMPLODED, CompressionMethod::DEFLATE64, 1234] {
        assert_eq!(compress(m(method), b"abc"), Err(ZipError::UnsupportedMethod(method)));
        assert_eq!(decompress(m(method), b"abc"), Err(ZipError::UnsupportedMethod(method)));
    }
    assert_eq!(decompress(m(CompressionMethod::ZSTD), b"not zstd"), Err(ZipError::CodecFailed(CompressionMethod::ZSTD)));
    let mut zip = ZipArchive::new();
    assert_eq!(zip.add_file("a", b"a", m(CompressionMethod::MP3), false, false), Err(ZipError::UnsupportedMethod(CompressionMethod::MP3)));
    assert!(zip.files.is_empty());
}

#[test]
fn set_offsets_places_each_header_at_its_entry() {
    let mut zip = ZipArchive::new();
    zip.add_simple("a", b"hello").unwrap();
    zip.add_file("bb", b"world world world", m(CompressionMethod::DEFLATED), false, true).unwrap();
    zip.add_file("ccc", b"", m(CompressionMethod::STORED), true, false).unwrap();
    zip.finalize().unwrap();
    zip.set_offsets(100).unwrap();
    let mut offset = 100usize;
    for i in 0..3 {
        assert_eq!(zip.cd[i].relative_header_offset as usize, offset);
        offset += zip.files[i].byte_count().unwrap();
    }
}

#[test]
fn finalize_offsets_start_at_zero() {
    let mut zip = ZipArchive::new();
    zip.add_simple("a", b"1").unwrap();
    zip.add_simple("b/c", b"22").unwrap();
    zip.finalize().unwrap();
    assert_eq!(zip.cd[0].relative_header_offset, 0);
    assert_eq!(zip.cd[1].relative_header_offset, 31 + 1);
    assert_eq!(zip.eocdr.offset_of_cd_wrt_starting_disk, 32 + 35);
    assert_eq!(zip.eocdr.size_of_cd, 47 + 49);
}

#[test]
fn byte_count_matches_serialized_length() {
    let mut zip = ZipArchive::new();
    zip.add_file("deflated", b"some data some data", m(CompressionMethod::DEFLATED), true, true).unwrap();
    zip.add_simple("plain", b"x").unwrap();
    zip.files[1].lfh.extra_fields.push(ExtraField::from_data(ExtraFieldData::Patch(PatchDescriptor::default())));
    zip.files[1].lfh.extra_fields.push(ExtraField::from_data(ExtraFieldData::UnicodePath(InfoZipUnicodePath::new("ünï".to_string(), "plain"))));
    zip.finalize().unwrap();
    zip.set_eocd(true).unwrap();
    zip.zip64_eocdr.as_mut().unwrap().extensible_data_sector.push(Zip64ExtensibleDataSector::from_data(ExtraFieldData::Opaque { header_id: 9, bytes: vec![1, 2, 3] }));
    zip.zip64_eocdr.as_mut().unwrap().use_v2().unwrap();
    assert_eq!(binary_encode(&zip).len(), zip.byte_count().unwrap());
    for f in &zip.files {
        assert_eq!(binary_encode(f).len(), f.byte_count().unwrap());
        assert_eq!(binary_encode(&f.lfh).len(), f.lfh.byte_count().unwrap());
    }
    for c in &zip.cd {
        assert_eq!(binary_encode(c).len(), c.byte_count().unwrap());
    }
    let z = zip.zip64_eocdr.as_ref().unwrap();
    assert_eq!(binary_encode(z).len(), z.byte_count().unwrap());
    assert_eq!(z.size as usize, binary_encode(z).len() - 12);
    assert_eq!(binary_encode(&zip.eocdr).len(), 22);
    assert_eq!(binary_encode(&Zip64EndOfCentralDirectoryLocator::from_offset(5)).len(), 20);
}

#[test]
fn zip64_forced_entry_uses_sentinels() {
    let e = FileEntry::new("big", b"abc", m(CompressionMethod::STORED), true, true).unwrap();
    assert_eq!(e.lfh.compressed_size, u32::MAX);
    assert_eq!(e.lfh.uncompressed_size, u32::MAX);
    assert_eq!(e.lfh.zip64.compressed_size, Some(3));
    assert_eq!(e.lfh.zip64.original_size, Some(3));
    assert!(e.lfh.keep_empty_zip64);
    let dd = e.dd.unwrap();
    assert_eq!(dd.compressed_size, U32or64::U64(3));
    assert_eq!(dd.signature, Some(DataDescriptor::SIGNATURE));
    assert_eq!(dd.crc32, crc32fast::hash(b"abc"));
    assert_eq!(e.lfh.general_purpose_flag.0 & 8, 8);
    let cdh = CentralDirectoryHeader::from_entry(&e);
    assert_eq!(cdh.compressed_size, 3);
    let mut lfh = e.lfh.clone();
    lfh.finalize().unwrap();
    assert_eq!(lfh.extra_fields.len(), 1);
    assert_eq!(lfh.extra_fields[0].header_id, 1);
    assert_eq!(lfh.extra_fields[0].size, 16);
    assert_eq!(lfh.extra_field_length, 20);
}

#[test]
fn saturate_clamps_to_32_bits() {
    assert_eq!(U32or64::U32(7).saturate(), 7);
    assert_eq!(U32or64::U64(7).saturate(), 7);
    assert_eq!(U32or64::U64(1 << 40).saturate(), u32::MAX);
}

#[test]
fn dual_extra_fields_are_refused() {
    let mut lfh = LocalFileHeader::new();
    lfh.extra_fields_raw = vec![1, 2, 3, 4];
    lfh.extra_fields.push(ExtraField::from_data(ExtraFieldData::Patch(PatchDescriptor::default())));
    assert_eq!(lfh.finalize(), Err(ZipError::DualExtraFields));
    let mut raw_only = LocalFileHeader::new();
    raw_only.extra_fields_raw = vec![0; 10];
    raw_only.finalize().unwrap();
    assert_eq!(raw_only.extra_field_length, 10);
}

#[test]
fn oversized_extra_field_is_refused() {
    let mut f = ExtraField::from_data(ExtraFieldData::Opaque { header_id: 0x1234, bytes: vec![0; 70000] });
    assert_eq!(f.finalize(), Err(ZipError::ExtraFieldTooLong));
    let mut g = ExtraField::from_data(ExtraFieldData::Opaque { header_id: 0x1234, bytes: vec![0; 7] });
    g.finalize().unwrap();
    assert_eq!((g.header_id, g.size), (0x1234, 7));
    let mut lfh = LocalFileHeader::new();
    lfh.extra_fields.push(ExtraField::from_data(ExtraFieldData::Opaque { header_id: 1, bytes: vec![0; 40000] }));
    lfh.extra_fields.push(ExtraField::from_data(ExtraFieldData::Opaque { header_id: 2, bytes: vec![0; 40000] }));
    assert_eq!(lfh.finalize(), Err(ZipError::ExtraFieldsTooLong));
}

#[test]
fn long_file_name_is_refused() {
    let name = "n".repeat(70000);
    let mut zip = ZipArchive::new();
    assert_eq!(zip.add_simple(&name, b""), Err(ZipError::FileNameTooLong));
    let mut lfh = LocalFileHeader::new();
    assert_eq!(lfh.set_file_name(&name), Err(ZipError::FileNameTooLong));
    lfh.set_file_name("ok").unwrap();
    assert_eq!(lfh.file_name_length, 2);
}

#[test]
fn header_ids_of_payloads() {
    assert_eq!(Zip64ExtendedInfo::default().header_id(), 1);
    assert_eq!(PatchDescriptor::default().header_id(), 0xf);
    assert_eq!(InfoZipUnicodePath::new(String::new(), "a").header_id(), 0x7075);
    assert!(Zip64ExtendedInfo::default().is_empty());
    assert_eq!(PatchDescriptorFlag::ACTION_PATCH, 0x30);
}

#[test]
fn end_records() {
    let e = EndOfCentralDirectoryRecord::all_ff();
    assert_eq!(e.total_cdh_count, u16::MAX);
    assert_eq!(e.size_of_cd, u32::MAX);
    let l = Zip64EndOfCentralDirectoryLocator::from_offset(77);
    assert_eq!((l.zip64_eocdr_offset, l.total_number_of_disks), (77, 1));
    let mut z = Zip64EndOfCentralDirectoryRecord::new();
    z.size_of_cd = 99;
    z.use_v2().unwrap();
    assert_eq!(z.version_made_by, 62);
    assert_eq!(z.v2.as_ref().unwrap().compressed_size, 99);
    assert_eq!(z.size, 44 + 28);
    let mut zip = ZipArchive::new();
    zip.add_simple("a", b"a").unwrap();
    zip.finalize().unwrap();
    zip.set_eocd(true).unwrap();
    assert_eq!(zip.eocdr.total_cdh_count, u16::MAX);
    let z = zip.zip64_eocdr.as_ref().unwrap();
    assert_eq!(z.total_cdh_count, 1);
    assert_eq!(zip.zip64_eocdl.unwrap().zip64_eocdr_offset, z.offset_of_cd_wrt_starting_disk + z.size_of_cd);
}

#[test]
fn dos_date_time_fields() {
    let d = DosDateTime::from_civil(2024, 5, 17, 13, 45, 31);
    assert_eq!(d.date, ((44u16) << 9) | (5 << 5) | 17);
    assert_eq!(d.time, (13u16 << 11) | (45 << 5) | 15);
    assert_eq!(DosDateTime::new(1, 2).date, 2);
}

#[test]
fn align_pads_every_entry_to_the_longest() {
    let mut zip = ZipArchive::default();
    zip.add_file("a", b"short", m(CompressionMethod::DEFLATED), false, false).unwrap();
    zip.add_simple("b", b"a bit longer").unwrap();
    let mut entries = zip.files;
    zip_diff::align::align_entry_size(&mut entries, b'_').unwrap();
    assert_eq!(entries[0].data, b"short_______".to_vec());
    assert_eq!(entries[1].data, b"a bit longer".to_vec());
    for e in &entries {
        assert_eq!(e.lfh.compression_method.0, CompressionMethod::STORED);
        assert_eq!(e.lfh.compressed_size, 12);
        assert_eq!(e.lfh.uncompressed_size, 12);
        assert_eq!(e.lfh.crc32, crc32fast::hash(&e.data));
    }
    let mut none: Vec<FileEntry> = Vec::new();
    assert_eq!(zip_diff::align::align_entry_size(&mut none, 0), Err(ZipError::NoEntries));
}

#[test]
fn find_file_returns_first_match() {
    let mut zip = ZipArchive::new();
    zip.add_simple("x", b"1").unwrap();
    zip.add_simple("y", b"2").unwrap();
    zip.add_simple("y", b"3").unwrap();
    zip.finalize().unwrap();
    assert_eq!(zip_diff::lookup::find_file(&zip.files, "y"), Some(1));
    assert_eq!(zip_diff::lookup::find_file(&zip.cd, "x"), Some(0));
    assert_eq!(zip_diff::lookup::find_file(&zip.files, "z"), None);
}

#[test]
fn entry_group_writes_entries_then_directory() {
    let mut zip = ZipArchive::new();
    zip.add_simple("g", b"data").unwrap();
    zip.finalize().unwrap();
    let files_len = zip.files.byte_count().unwrap();
    let cd_len = zip.cd.byte_count().unwrap();
    let g = zip_diff::zip::EntryGroup::from_archive(zip);
    let bytes = binary_encode(&g);
    assert_eq!(bytes.len(), files_len + cd_len);
    assert_eq!(g.byte_count().unwrap(), bytes.len());
    assert_eq!(&bytes[files_len..files_len + 4], b"PK\x01\x02");
}

#[test]
fn cd_offset_lines_up_three_directories() {
    let z = zip_diff::construction::cd_offset().unwrap();
    assert_eq!(z.groups.len(), 3);
    let bytes = binary_encode(&z);
    assert_eq!(bytes.len(), z.byte_count().unwrap());
    let g1 = z.groups[0].byte_count().unwrap() as u32;
    assert_eq!(z.groups[1].cd[0].relative_header_offset, g1);
    let cd_size = z.eocdr.size_of_cd as usize;
    assert_eq!(z.groups[2].files[0].byte_count().unwrap(), cd_size);
    assert_eq!(z.groups[2].cd[0].byte_count().unwrap(), cd_size);
    let off = z.eocdr.offset_of_cd_wrt_starting_disk as usize;
    assert_eq!(&bytes[off..off + 4], b"PK\x01\x02");
    assert_eq!(&bytes[bytes.len() - 22..bytes.len() - 18], b"PK\x05\x06");
    // the adjacent directory sits right before the end record
    assert_eq!(&bytes[bytes.len() - 22 - cd_size..bytes.len() - 22 - cd_size + 4], b"PK\x01\x02");
    assert_eq!(
        zip_diff::construction::CRC32A.len(),
        zip_diff::construction::CRC32B.len()
    );
}

#[test]
fn descriptor_sizes_widen_together() {
    let e = FileEntry::new("w", b"abc", m(CompressionMethod::DEFLATED), true, true).unwrap();
    let dd = e.dd.unwrap();
    assert!(matches!(dd.compressed_size, U32or64::U64(_)));
    assert_eq!(dd.uncompressed_size, U32or64::U64(3));
    let e = FileEntry::new("n", b"abc", m(CompressionMethod::STORED), false, true).unwrap();
    let dd = e.dd.unwrap();
    assert_eq!(dd.compressed_size, U32or64::U32(3));
    assert_eq!(dd.uncompressed_size, U32or64::U32(3));
    assert!(!e.lfh.keep_empty_zip64);
}

#[test]
fn finalize_twice_changes_nothing() {
    let mut zip = ZipArchive::new();
    zip.add_file("a", b"hello", m(CompressionMethod::DEFLATED), true, true).unwrap();
    zip.add_file("b", b"x", m(CompressionMethod::STORED), true, false).unwrap();
    zip.add_simple("c", b"plain").unwrap();
    zip.finalize().unwrap();
    let first = binary_encode(&zip);
    zip.finalize().unwrap();
    assert_eq!(binary_encode(&zip), first);
    assert_eq!(zip.files[0].lfh.extra_fields.len(), 1);
    assert_eq!(zip.cd[0].extra_fields.len(), 1);
}

#[test]
fn supported_methods_compress() {
    for method in [CompressionMethod::DEFLATED, CompressionMethod::BZIP2, CompressionMethod::LZMA, CompressionMethod::XZ] {
        let mut zip = ZipArchive::new();
        zip.add_file("f", b"data data data", m(method), false, false).unwrap();
        assert_eq!(zip.files[0].lfh.uncompressed_size, 14);
    }
}
