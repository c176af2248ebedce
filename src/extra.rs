//! Extra fields: the ZIP64 extended information, the patch descriptor, the
//! Info-ZIP Unicode Path, and opaque payloads under any other header id.

use crate::crc::{crc32, crc32_of};
use crate::encode::{concat_encodings, BinCount, BinaryEncode};
use crate::error::ZipError;
use crate::le::{le16, le32, le64, push_bytes, push_u16, push_u32, push_u64, push_u8};
use vstd::prelude::*;
use vstd::utf8::encode_utf8;

verus! {

broadcast use crate::le::group_le_lengths;

/// A payload kind with a fixed extra-field header id.
pub trait ExtraFieldType {
    spec fn spec_header_id(&self) -> u16;

    fn header_id(&self) -> (r: u16)
        ensures
            r == self.spec_header_id(),
    ;
}

/// The encoding of an optional 64-bit value: its bytes, or nothing.
pub open spec fn opt64(v: Option<u64>) -> Seq<u8> {
    match v {
        Some(x) => le64(x),
        None => Seq::empty(),
    }
}

/// The encoding of an optional 32-bit value: its bytes, or nothing.
pub open spec fn opt32(v: Option<u32>) -> Seq<u8> {
    match v {
        Some(x) => le32(x),
        None => Seq::empty(),
    }
}

pub(crate) fn push_opt64(out: &mut Vec<u8>, v: Option<u64>)
    ensures
        final(out)@ == old(out)@ + opt64(v),
{
    match v {
        Some(x) => push_u64(out, x),
        None => {
            assert(out@ =~= out@ + opt64(v));
        },
    }
}

pub(crate) fn push_opt32(out: &mut Vec<u8>, v: Option<u32>)
    ensures
        final(out)@ == old(out)@ + opt32(v),
{
    match v {
        Some(x) => push_u32(out, x),
        None => {
            assert(out@ =~= out@ + opt32(v));
        },
    }
}

/// ZIP64 extended information: each value present is written, the absent ones
/// take no room.
#[derive(Clone, Copy, Debug, Default, PartialEq, Eq, Structural)]
pub struct Zip64ExtendedInfo {
    pub original_size: Option<u64>,
    pub compressed_size: Option<u64>,
    pub relative_header_offset: Option<u64>,
    pub disk_start_number: Option<u32>,
}

impl Zip64ExtendedInfo {
    pub open spec fn spec_is_empty(&self) -> bool {
        self.original_size is None && self.compressed_size is None
            && self.relative_header_offset is None && self.disk_start_number is None
    }

    pub fn is_empty(&self) -> (r: bool)
        ensures
            r == self.spec_is_empty(),
    {
        self.original_size.is_none() && self.compressed_size.is_none()
            && self.relative_header_offset.is_none() && self.disk_start_number.is_none()
    }

    pub fn empty() -> (r: Self)
        ensures
            r.spec_is_empty(),
    {
        Zip64ExtendedInfo {
            original_size: None,
            compressed_size: None,
            relative_header_offset: None,
            disk_start_number: None,
        }
    }
}

impl ExtraFieldType for Zip64ExtendedInfo {
    open spec fn spec_header_id(&self) -> u16 {
        1
    }

    fn header_id(&self) -> (r: u16) {
        1
    }
}

impl BinaryEncode for Zip64ExtendedInfo {
    open spec fn encoding(&self) -> Seq<u8> {
        opt64(self.original_size) + opt64(self.compressed_size) + opt64(self.relative_header_offset)
            + opt32(self.disk_start_number)
    }

    fn write(&self, out: &mut Vec<u8>) {
        push_opt64(out, self.original_size);
        push_opt64(out, self.compressed_size);
        push_opt64(out, self.relative_header_offset);
        push_opt32(out, self.disk_start_number);
        assert(out@ =~= old(out)@ + self.encoding());
    }
}

impl BinCount for Zip64ExtendedInfo {
    fn byte_count(&self) -> (r: Result<usize, ZipError>) {
        let mut n: usize = 0;
        if self.original_size.is_some() {
            n = n + 8;
        }
        if self.compressed_size.is_some() {
            n = n + 8;
        }
        if self.relative_header_offset.is_some() {
            n = n + 8;
        }
        if self.disk_start_number.is_some() {
            n = n + 4;
        }
        Ok(n)
    }
}

/// The flag word of a patch descriptor.
#[derive(Clone, Copy, Debug, Default, PartialEq, Eq, Structural)]
pub struct PatchDescriptorFlag(pub u32);

impl PatchDescriptorFlag {
    pub const AUTO_DETECTION: u32 = 0x1;
    pub const SELF_PATCH: u32 = 0x2;
    pub const ACTION_ADD: u32 = 0x10;
    pub const ACTION_DELETE: u32 = 0x20;
    pub const ACTION_PATCH: u32 = 0x30;
    pub const REACTION_TO_ABSENT_SKIP: u32 = 0x100;
    pub const REACTION_TO_ABSENT_IGNORE: u32 = 0x200;
    pub const REACTION_TO_ABSENT_FAIL: u32 = 0x300;
    pub const REACTION_TO_NEWER_SKIP: u32 = 0x400;
    pub const REACTION_TO_NEWER_IGNORE: u32 = 0x800;
    pub const REACTION_TO_NEWER_FAIL: u32 = 0xc00;
    pub const REACTION_TO_UNKNOWN_SKIP: u32 = 0x1000;
    pub const REACTION_TO_UNKNOWN_IGNORE: u32 = 0x2000;
    pub const REACTION_TO_UNKNOWN_FAIL: u32 = 0x3000;
}

/// The patch descriptor extra field.
#[derive(Clone, Copy, Debug, Default, PartialEq, Eq, Structural)]
pub struct PatchDescriptor {
    pub version: u16,
    pub flags: PatchDescriptorFlag,
    pub old_size: u32,
    pub old_crc: u32,
    pub new_size: u32,
    pub new_crc: u32,
}

impl ExtraFieldType for PatchDescriptor {
    open spec fn spec_header_id(&self) -> u16 {
        0xf
    }

    fn header_id(&self) -> (r: u16) {
        0xf
    }
}

impl BinaryEncode for PatchDescriptor {
    open spec fn encoding(&self) -> Seq<u8> {
        le16(self.version) + le32(self.flags.0) + le32(self.old_size) + le32(self.old_crc)
            + le32(self.new_size) + le32(self.new_crc)
    }

    fn write(&self, out: &mut Vec<u8>) {
        push_u16(out, self.version);
        push_u32(out, self.flags.0);
        push_u32(out, self.old_size);
        push_u32(out, self.old_crc);
        push_u32(out, self.new_size);
        push_u32(out, self.new_crc);
        assert(out@ =~= old(out)@ + self.encoding());
    }
}

impl BinCount for PatchDescriptor {
    fn byte_count(&self) -> (r: Result<usize, ZipError>) {
        Ok(22)
    }
}

/// The Info-ZIP Unicode Path extra field: a version, the CRC-32 of the name it
/// stands for, and the UTF-8 name.
#[derive(Clone, Debug)]
pub struct InfoZipUnicodePath {
    pub version: u8,
    pub name_crc32: u32,
    pub unicode_name: String,
}

impl InfoZipUnicodePath {
    /// Version 1, with the CRC-32 of `name`.
    pub fn new(unicode_name: String, name: &str) -> (r: Self)
        ensures
            r.version == 1,
            r.name_crc32 == crc32_of(encode_utf8(name@)),
            r.unicode_name@ == unicode_name@,
    {
        let name_crc32 = crc32(name.as_bytes());
        InfoZipUnicodePath { version: 1, name_crc32, unicode_name }
    }
}

impl InfoZipUnicodePath {
    pub fn duplicate(&self) -> (r: Self)
        ensures
            r.version == self.version,
            r.name_crc32 == self.name_crc32,
            r.unicode_name@ == self.unicode_name@,
    {
        InfoZipUnicodePath {
            version: self.version,
            name_crc32: self.name_crc32,
            unicode_name: self.unicode_name.clone(),
        }
    }
}

impl ExtraFieldType for InfoZipUnicodePath {
    open spec fn spec_header_id(&self) -> u16 {
        0x7075
    }

    fn header_id(&self) -> (r: u16) {
        0x7075
    }
}

impl BinaryEncode for InfoZipUnicodePath {
    open spec fn encoding(&self) -> Seq<u8> {
        seq![self.version] + le32(self.name_crc32) + encode_utf8(self.unicode_name@)
    }

    fn write(&self, out: &mut Vec<u8>) {
        push_u8(out, self.version);
        push_u32(out, self.name_crc32);
        push_bytes(out, self.unicode_name.as_str().as_bytes());
        assert(out@ =~= old(out)@ + self.encoding());
    }
}

impl BinCount for InfoZipUnicodePath {
    fn byte_count(&self) -> (r: Result<usize, ZipError>) {
        let n = self.unicode_name.as_str().as_bytes().len();
        if n > usize::MAX - 5 {
            return Err(ZipError::TooLarge);
        }
        Ok(5 + n)
    }
}

/// The payload of an extra field: one of the known kinds, or opaque bytes
/// under a header id of their own.
#[derive(Clone, Debug)]
pub enum ExtraFieldData {
    Zip64(Zip64ExtendedInfo),
    Patch(PatchDescriptor),
    UnicodePath(InfoZipUnicodePath),
    Opaque { header_id: u16, bytes: Vec<u8> },
}

/// Two payloads that carry the same header id, encode to the same bytes,
/// and are both ZIP64 information or both not.
pub open spec fn same_payload(a: ExtraFieldData, b: ExtraFieldData) -> bool {
    a.spec_header_id() == b.spec_header_id() && a.encoding() == b.encoding() && (a is Zip64 <==> b is Zip64)
}

impl ExtraFieldData {
    pub fn duplicate(&self) -> (r: Self)
        ensures
            same_payload(r, *self),
            self is Zip64 ==> r == *self,
    {
        match self {
            ExtraFieldData::Zip64(d) => ExtraFieldData::Zip64(*d),
            ExtraFieldData::Patch(d) => ExtraFieldData::Patch(*d),
            ExtraFieldData::UnicodePath(d) => ExtraFieldData::UnicodePath(d.duplicate()),
            ExtraFieldData::Opaque { header_id, bytes } => {
                let b = bytes.clone();
                ExtraFieldData::Opaque { header_id: *header_id, bytes: b }
            },
        }
    }
}

impl ExtraFieldType for ExtraFieldData {
    open spec fn spec_header_id(&self) -> u16 {
        match self {
            ExtraFieldData::Zip64(d) => d.spec_header_id(),
            ExtraFieldData::Patch(d) => d.spec_header_id(),
            ExtraFieldData::UnicodePath(d) => d.spec_header_id(),
            ExtraFieldData::Opaque { header_id, .. } => *header_id,
        }
    }

    fn header_id(&self) -> (r: u16) {
        match self {
            ExtraFieldData::Zip64(d) => d.header_id(),
            ExtraFieldData::Patch(d) => d.header_id(),
            ExtraFieldData::UnicodePath(d) => d.header_id(),
            ExtraFieldData::Opaque { header_id, .. } => *header_id,
        }
    }
}

impl BinaryEncode for ExtraFieldData {
    open spec fn encoding(&self) -> Seq<u8> {
        match self {
            ExtraFieldData::Zip64(d) => d.encoding(),
            ExtraFieldData::Patch(d) => d.encoding(),
            ExtraFieldData::UnicodePath(d) => d.encoding(),
            ExtraFieldData::Opaque { bytes, .. } => bytes@,
        }
    }

    fn write(&self, out: &mut Vec<u8>) {
        match self {
            ExtraFieldData::Zip64(d) => d.write(out),
            ExtraFieldData::Patch(d) => d.write(out),
            ExtraFieldData::UnicodePath(d) => d.write(out),
            ExtraFieldData::Opaque { bytes, .. } => push_bytes(out, bytes.as_slice()),
        }
    }
}

impl BinCount for ExtraFieldData {
    fn byte_count(&self) -> (r: Result<usize, ZipError>) {
        match self {
            ExtraFieldData::Zip64(d) => d.byte_count(),
            ExtraFieldData::Patch(d) => d.byte_count(),
            ExtraFieldData::UnicodePath(d) => d.byte_count(),
            ExtraFieldData::Opaque { bytes, .. } => Ok(bytes.len()),
        }
    }
}

/// One extra field: header id, payload size and payload. The id and size are
/// stored, not derived, so that they may disagree with the payload.
#[derive(Clone, Debug)]
pub struct ExtraField {
    pub header_id: u16,
    pub size: u16,
    pub data: ExtraFieldData,
}

impl ExtraField {
    /// A field around `data`, with id and size still zero.
    pub fn from_data(data: ExtraFieldData) -> (r: Self)
        ensures
            r.header_id == 0,
            r.size == 0,
            r.data == data,
    {
        ExtraField { header_id: 0, size: 0, data }
    }

    pub fn duplicate(&self) -> (r: Self)
        ensures
            r.header_id == self.header_id,
            r.size == self.size,
            same_payload(r.data, self.data),
            r.encoding() == self.encoding(),
    {
        ExtraField { header_id: self.header_id, size: self.size, data: self.data.duplicate() }
    }

    /// Sets the header id from the payload kind and the size from the
    /// payload's encoded length.
    pub fn finalize(&mut self) -> (r: Result<(), ZipError>)
        ensures
            r is Ok <==> old(self).data.encoding().len() <= u16::MAX,
            r matches Err(e) ==> e == ZipError::ExtraFieldTooLong && *final(self) == *old(self),
            r is Ok ==> final(self).header_id == old(self).data.spec_header_id()
                && final(self).size == old(self).data.encoding().len()
                && final(self).data == old(self).data,
    {
        let n = match self.data.byte_count() {
            Ok(n) => n,
            Err(_) => return Err(ZipError::ExtraFieldTooLong),
        };
        if n > 0xffff {
            return Err(ZipError::ExtraFieldTooLong);
        }
        self.header_id = self.data.header_id();
        self.size = n as u16;
        Ok(())
    }
}

impl BinaryEncode for ExtraField {
    open spec fn encoding(&self) -> Seq<u8> {
        le16(self.header_id) + le16(self.size) + self.data.encoding()
    }

    fn write(&self, out: &mut Vec<u8>) {
        push_u16(out, self.header_id);
        push_u16(out, self.size);
        self.data.write(out);
        assert(out@ =~= old(out)@ + self.encoding());
    }
}

impl BinCount for ExtraField {
    fn byte_count(&self) -> (r: Result<usize, ZipError>) {
        let n = self.data.byte_count()?;
        if n > usize::MAX - 4 {
            return Err(ZipError::TooLarge);
        }
        Ok(4 + n)
    }
}

/// `b` is a field-by-field copy of `a`: same ids, sizes and payloads.
pub open spec fn fields_copied(a: Seq<ExtraField>, b: Seq<ExtraField>) -> bool {
    &&& a.len() == b.len()
    &&& forall|i: int|
        0 <= i < a.len() ==> {
            &&& (#[trigger] b[i]).header_id == a[i].header_id
            &&& b[i].size == a[i].size
            &&& same_payload(b[i].data, a[i].data)
        }
}

/// Copies encode to the same bytes.
pub proof fn lemma_copied_encoding(a: Seq<ExtraField>, b: Seq<ExtraField>)
    requires
        fields_copied(a, b),
    ensures
        concat_encodings(a) == concat_encodings(b),
        extras_total(a) == extras_total(b),
    decreases a.len(),
{
    if a.len() > 0 {
        let a1 = a.drop_last();
        let b1 = b.drop_last();
        assert(fields_copied(a1, b1)) by {
            assert forall|i: int| 0 <= i < a1.len() implies {
                &&& (#[trigger] b1[i]).header_id == a1[i].header_id
                &&& b1[i].size == a1[i].size
                &&& same_payload(b1[i].data, a1[i].data)
            } by {
                assert(a1[i] == a[i]);
                assert(b1[i] == b[i]);
            }
        }
        lemma_copied_encoding(a1, b1);
        assert(fields_copied(a, b));
        let k = a.len() - 1;
        assert(b[k].header_id == a[k].header_id && b[k].size == a[k].size && same_payload(b[k].data, a[k].data));
    }
}

/// A field-by-field copy of `v`.
pub fn copy_fields(v: &Vec<ExtraField>) -> (r: Vec<ExtraField>)
    ensures
        fields_copied(v@, r@),
        concat_encodings(r@) == concat_encodings(v@),
{
    let mut r: Vec<ExtraField> = Vec::new();
    let mut i: usize = 0;
    while i < v.len()
        invariant
            i <= v@.len(),
            fields_copied(v@.subrange(0, i as int), r@),
        decreases v@.len() - i,
    {
        let f = v[i].duplicate();
        r.push(f);
        proof {
            let s = v@.subrange(0, i + 1);
            assert forall|j: int| 0 <= j < s.len() implies {
                &&& (#[trigger] r@[j]).header_id == s[j].header_id
                &&& r@[j].size == s[j].size
                &&& same_payload(r@[j].data, s[j].data)
            } by {
                if j < i {
                    assert(s[j] == v@.subrange(0, i as int)[j]);
                }
            }
        }
        i += 1;
    }
    proof {
        assert(v@.subrange(0, v@.len() as int) =~= v@);
        lemma_copied_encoding(v@, r@);
    }
    r
}

/// The encoded length of `s` once every field's size matches its payload:
/// four header bytes and the payload, for each field.
pub open spec fn extras_total(s: Seq<ExtraField>) -> int
    decreases s.len(),
{
    if s.len() == 0 {
        0
    } else {
        extras_total(s.drop_last()) + 4 + s.last().data.encoding().len()
    }
}

/// Every payload of `s` fits a 16-bit size field.
pub open spec fn payloads_fit(s: Seq<ExtraField>) -> bool {
    forall|i: int| 0 <= i < s.len() ==> (#[trigger] s[i]).data.encoding().len() <= u16::MAX
}

/// `new` is `old` with each field's id and size set from its payload.
pub open spec fn fields_finalized(old: Seq<ExtraField>, new: Seq<ExtraField>) -> bool {
    &&& new.len() == old.len()
    &&& forall|i: int|
        0 <= i < new.len() ==> {
            &&& same_payload(#[trigger] new[i].data, old[i].data)
            &&& new[i].header_id == old[i].data.spec_header_id()
            &&& new[i].size == old[i].data.encoding().len()
        }
}

/// The encoded length of a list of fields is the sum of their parts.
pub proof fn lemma_extras_len(s: Seq<ExtraField>)
    ensures
        concat_encodings(s).len() == extras_total(s),
    decreases s.len(),
{
    if s.len() > 0 {
        lemma_extras_len(s.drop_last());
    }
}

/// Finalizing keeps the total length, which depends on the payloads alone.
pub proof fn lemma_extras_total_finalized(old: Seq<ExtraField>, new: Seq<ExtraField>)
    requires
        fields_finalized(old, new),
    ensures
        extras_total(new) == extras_total(old),
    decreases old.len(),
{
    if old.len() > 0 {
        let o = old.drop_last();
        let n = new.drop_last();
        assert(fields_finalized(o, n)) by {
            assert forall|i: int| 0 <= i < n.len() implies {
                &&& same_payload(#[trigger] n[i].data, o[i].data)
                &&& n[i].header_id == o[i].data.spec_header_id()
                &&& n[i].size == o[i].data.encoding().len()
            } by {
                assert(n[i] == new[i]);
                assert(o[i] == old[i]);
            }
        }
        lemma_extras_total_finalized(o, n);
        assert(same_payload(new[new.len() - 1].data, old[old.len() - 1].data));
    }
}

/// Finalizes a header's extra fields and sets its extra-field length: from
/// the structured fields when there are any, else from the raw bytes. Both
/// kinds at once is an error.
pub fn finalize_extras(fields: &mut Vec<ExtraField>, raw_len: usize, length: &mut u16) -> (r: Result<(), ZipError>)
    ensures
        old(fields)@.len() > 0 && raw_len > 0 ==> r == Err::<(), ZipError>(ZipError::DualExtraFields),
        old(fields)@.len() == 0 ==> {
            &&& (r is Ok <==> raw_len <= u16::MAX)
            &&& (r matches Err(e) ==> e == ZipError::ExtraFieldsTooLong)
            &&& (r is Ok ==> *final(length) == raw_len)
            &&& final(fields)@ == old(fields)@
        },
        old(fields)@.len() > 0 && raw_len == 0 ==> {
            &&& (r is Ok <==> payloads_fit(old(fields)@) && extras_total(old(fields)@) <= u16::MAX)
            &&& (r matches Err(e) ==> (e == ZipError::ExtraFieldTooLong <==> !payloads_fit(old(fields)@)))
            &&& (r matches Err(e) ==> e == ZipError::ExtraFieldTooLong || e == ZipError::ExtraFieldsTooLong)
            &&& (r is Ok ==> fields_finalized(old(fields)@, final(fields)@))
            &&& (r is Ok ==> *final(length) == extras_total(old(fields)@))
        },
        r is Err ==> *final(length) == *old(length),
{
    if fields.len() > 0 && raw_len > 0 {
        return Err(ZipError::DualExtraFields);
    }
    if fields.len() == 0 {
        if raw_len > 0xffff {
            return Err(ZipError::ExtraFieldsTooLong);
        }
        *length = raw_len as u16;
        return Ok(());
    }
    let mut done: Vec<ExtraField> = Vec::new();
    let mut i: usize = 0;
    while i < fields.len()
        invariant
            i <= fields@.len(),
            fields@ == old(fields)@,
            fields@.len() > 0,
            raw_len == 0,
            *length == *old(length),
            fields_finalized(fields@.subrange(0, i as int), done@),
            payloads_fit(fields@.subrange(0, i as int)),
        decreases fields@.len() - i,
    {
        let mut f = fields[i].duplicate();
        match f.finalize() {
            Ok(()) => {},
            Err(e) => {
                proof {
                    assert(!payloads_fit(old(fields)@)) by {
                        assert(old(fields)@[i as int].data.encoding() == f.data.encoding());
                    }
                }
                return Err(e);
            },
        }
        done.push(f);
        proof {
            let s = fields@.subrange(0, i + 1);
            assert forall|j: int| 0 <= j < done@.len() implies {
                &&& same_payload(#[trigger] done@[j].data, s[j].data)
                &&& done@[j].header_id == s[j].data.spec_header_id()
                &&& done@[j].size == s[j].data.encoding().len()
            } by {
                if j < i {
                    assert(s[j] == fields@.subrange(0, i as int)[j]);
                }
            }
            assert forall|j: int| 0 <= j < s.len() implies (#[trigger] s[j]).data.encoding().len() <= u16::MAX by {
                if j < i {
                    assert(s[j] == fields@.subrange(0, i as int)[j]);
                }
            }
        }
        i += 1;
    }
    proof {
        assert(fields@.subrange(0, fields@.len() as int) =~= fields@);
        lemma_extras_len(done@);
        lemma_extras_total_finalized(old(fields)@, done@);
    }
    let total = match done.byte_count() {
        Ok(n) => n,
        Err(_) => return Err(ZipError::ExtraFieldsTooLong),
    };
    if total > 0xffff {
        return Err(ZipError::ExtraFieldsTooLong);
    }
    *fields = done;
    *length = total as u16;
    Ok(())
}

} // verus!
