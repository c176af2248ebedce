//! The local file header.

use crate::encode::{BinCount, BinaryEncode};
use crate::error::ZipError;
use crate::extra::{
    copy_fields, extras_total, lemma_copied_encoding, lemma_extras_len, lemma_extras_total_finalized, same_payload, ExtraFieldType, fields_copied, fields_finalized, finalize_extras, payloads_fit,
    ExtraField, ExtraFieldData, Zip64ExtendedInfo,
};
use crate::fields::{CompressionMethod, DosDateTime, GeneralPurposeFlag};
use crate::le::{bytes_to_vec, le16, le32, push_bytes, push_u16, push_u32};
use vstd::prelude::*;
use vstd::utf8::encode_utf8;

verus! {

broadcast use crate::le::group_le_lengths;

/// A local file header. The length fields are stored apart from the bytes
/// they describe and may disagree with them. `zip64` is the shadow copy of
/// the ZIP64 extended information that `finalize` turns into an extra field;
/// it is not itself written.
#[derive(Clone, Debug)]
pub struct LocalFileHeader {
    pub signature: u32,
    pub version_needed: u16,
    pub general_purpose_flag: GeneralPurposeFlag,
    pub compression_method: CompressionMethod,
    pub last_mod: DosDateTime,
    pub crc32: u32,
    pub compressed_size: u32,
    pub uncompressed_size: u32,
    pub file_name_length: u16,
    pub extra_field_length: u16,
    pub file_name: Vec<u8>,
    pub extra_fields: Vec<ExtraField>,
    /// only one of `extra_fields` and `extra_fields_raw` may be non-empty
    pub extra_fields_raw: Vec<u8>,
    pub zip64: Zip64ExtendedInfo,
    pub keep_empty_zip64: bool,
}

/// The extra field that carries `z`, before it is finalized.
pub open spec fn zip64_field(z: Zip64ExtendedInfo) -> ExtraField {
    ExtraField { header_id: 0, size: 0, data: ExtraFieldData::Zip64(z) }
}

/// The position of the first ZIP64 extra field of `fields`, or -1.
pub open spec fn zip64_index(fields: Seq<ExtraField>) -> int
    decreases fields.len(),
{
    if fields.len() == 0 {
        -1
    } else if fields[0].data is Zip64 {
        0
    } else {
        let k = zip64_index(fields.drop_first());
        if k < 0 { -1 } else { k + 1 }
    }
}

/// The extra fields `finalize` works on: the header's own, with its shadow
/// ZIP64 information, where that is kept, put in place of the first ZIP64
/// extra field (or appended where there is none). Replacing rather than
/// appending makes a second `finalize` change nothing.
pub open spec fn pending_extras(fields: Seq<ExtraField>, zip64: Zip64ExtendedInfo, keep_empty: bool) -> Seq<ExtraField> {
    if keep_empty || !zip64.spec_is_empty() {
        let k = zip64_index(fields);
        if k >= 0 {
            fields.update(k, zip64_field(zip64))
        } else {
            fields.push(zip64_field(zip64))
        }
    } else {
        fields
    }
}

proof fn lemma_zip64_index(fields: Seq<ExtraField>, i: int)
    requires
        0 <= i <= fields.len(),
        forall|j: int| 0 <= j < i ==> !((#[trigger] fields[j]).data is Zip64),
    ensures
        i < fields.len() && fields[i].data is Zip64 ==> zip64_index(fields) == i,
        i == fields.len() ==> zip64_index(fields) == -1,
    decreases i,
{
    if i > 0 {
        let t = fields.drop_first();
        assert forall|j: int| 0 <= j < i - 1 implies !((#[trigger] t[j]).data is Zip64) by {
            assert(t[j] == fields[j + 1]);
        }
        lemma_zip64_index(t, i - 1);
        if i < fields.len() {
            assert(t[i - 1] == fields[i]);
        }
    } else if fields.len() > 0 {
    }
}

/// Puts `z` as an extra field in place of the first ZIP64 extra field of
/// `fields`, or appends it where there is none.
pub fn place_zip64(fields: &mut Vec<ExtraField>, z: Zip64ExtendedInfo)
    ensures
        final(fields)@ == pending_extras(old(fields)@, z, true),
{
    let mut i: usize = 0;
    while i < fields.len()
        invariant
            i <= fields@.len(),
            fields@ == old(fields)@,
            forall|j: int| 0 <= j < i ==> !((#[trigger] fields@[j]).data is Zip64),
        decreases fields@.len() - i,
    {
        let found = match &fields[i].data {
            ExtraFieldData::Zip64(_) => true,
            _ => false,
        };
        if found {
            proof {
                lemma_zip64_index(fields@, i as int);
            }
            fields.set(i, ExtraField::from_data(ExtraFieldData::Zip64(z)));
            return;
        }
        i += 1;
    }
    proof {
        lemma_zip64_index(fields@, i as int);
    }
    fields.push(ExtraField::from_data(ExtraFieldData::Zip64(z)));
}

/// Copies have their ZIP64 extra field at the same place.
pub proof fn lemma_zip64_index_copied(a: Seq<ExtraField>, b: Seq<ExtraField>)
    requires
        fields_copied(a, b),
    ensures
        zip64_index(a) == zip64_index(b),
    decreases a.len(),
{
    if a.len() > 0 {
        let a1 = a.drop_first();
        let b1 = b.drop_first();
        assert(fields_copied(a1, b1)) by {
            assert forall|i: int| 0 <= i < a1.len() implies {
                &&& (#[trigger] b1[i]).header_id == a1[i].header_id
                &&& b1[i].size == a1[i].size
                &&& same_payload(b1[i].data, a1[i].data)
            } by {
                assert(a1[i] == a[i + 1]);
                assert(b1[i] == b[i + 1]);
            }
        }
        lemma_zip64_index_copied(a1, b1);
        assert(same_payload(b[0].data, a[0].data));
    }
}

/// Lists whose payloads match item by item have their ZIP64 extra field at
/// the same place.
pub proof fn lemma_zip64_index_payloads(a: Seq<ExtraField>, b: Seq<ExtraField>)
    requires
        a.len() == b.len(),
        forall|i: int| 0 <= i < a.len() ==> same_payload((#[trigger] a[i]).data, b[i].data),
    ensures
        zip64_index(a) == zip64_index(b),
    decreases a.len(),
{
    if a.len() > 0 {
        let a1 = a.drop_first();
        let b1 = b.drop_first();
        assert forall|i: int| 0 <= i < a1.len() implies same_payload((#[trigger] a1[i]).data, b1[i].data) by {
            assert(a1[i] == a[i + 1]);
            assert(b1[i] == b[i + 1]);
        }
        lemma_zip64_index_payloads(a1, b1);
        assert(same_payload(a[0].data, b[0].data));
    }
}

pub proof fn lemma_zip64_index_placed(a: Seq<ExtraField>, z: Zip64ExtendedInfo)
    ensures
        zip64_index(pending_extras(a, z, true)) == (if zip64_index(a) >= 0 { zip64_index(a) } else { a.len() as int }),
    decreases a.len(),
{
    lemma_zip64_index_bound(a);
    let f = zip64_field(z);
    if a.len() > 0 {
        let k = zip64_index(a);
        let t = a.drop_first();
        lemma_zip64_index_placed(t, z);
        lemma_zip64_index_bound(t);
        let p = pending_extras(a, z, true);
        if a[0].data is Zip64 {
        } else if k >= 0 {
            assert(p.drop_first() =~= pending_extras(t, z, true));
        } else {
            assert(p.drop_first() =~= pending_extras(t, z, true));
        }
    }
}

/// The local header `h1` is what a successful `finalize` makes of `h0`.
pub open spec fn lfh_finalized(h0: LocalFileHeader, h1: LocalFileHeader) -> bool {
    &&& h1.same_but_extras(&h0)
    &&& extras_outcome(h0.pending(), h0.extra_fields_raw@.len() as int) is None
    &&& fields_finalized(h0.pending(), h1.extra_fields@)
    &&& h1.extra_field_length == extras_length(h0.pending(), h0.extra_fields_raw@.len() as int)
}

/// Finalizing a finalized local header again gives the same bytes.
pub proof fn lemma_lfh_finalize_idempotent(h0: LocalFileHeader, h1: LocalFileHeader, h2: LocalFileHeader)
    requires
        lfh_finalized(h0, h1),
        lfh_finalized(h1, h2),
    ensures
        h2.encoding() == h1.encoding(),
{
    let p0 = h0.pending();
    let p1 = h1.pending();
    let a = h1.extra_fields@;
    let b = h2.extra_fields@;
    assert forall|i: int| 0 <= i < a.len() implies same_payload((#[trigger] a[i]).data, p0[i].data) by {}
    if h0.keep_empty_zip64 || !h0.zip64.spec_is_empty() {
        lemma_zip64_index_payloads(a, p0);
        lemma_zip64_index_placed(h0.extra_fields@, h0.zip64);
        lemma_zip64_index_bound(h0.extra_fields@);
        lemma_zip64_index_bound(a);
        let k = zip64_index(a);
        assert(k >= 0);
        assert(p1 == a.update(k, zip64_field(h0.zip64)));
        assert(p0[k] == zip64_field(h0.zip64));
    }
    assert(fields_copied(a, b)) by {
        assert forall|i: int| 0 <= i < a.len() implies {
            &&& (#[trigger] b[i]).header_id == a[i].header_id
            &&& b[i].size == a[i].size
            &&& same_payload(b[i].data, a[i].data)
        } by {
            assert(same_payload(b[i].data, p1[i].data));
            assert(same_payload(a[i].data, p0[i].data));
        }
    }
    lemma_copied_encoding(a, b);
    lemma_extras_len(a);
    lemma_extras_total_finalized(p0, a);
    lemma_extras_total_finalized(p1, b);
    assert(h2.encoding() =~= h1.encoding());
}

/// Lists whose payloads match item by item, with the same shadow placed,
/// still match item by item.
pub proof fn lemma_pending_payloads(a: Seq<ExtraField>, b: Seq<ExtraField>, z: Zip64ExtendedInfo, keep: bool)
    requires
        a.len() == b.len(),
        forall|i: int| 0 <= i < a.len() ==> same_payload((#[trigger] a[i]).data, b[i].data),
    ensures
        pending_extras(a, z, keep).len() == pending_extras(b, z, keep).len(),
        forall|i: int| 0 <= i < pending_extras(a, z, keep).len() ==>
            same_payload((#[trigger] pending_extras(a, z, keep)[i]).data, pending_extras(b, z, keep)[i].data),
{
    lemma_zip64_index_payloads(a, b);
    lemma_zip64_index_bound(a);
    let pa = pending_extras(a, z, keep);
    let pb = pending_extras(b, z, keep);
    let k = zip64_index(a);
    assert forall|i: int| 0 <= i < pa.len() implies same_payload((#[trigger] pa[i]).data, pb[i].data) by {
        if (keep || !z.spec_is_empty()) && (i == k || i == a.len()) {
        } else {
            assert(pa[i] == a[i] && pb[i] == b[i]);
        }
    }
}

proof fn lemma_extras_total_payloads(a: Seq<ExtraField>, b: Seq<ExtraField>)
    requires
        a.len() == b.len(),
        forall|i: int| 0 <= i < a.len() ==> same_payload((#[trigger] a[i]).data, b[i].data),
    ensures
        extras_total(a) == extras_total(b),
    decreases a.len(),
{
    if a.len() > 0 {
        let a1 = a.drop_last();
        let b1 = b.drop_last();
        assert forall|i: int| 0 <= i < a1.len() implies same_payload((#[trigger] a1[i]).data, b1[i].data) by {
            assert(a1[i] == a[i] && b1[i] == b[i]);
        }
        lemma_extras_total_payloads(a1, b1);
        assert(same_payload(a[a.len() - 1].data, b[b.len() - 1].data));
    }
}

/// Lists whose payloads match item by item fare alike in `finalize`.
pub proof fn lemma_outcome_payloads(a: Seq<ExtraField>, b: Seq<ExtraField>, raw: int)
    requires
        a.len() == b.len(),
        forall|i: int| 0 <= i < a.len() ==> same_payload((#[trigger] a[i]).data, b[i].data),
    ensures
        extras_length(a, raw) == extras_length(b, raw),
        payloads_fit(a) == payloads_fit(b),
{
    lemma_extras_total_payloads(a, b);
    assert forall|i: int| 0 <= i < a.len() implies (#[trigger] a[i]).data.encoding().len() == b[i].data.encoding().len() by {
        assert(same_payload(a[i].data, b[i].data));
    }
    if payloads_fit(a) {
        assert forall|i: int| 0 <= i < b.len() implies (#[trigger] b[i]).data.encoding().len() <= u16::MAX by {
            assert(a[i].data.encoding().len() == b[i].data.encoding().len());
        }
    }
    if payloads_fit(b) {
        assert forall|i: int| 0 <= i < a.len() implies (#[trigger] a[i]).data.encoding().len() <= u16::MAX by {
            assert(a[i].data.encoding().len() == b[i].data.encoding().len());
        }
    }
}

/// The pending lists of copies are copies.
pub proof fn lemma_pending_copied(a: Seq<ExtraField>, b: Seq<ExtraField>, z: Zip64ExtendedInfo, keep: bool)
    requires
        fields_copied(a, b),
    ensures
        fields_copied(pending_extras(a, z, keep), pending_extras(b, z, keep)),
{
    lemma_zip64_index_copied(a, b);
    lemma_zip64_index_bound(a);
    let k = zip64_index(a);
    let f = zip64_field(z);
    if keep || !z.spec_is_empty() {
        if k >= 0 {
            let pa = a.update(k, f);
            let pb = b.update(k, f);
            assert forall|i: int| 0 <= i < pa.len() implies {
                &&& (#[trigger] pb[i]).header_id == pa[i].header_id
                &&& pb[i].size == pa[i].size
                &&& same_payload(pb[i].data, pa[i].data)
            } by {
                if i != k {
                    assert(pa[i] == a[i] && pb[i] == b[i]);
                }
            }
        } else {
            let pa = a.push(f);
            let pb = b.push(f);
            assert forall|i: int| 0 <= i < pa.len() implies {
                &&& (#[trigger] pb[i]).header_id == pa[i].header_id
                &&& pb[i].size == pa[i].size
                &&& same_payload(pb[i].data, pa[i].data)
            } by {
                if i < a.len() {
                    assert(pa[i] == a[i] && pb[i] == b[i]);
                }
            }
        }
    }
}

pub proof fn lemma_zip64_index_bound(a: Seq<ExtraField>)
    ensures
        -1 <= zip64_index(a) < a.len(),
    decreases a.len(),
{
    if a.len() > 0 {
        lemma_zip64_index_bound(a.drop_first());
    }
}

/// Finalizing a copy finalizes the original as well.
pub proof fn lemma_finalized_from_copy(a: Seq<ExtraField>, b: Seq<ExtraField>, new: Seq<ExtraField>)
    requires
        fields_copied(a, b),
        fields_finalized(b, new),
    ensures
        fields_finalized(a, new),
{
    assert forall|i: int| 0 <= i < new.len() implies {
        &&& same_payload(#[trigger] new[i].data, a[i].data)
        &&& new[i].header_id == a[i].data.spec_header_id()
        &&& new[i].size == a[i].data.encoding().len()
    } by {
        assert(same_payload(b[i].data, a[i].data));
        assert(same_payload(new[i].data, b[i].data));
    }
}

/// Copies fare alike in `finalize`.
pub proof fn lemma_outcome_copied(a: Seq<ExtraField>, b: Seq<ExtraField>, raw: int)
    requires
        fields_copied(a, b),
    ensures
        extras_outcome(a, raw) == extras_outcome(b, raw),
        extras_length(a, raw) == extras_length(b, raw),
{
    lemma_copied_encoding(a, b);
    assert(payloads_fit(a) == payloads_fit(b)) by {
        assert forall|i: int| 0 <= i < a.len() implies (#[trigger] a[i]).data.encoding().len() == b[i].data.encoding().len() by {
            assert(same_payload(b[i].data, a[i].data));
        }
    }
}

/// What `finalize` yields for extra fields `pending` beside `raw_len` raw
/// bytes: the error it reports, or `None` on success.
pub open spec fn extras_outcome(pending: Seq<ExtraField>, raw_len: int) -> Option<ZipError> {
    if pending.len() > 0 && raw_len > 0 {
        Some(ZipError::DualExtraFields)
    } else if pending.len() == 0 {
        if raw_len <= u16::MAX {
            None
        } else {
            Some(ZipError::ExtraFieldsTooLong)
        }
    } else if !payloads_fit(pending) {
        Some(ZipError::ExtraFieldTooLong)
    } else if extras_total(pending) > u16::MAX {
        Some(ZipError::ExtraFieldsTooLong)
    } else {
        None
    }
}

/// The extra-field length `finalize` sets on success.
pub open spec fn extras_length(pending: Seq<ExtraField>, raw_len: int) -> int {
    if pending.len() == 0 {
        raw_len
    } else {
        extras_total(pending)
    }
}

impl LocalFileHeader {
    pub const SIGNATURE: u32 = 0x04034b50;

    /// Every field but the extra fields and their length agrees.
    pub open spec fn same_but_extras(&self, o: &Self) -> bool {
        &&& self.signature == o.signature
        &&& self.version_needed == o.version_needed
        &&& self.general_purpose_flag == o.general_purpose_flag
        &&& self.compression_method == o.compression_method
        &&& self.last_mod == o.last_mod
        &&& self.crc32 == o.crc32
        &&& self.compressed_size == o.compressed_size
        &&& self.uncompressed_size == o.uncompressed_size
        &&& self.file_name_length == o.file_name_length
        &&& self.file_name@ == o.file_name@
        &&& self.extra_fields_raw@ == o.extra_fields_raw@
        &&& self.zip64 == o.zip64
        &&& self.keep_empty_zip64 == o.keep_empty_zip64
    }

    /// A header with the signature, version 20 and the current time, and every
    /// other field zero or empty.
    pub fn new() -> (r: Self)
        ensures
            r.signature == Self::SIGNATURE,
            r.version_needed == 20,
            r.general_purpose_flag.0 == 0,
            r.compression_method.0 == 0,
            r.crc32 == 0,
            r.compressed_size == 0,
            r.uncompressed_size == 0,
            r.file_name_length == 0,
            r.extra_field_length == 0,
            r.file_name@.len() == 0,
            r.extra_fields@.len() == 0,
            r.extra_fields_raw@.len() == 0,
            r.zip64.spec_is_empty(),
            !r.keep_empty_zip64,
    {
        LocalFileHeader {
            signature: Self::SIGNATURE,
            version_needed: 20,
            general_purpose_flag: GeneralPurposeFlag(0),
            compression_method: CompressionMethod(0),
            last_mod: DosDateTime::now(),
            crc32: 0,
            compressed_size: 0,
            uncompressed_size: 0,
            file_name_length: 0,
            extra_field_length: 0,
            file_name: Vec::new(),
            extra_fields: Vec::new(),
            extra_fields_raw: Vec::new(),
            zip64: Zip64ExtendedInfo::empty(),
            keep_empty_zip64: false,
        }
    }

    /// A copy that encodes to the same bytes, field by field.
    pub fn duplicate(&self) -> (r: Self)
        ensures
            r.same_but_extras(self),
            r.extra_field_length == self.extra_field_length,
            fields_copied(self.extra_fields@, r.extra_fields@),
            r.encoding() == self.encoding(),
    {
        let r = LocalFileHeader {
            signature: self.signature,
            version_needed: self.version_needed,
            general_purpose_flag: self.general_purpose_flag,
            compression_method: self.compression_method,
            last_mod: self.last_mod,
            crc32: self.crc32,
            compressed_size: self.compressed_size,
            uncompressed_size: self.uncompressed_size,
            file_name_length: self.file_name_length,
            extra_field_length: self.extra_field_length,
            file_name: self.file_name.clone(),
            extra_fields: copy_fields(&self.extra_fields),
            extra_fields_raw: self.extra_fields_raw.clone(),
            zip64: self.zip64,
            keep_empty_zip64: self.keep_empty_zip64,
        };
        assert(r.encoding() =~= self.encoding());
        r
    }

    /// Sets the compressed size: in the 32-bit field where it fits and ZIP64
    /// is not forced, else as the `0xFFFFFFFF` sentinel with the true value in
    /// the shadow ZIP64 information.
    pub fn set_compressed_size(&mut self, size: usize, force_zip64: bool)
        ensures
            !force_zip64 && size <= u32::MAX ==> final(self).compressed_size == size
                && final(self).zip64.compressed_size == None::<u64>,
            force_zip64 || size > u32::MAX ==> final(self).compressed_size == u32::MAX
                && final(self).zip64.compressed_size == Some(size as u64),
            final(self).zip64.original_size == old(self).zip64.original_size,
            final(self).zip64.relative_header_offset == old(self).zip64.relative_header_offset,
            final(self).zip64.disk_start_number == old(self).zip64.disk_start_number,
            final(self).uncompressed_size == old(self).uncompressed_size,
            final(self).file_name@ == old(self).file_name@,
            final(self).file_name_length == old(self).file_name_length,
            final(self).crc32 == old(self).crc32,
            final(self).compression_method == old(self).compression_method,
            final(self).general_purpose_flag == old(self).general_purpose_flag,
            final(self).keep_empty_zip64 == old(self).keep_empty_zip64,
            final(self).extra_fields@ == old(self).extra_fields@,
            final(self).extra_fields_raw@ == old(self).extra_fields_raw@,
            final(self).extra_field_length == old(self).extra_field_length,
            final(self).signature == old(self).signature,
            final(self).version_needed == old(self).version_needed,
            final(self).last_mod == old(self).last_mod,
    {
        if !force_zip64 && size <= 0xffff_ffff {
            self.compressed_size = size as u32;
            self.zip64.compressed_size = None;
        } else {
            self.compressed_size = 0xffff_ffff;
            self.zip64.compressed_size = Some(size as u64);
        }
    }

    /// Sets the uncompressed size, with the same rule as the compressed size.
    pub fn set_uncompressed_size(&mut self, size: usize, force_zip64: bool)
        ensures
            !force_zip64 && size <= u32::MAX ==> final(self).uncompressed_size == size
                && final(self).zip64.original_size == None::<u64>,
            force_zip64 || size > u32::MAX ==> final(self).uncompressed_size == u32::MAX
                && final(self).zip64.original_size == Some(size as u64),
            final(self).zip64.compressed_size == old(self).zip64.compressed_size,
            final(self).zip64.relative_header_offset == old(self).zip64.relative_header_offset,
            final(self).zip64.disk_start_number == old(self).zip64.disk_start_number,
            final(self).compressed_size == old(self).compressed_size,
            final(self).file_name@ == old(self).file_name@,
            final(self).file_name_length == old(self).file_name_length,
            final(self).crc32 == old(self).crc32,
            final(self).compression_method == old(self).compression_method,
            final(self).general_purpose_flag == old(self).general_purpose_flag,
            final(self).keep_empty_zip64 == old(self).keep_empty_zip64,
            final(self).extra_fields@ == old(self).extra_fields@,
            final(self).extra_fields_raw@ == old(self).extra_fields_raw@,
            final(self).extra_field_length == old(self).extra_field_length,
            final(self).signature == old(self).signature,
            final(self).version_needed == old(self).version_needed,
            final(self).last_mod == old(self).last_mod,
    {
        if !force_zip64 && size <= 0xffff_ffff {
            self.uncompressed_size = size as u32;
            self.zip64.original_size = None;
        } else {
            self.uncompressed_size = 0xffff_ffff;
            self.zip64.original_size = Some(size as u64);
        }
    }

    /// Sets the file name and its length field; a name longer than the field
    /// can count is refused and leaves the header as it was.
    pub fn set_file_name(&mut self, file_name: &str) -> (r: Result<(), ZipError>)
        ensures
            r is Ok <==> encode_utf8(file_name@).len() <= u16::MAX,
            r is Ok ==> final(self).file_name@ == encode_utf8(file_name@)
                && final(self).file_name_length == encode_utf8(file_name@).len()
                && final(self).same_but_name(old(self)),
            r matches Err(e) ==> e == ZipError::FileNameTooLong && *final(self) == *old(self),
    {
        let bytes = file_name.as_bytes();
        if bytes.len() > 0xffff {
            return Err(ZipError::FileNameTooLong);
        }
        self.file_name = bytes_to_vec(bytes);
        self.file_name_length = bytes.len() as u16;
        Ok(())
    }

    /// Every field but the file name and its length agrees.
    pub open spec fn same_but_name(&self, o: &Self) -> bool {
        &&& self.signature == o.signature
        &&& self.version_needed == o.version_needed
        &&& self.general_purpose_flag == o.general_purpose_flag
        &&& self.compression_method == o.compression_method
        &&& self.last_mod == o.last_mod
        &&& self.crc32 == o.crc32
        &&& self.compressed_size == o.compressed_size
        &&& self.uncompressed_size == o.uncompressed_size
        &&& self.extra_field_length == o.extra_field_length
        &&& self.extra_fields@ == o.extra_fields@
        &&& self.extra_fields_raw@ == o.extra_fields_raw@
        &&& self.zip64 == o.zip64
        &&& self.keep_empty_zip64 == o.keep_empty_zip64
    }

    /// The extra fields `finalize` works on.
    pub open spec fn pending(&self) -> Seq<ExtraField> {
        pending_extras(self.extra_fields@, self.zip64, self.keep_empty_zip64)
    }

    /// Puts the shadow ZIP64 information in as an extra field (when it holds a
    /// value, or an empty one is to be kept), in place of an earlier ZIP64
    /// extra field if there is one, then sets each extra field's id and size
    /// and the extra-field length.
    pub fn finalize(&mut self) -> (r: Result<(), ZipError>)
        ensures
            final(self).same_but_extras(old(self)),
            r is Ok <==> extras_outcome(old(self).pending(), old(self).extra_fields_raw@.len() as int) is None,
            r matches Err(e) ==> Some(e) == extras_outcome(old(self).pending(), old(self).extra_fields_raw@.len() as int),
            r is Ok ==> final(self).extra_field_length == extras_length(old(self).pending(), old(self).extra_fields_raw@.len() as int),
            r is Ok ==> fields_finalized(old(self).pending(), final(self).extra_fields@),
            r is Ok ==> lfh_finalized(*old(self), *final(self)),
    {
        if self.keep_empty_zip64 || !self.zip64.is_empty() {
            place_zip64(&mut self.extra_fields, self.zip64);
        }
        let raw_len = self.extra_fields_raw.len();
        let mut length = self.extra_field_length;
        let r = finalize_extras(&mut self.extra_fields, raw_len, &mut length);
        self.extra_field_length = length;
        proof {
            if r is Ok && old(self).pending().len() == 0 {
                assert(fields_finalized(old(self).pending(), self.extra_fields@));
            }
        }
        r
    }
}

impl BinaryEncode for LocalFileHeader {
    open spec fn encoding(&self) -> Seq<u8> {
        le32(self.signature) + le16(self.version_needed) + le16(self.general_purpose_flag.0)
            + le16(self.compression_method.0) + self.last_mod.encoding() + le32(self.crc32)
            + le32(self.compressed_size) + le32(self.uncompressed_size) + le16(self.file_name_length)
            + le16(self.extra_field_length) + self.file_name@ + self.extra_fields.encoding()
            + self.extra_fields_raw@
    }

    fn write(&self, out: &mut Vec<u8>) {
        push_u32(out, self.signature);
        push_u16(out, self.version_needed);
        push_u16(out, self.general_purpose_flag.0);
        push_u16(out, self.compression_method.0);
        self.last_mod.write(out);
        push_u32(out, self.crc32);
        push_u32(out, self.compressed_size);
        push_u32(out, self.uncompressed_size);
        push_u16(out, self.file_name_length);
        push_u16(out, self.extra_field_length);
        push_bytes(out, self.file_name.as_slice());
        self.extra_fields.write(out);
        push_bytes(out, self.extra_fields_raw.as_slice());
        assert(out@ =~= old(out)@ + self.encoding());
    }
}

impl BinCount for LocalFileHeader {
    fn byte_count(&self) -> (r: Result<usize, ZipError>) {
        let extras = self.extra_fields.byte_count()?;
        let name = self.file_name.len();
        let raw = self.extra_fields_raw.len();
        if name > usize::MAX - 30 {
            return Err(ZipError::TooLarge);
        }
        let a = 30 + name;
        if extras > usize::MAX - a {
            return Err(ZipError::TooLarge);
        }
        let b = a + extras;
        if raw > usize::MAX - b {
            return Err(ZipError::TooLarge);
        }
        Ok(b + raw)
    }
}

} // verus!
