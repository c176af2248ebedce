//! Making entries the same length, for constructions that swap one entry's
//! bytes for another's.

use crate::codec::{decompress, decompressed_by};
use crate::crc::{crc32, crc32_of};
use crate::error::ZipError;
use crate::fields::CompressionMethod;
use crate::zip::FileEntry;
use vstd::prelude::*;

verus! {

/// `v` padded with `padding` up to `n` bytes.
fn pad_to(v: &mut Vec<u8>, n: usize, padding: u8)
    requires
        old(v)@.len() <= n,
    ensures
        final(v)@.len() == n,
        final(v)@.subrange(0, old(v)@.len() as int) == old(v)@,
        forall|i: int| old(v)@.len() <= i < n ==> #[trigger] final(v)@[i] == padding,
{
    let ghost start = v@;
    while v.len() < n
        invariant
            start == old(v)@,
            start.len() <= v@.len() <= n,
            v@.subrange(0, start.len() as int) == start,
            forall|i: int| start.len() <= i < v@.len() ==> #[trigger] v@[i] == padding,
        decreases n - v@.len(),
    {
        v.push(padding);
        assert(v@.subrange(0, start.len() as int) =~= start);
    }
}

/// Decompresses every entry, pads all contents with `padding` to the length
/// of the longest, and stores them: method stored, both sizes the common
/// length (cut to 32 bits), CRC-32 of the padded bytes.
pub fn align_entry_size(entries: &mut Vec<FileEntry>, padding: u8) -> (r: Result<(), ZipError>)
    ensures
        old(entries)@.len() == 0 ==> r == Err::<(), ZipError>(ZipError::NoEntries),
        final(entries)@.len() == old(entries)@.len(),
        r is Ok ==> {
            let m = final(entries)@[0].data@.len() as int;
            &&& (forall|i: int| 0 <= i < old(entries)@.len() ==> {
                let d = #[trigger] decompressed_by(old(entries)@[i].lfh.compression_method.0, old(entries)@[i].data@);
                &&& d is Some
                &&& d->Some_0.len() <= m
                &&& final(entries)@[i].data@.len() == m
                &&& final(entries)@[i].data@.subrange(0, d->Some_0.len() as int) == d->Some_0
                &&& (forall|k: int| d->Some_0.len() <= k < m ==> final(entries)@[i].data@[k] == padding)
                &&& final(entries)@[i].lfh.compression_method.0 == CompressionMethod::STORED
                &&& final(entries)@[i].lfh.compressed_size == m as u32
                &&& final(entries)@[i].lfh.uncompressed_size == m as u32
                &&& final(entries)@[i].lfh.crc32 == crc32_of(final(entries)@[i].data@)
            })
            &&& (exists|j: int| 0 <= j < old(entries)@.len()
                && (#[trigger] decompressed_by(old(entries)@[j].lfh.compression_method.0, old(entries)@[j].data@))->Some_0.len() == m)
        },
{
    if entries.len() == 0 {
        return Err(ZipError::NoEntries);
    }
    let n = entries.len();
    let mut i: usize = 0;
    while i < n
        invariant
            n == entries@.len() == old(entries)@.len(),
            i <= n,
            forall|k: int| i <= k < n ==> #[trigger] entries@[k] == old(entries)@[k],
            forall|k: int| 0 <= k < i ==> {
                let d = #[trigger] decompressed_by(old(entries)@[k].lfh.compression_method.0, old(entries)@[k].data@);
                &&& d is Some
                &&& entries@[k].data@ == d->Some_0
            },
        decreases n - i,
    {
        let d = decompress(entries[i].lfh.compression_method, entries[i].data.as_slice())?;
        entries[i].data = d;
        i += 1;
    }
    let mut max: usize = 0;
    let mut arg: usize = 0;
    let mut i: usize = 0;
    while i < n
        invariant
            n == entries@.len(),
            i <= n,
            arg < n,
            i > 0 ==> arg < i && entries@[arg as int].data@.len() == max,
            i == 0 ==> max == 0,
            forall|k: int| 0 <= k < i ==> (#[trigger] entries@[k]).data@.len() <= max,
        decreases n - i,
    {
        if i == 0 || entries[i].data.len() > max {
            max = entries[i].data.len();
            arg = i;
        }
        i += 1;
    }
    let ghost decompressed = entries@;
    let mut i: usize = 0;
    while i < n
        invariant
            n == entries@.len() == decompressed.len(),
            i <= n,
            forall|k: int| i <= k < n ==> #[trigger] entries@[k] == decompressed[k],
            forall|k: int| 0 <= k < n ==> (#[trigger] decompressed[k]).data@.len() <= max,
            forall|k: int| 0 <= k < i ==> {
                &&& (#[trigger] entries@[k]).data@.len() == max
                &&& entries@[k].data@.subrange(0, decompressed[k].data@.len() as int) == decompressed[k].data@
                &&& (forall|j: int| decompressed[k].data@.len() <= j < max ==> entries@[k].data@[j] == padding)
                &&& entries@[k].lfh.compression_method.0 == CompressionMethod::STORED
                &&& entries@[k].lfh.compressed_size == max as u32
                &&& entries@[k].lfh.uncompressed_size == max as u32
                &&& entries@[k].lfh.crc32 == crc32_of(entries@[k].data@)
            },
        decreases n - i,
    {
        pad_to(&mut entries[i].data, max, padding);
        let crc = crc32(entries[i].data.as_slice());
        entries[i].lfh.compressed_size = max as u32;
        entries[i].lfh.uncompressed_size = max as u32;
        entries[i].lfh.compression_method = CompressionMethod(CompressionMethod::STORED);
        entries[i].lfh.crc32 = crc;
        i += 1;
    }
    proof {
        let m = max as int;
        assert(entries@[0].data@.len() == m);
        assert(decompressed_by(old(entries)@[arg as int].lfh.compression_method.0, old(entries)@[arg as int].data@)->Some_0.len() == m);
    }
    Ok(())
}

} // verus!
