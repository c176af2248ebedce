//! The initial corpus: one small fixed archive and a batch of random ones.

use crate::fields::CompressionMethod;
use crate::rng::{below, random_bytes, random_string, ratio};
use crate::zip::ZipArchive;
use rand::rngs::ThreadRng;
use vstd::prelude::*;

verus! {

/// The compression method of a random initial entry: stored 8, deflated 4,
/// bzip2, Zstandard, LZMA and XZ 1 each, out of 16.
fn initial_method(rng: &mut ThreadRng) -> (r: CompressionMethod)
    ensures
        crate::codec::is_supported(r.0),
{
    let k = below(rng, 16);
    let m = if k < 8 {
        CompressionMethod::STORED
    } else if k < 12 {
        CompressionMethod::DEFLATED
    } else if k == 12 {
        CompressionMethod::BZIP2
    } else if k == 13 {
        CompressionMethod::ZSTD
    } else if k == 14 {
        CompressionMethod::LZMA
    } else {
        CompressionMethod::XZ
    };
    CompressionMethod(m)
}

/// A random archive: up to four entries with names of up to four random
/// characters and up to nine random bytes each, one time in five forced into
/// ZIP64 or given data descriptors, and one time in five with ZIP64 end
/// records; finalized.
pub fn random_archive(rng: &mut ThreadRng) -> ZipArchive {
    let mut zip = ZipArchive::new();
    let count = below(rng, 5);
    let mut k: usize = 0;
    while k < count
        decreases count - k,
    {
        let name_len = below(rng, 5);
        let name = random_string(rng, name_len);
        let data_len = below(rng, 10);
        let data = random_bytes(rng, data_len);
        let method = initial_method(rng);
        let force_zip64 = ratio(rng, 1, 5);
        let use_dd = ratio(rng, 1, 5);
        let _ = zip.add_file(name.as_str(), data.as_slice(), method, force_zip64, use_dd);
        k += 1;
    }
    if ratio(rng, 1, 5) {
        let _ = zip.set_eocd(true);
    }
    let _ = zip.finalize();
    zip
}

/// The seeds a run starts from: the archive with entries `a`, `b/c` and
/// `b/d`, then `batch_size` random archives.
pub fn init_corpus(batch_size: usize, rng: &mut ThreadRng) -> (r: Vec<ZipArchive>)
    requires
        batch_size < usize::MAX,
    ensures
        r@.len() == batch_size + 1,
{
    let mut result: Vec<ZipArchive> = Vec::new();
    let mut zip = ZipArchive::new();
    let a: [u8; 1] = [0x61];
    let c: [u8; 1] = [0x63];
    let d: [u8; 1] = [0x64];
    let _ = zip.add_simple("a", &a);
    let _ = zip.add_simple("b/c", &c);
    let _ = zip.add_simple("b/d", &d);
    let _ = zip.finalize();
    result.push(zip);
    let mut i: usize = 0;
    while i < batch_size
        invariant
            i <= batch_size,
            result@.len() == i + 1,
        decreases batch_size - i,
    {
        result.push(random_archive(rng));
        i += 1;
    }
    result
}

} // verus!
