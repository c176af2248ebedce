//! The data descriptor that may follow an entry's data.

use crate::encode::{BinCount, BinaryEncode};
use crate::error::ZipError;
use crate::extra::opt32;
use crate::extra::push_opt32;
use crate::le::{le32, le64, push_u32, push_u64};
use crate::lfh::LocalFileHeader;
use vstd::prelude::*;

verus! {

broadcast use crate::le::group_le_lengths;

/// A size written with 32 or with 64 bits.
#[derive(Clone, Copy, Debug, PartialEq, Eq, Structural)]
pub enum U32or64 {
    U32(u32),
    U64(u64),
}

impl U32or64 {
    pub open spec fn value(&self) -> int {
        match self {
            U32or64::U32(v) => *v as int,
            U32or64::U64(v) => *v as int,
        }
    }

    /// The value clamped to 32 bits: a 64-bit value past `u32::MAX` becomes
    /// `u32::MAX`.
    pub fn saturate(&self) -> (r: u32)
        ensures
            self.value() <= u32::MAX ==> r == self.value(),
            self.value() > u32::MAX ==> r == u32::MAX,
    {
        match self {
            U32or64::U32(v) => *v,
            U32or64::U64(v) => {
                if *v > 0xffff_ffff {
                    0xffff_ffff
                } else {
                    *v as u32
                }
            },
        }
    }
}

impl BinaryEncode for U32or64 {
    open spec fn encoding(&self) -> Seq<u8> {
        match self {
            U32or64::U32(v) => le32(*v),
            U32or64::U64(v) => le64(*v),
        }
    }

    fn write(&self, out: &mut Vec<u8>) {
        match self {
            U32or64::U32(v) => push_u32(out, *v),
            U32or64::U64(v) => push_u64(out, *v),
        }
    }
}

impl BinCount for U32or64 {
    fn byte_count(&self) -> (r: Result<usize, ZipError>) {
        match self {
            U32or64::U32(_) => Ok(4),
            U32or64::U64(_) => Ok(8),
        }
    }
}

/// A data descriptor: optional signature, CRC-32 and the two sizes.
#[derive(Clone, Copy, Debug, PartialEq, Eq, Structural)]
pub struct DataDescriptor {
    pub signature: Option<u32>,
    pub crc32: u32,
    pub compressed_size: U32or64,
    pub uncompressed_size: U32or64,
}

impl DataDescriptor {
    pub const SIGNATURE: u32 = 0x08074b50;

    /// The descriptor that repeats what `lfh` records, with the signature;
    /// a size held in the shadow ZIP64 information is written with 64 bits.
    pub fn from_lfh(lfh: &LocalFileHeader) -> (r: Self)
        ensures
            r.signature == Some(Self::SIGNATURE),
            r.crc32 == lfh.crc32,
            r.compressed_size == (match lfh.zip64.compressed_size {
                None => U32or64::U32(lfh.compressed_size),
                Some(s) => U32or64::U64(s),
            }),
            r.uncompressed_size == (match lfh.zip64.original_size {
                None => U32or64::U32(lfh.uncompressed_size),
                Some(s) => U32or64::U64(s),
            }),
    {
        let compressed_size = match lfh.zip64.compressed_size {
            None => U32or64::U32(lfh.compressed_size),
            Some(s) => U32or64::U64(s),
        };
        let uncompressed_size = match lfh.zip64.original_size {
            None => U32or64::U32(lfh.uncompressed_size),
            Some(s) => U32or64::U64(s),
        };
        DataDescriptor {
            signature: Some(Self::SIGNATURE),
            crc32: lfh.crc32,
            compressed_size,
            uncompressed_size,
        }
    }
}

impl BinaryEncode for DataDescriptor {
    open spec fn encoding(&self) -> Seq<u8> {
        opt32(self.signature) + le32(self.crc32) + self.compressed_size.encoding()
            + self.uncompressed_size.encoding()
    }

    fn write(&self, out: &mut Vec<u8>) {
        push_opt32(out, self.signature);
        push_u32(out, self.crc32);
        self.compressed_size.write(out);
        self.uncompressed_size.write(out);
        assert(out@ =~= old(out)@ + self.encoding());
    }
}

impl BinCount for DataDescriptor {
    fn byte_count(&self) -> (r: Result<usize, ZipError>) {
        let sig: usize = if self.signature.is_some() { 4 } else { 0 };
        let c = self.compressed_size.byte_count()?;
        let u = self.uncompressed_size.byte_count()?;
        Ok(sig + 4 + c + u)
    }
}

} // verus!
