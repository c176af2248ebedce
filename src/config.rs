//! The fuzzer's configuration as plain values, and the rules that derive
//! parts of it.

use vstd::prelude::*;

verus! {

/// What `parsers.json` says of one parser.
#[derive(Clone, Debug)]
pub struct ParserInfo {
    pub name: String,
    pub version: String,
    pub parser_type: String,
    pub language: String,
}

/// The settings of one fuzzing run. Paths are kept as strings; the stop
/// time as seconds after the start.
#[derive(Clone, Debug)]
pub struct Config {
    pub batch_size: usize,
    pub parsers: Vec<String>,
    pub parsers_dir: String,
    pub input_dir: String,
    pub output_dir: String,
    pub samples_dir: String,
    pub results_dir: String,
    pub stats_file: String,
    pub argmax_ucb: bool,
    pub byte_mutation_only: bool,
    pub stop_after_seconds: Option<u64>,
}

/// One gibibyte.
pub const GIB: u64 = 1073741824;

/// Two gibibytes.
pub const TWO_GIB: u64 = 2147483648;

/// `a / b` rounded up.
pub open spec fn div_ceil(a: int, b: int) -> int {
    a / b + if a % b == 0 { 0int } else { 1int }
}

/// The batch size the machine affords: one sample per gibibyte of memory
/// beyond the first twenty, and one per two gibibytes of free disk, whichever
/// is less (each count rounded up).
pub open spec fn batch_size_for(ram: int, disk: int) -> int {
    let by_ram = if div_ceil(ram, GIB as int) >= 20 { div_ceil(ram, GIB as int) - 20 } else { 0 };
    let by_disk = div_ceil(disk, TWO_GIB as int);
    if by_ram <= by_disk { by_ram } else { by_disk }
}

/// The default batch size for `ram` bytes of memory and `disk` bytes of free
/// disk space.
pub fn default_batch_size(ram: u64, disk: u64) -> (r: usize)
    ensures
        r == batch_size_for(ram as int, disk as int) || batch_size_for(ram as int, disk as int) > usize::MAX,
{
    let ram_gib = ram / GIB + if ram % GIB == 0 { 0 } else { 1 };
    let disk_units = disk / TWO_GIB + if disk % TWO_GIB == 0 { 0 } else { 1 };
    let by_ram = if ram_gib >= 20 { ram_gib - 20 } else { 0 };
    let n = if by_ram <= disk_units { by_ram } else { disk_units };
    if n > usize::MAX as u64 {
        return usize::MAX;
    }
    n as usize
}

/// The parser pairs in disagreement-bit order: for each `i`, the pairs
/// `(i, j)` with `j < i`, by increasing `j`.
pub fn pair_list(n: usize) -> (r: Vec<(usize, usize)>)
    requires
        n * n <= usize::MAX,
    ensures
        r@.len() == crate::feature::pair_count(n as int),
        forall|i: int, j: int| 0 <= j < i < n ==> #[trigger] r@[crate::feature::pair_index(i, j)] == (i as usize, j as usize),
{
    let mut r: Vec<(usize, usize)> = Vec::new();
    let mut i: usize = 0;
    while i < n
        invariant
            i <= n,
            n * n <= usize::MAX,
            r@.len() == crate::feature::pair_index(i as int, 0),
            forall|a: int, b: int| 0 <= b < a < i ==> #[trigger] r@[crate::feature::pair_index(a, b)] == (a as usize, b as usize),
        decreases n - i,
    {
        let mut j: usize = 0;
        while j < i
            invariant
                j <= i < n,
                r@.len() == crate::feature::pair_index(i as int, j as int),
                forall|a: int, b: int| 0 <= b < a < i ==> #[trigger] r@[crate::feature::pair_index(a, b)] == (a as usize, b as usize),
                forall|b: int| 0 <= b < j ==> #[trigger] r@[crate::feature::pair_index(i as int, b)] == (i, b as usize),
            decreases i - j,
        {
            let ghost before = r@;
            r.push((i, j));
            proof {
                assert forall|a: int, b: int| 0 <= b < a < i implies #[trigger] r@[crate::feature::pair_index(a, b)] == (a as usize, b as usize) by {
                    crate::feature::lemma_pair_before_row(a, b, i as int);
                    assert(r@[crate::feature::pair_index(a, b)] == before[crate::feature::pair_index(a, b)]);
                }
            }
            j += 1;
        }
        proof {
            crate::feature::lemma_pair_index_next_row(i as int);
        }
        i += 1;
    }
    r
}

} // verus!
