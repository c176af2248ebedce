//! Finding entries by name.

use crate::cdh::CentralDirectoryHeader;
use crate::zip::FileEntry;
use vstd::prelude::*;
use vstd::utf8::encode_utf8;

verus! {

/// Something that carries a file name.
pub trait GetFileName {
    spec fn spec_file_name(&self) -> Seq<u8>;

    fn get_file_name(&self) -> (r: &[u8])
        ensures
            r@ == self.spec_file_name(),
    ;
}

impl GetFileName for FileEntry {
    open spec fn spec_file_name(&self) -> Seq<u8> {
        self.lfh.file_name@
    }

    fn get_file_name(&self) -> (r: &[u8]) {
        self.lfh.file_name.as_slice()
    }
}

impl GetFileName for CentralDirectoryHeader {
    open spec fn spec_file_name(&self) -> Seq<u8> {
        self.file_name@
    }

    fn get_file_name(&self) -> (r: &[u8]) {
        self.file_name.as_slice()
    }
}

pub(crate) fn same_bytes(a: &[u8], b: &[u8]) -> (r: bool)
    ensures
        r == (a@ == b@),
{
    if a.len() != b.len() {
        return false;
    }
    let mut i: usize = 0;
    while i < a.len()
        invariant
            i <= a@.len(),
            a@.len() == b@.len(),
            forall|j: int| 0 <= j < i ==> a@[j] == b@[j],
        decreases a@.len() - i,
    {
        if a[i] != b[i] {
            return false;
        }
        i += 1;
    }
    assert(a@ =~= b@);
    true
}

/// The index of the first item named `file_name`, if any.
pub fn find_file<T: GetFileName>(items: &Vec<T>, file_name: &str) -> (r: Option<usize>)
    ensures
        r matches Some(i) ==> i < items@.len() && items@[i as int].spec_file_name() == encode_utf8(file_name@)
            && forall|j: int| 0 <= j < i ==> (#[trigger] items@[j]).spec_file_name() != encode_utf8(file_name@),
        r is None ==> forall|j: int| 0 <= j < items@.len() ==> (#[trigger] items@[j]).spec_file_name() != encode_utf8(file_name@),
{
    let name = file_name.as_bytes();
    let mut i: usize = 0;
    while i < items.len()
        invariant
            i <= items@.len(),
            name@ == encode_utf8(file_name@),
            forall|j: int| 0 <= j < i ==> (#[trigger] items@[j]).spec_file_name() != encode_utf8(file_name@),
        decreases items@.len() - i,
    {
        if same_bytes(items[i].get_file_name(), name) {
            return Some(i);
        }
        i += 1;
    }
    None
}

} // verus!
