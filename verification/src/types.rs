use vstd::prelude::*;

verus! {

/// A scan candidate together with its measured byte size.
///
/// The path is stored as its components relative to the scanned root,
/// in order from the outermost directory to the entry itself.
#[derive(Debug)]
pub struct ItemWithSize {
    pub path: Vec<String>,
    pub size: u64,
}

impl View for ItemWithSize {
    type V = (Seq<Seq<char>>, u64);

    open spec fn view(&self) -> (Seq<Seq<char>>, u64) {
        (self.path.deep_view(), self.size)
    }
}

} // verus!
