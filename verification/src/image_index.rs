//! The index by which the recorder finds an image's track from the image's
//! handle.
//!
//! The index is a `hashbrown::HashMap`. Its contracts are not proved here: they
//! say what hashbrown documents of `new`, `insert` and `get`.

use vstd::prelude::*;

verus! {

/// A hash index from image handles to track slots, kept in a `hashbrown::HashMap`.
#[verifier::external_body]
pub struct ImageIndex {
    map: hashbrown::HashMap<u64, usize>,
}

/// The slot that each image handle of the index maps to.
pub uninterp spec fn index_entries(index: ImageIndex) -> Map<u64, usize>;

/// `hashbrown::HashMap::new`: the fresh map holds no entry.
#[verifier::external_body]
pub(crate) fn index_new() -> (fresh: ImageIndex)
    ensures
        index_entries(fresh).dom() == Set::<u64>::empty(),
{
    ImageIndex { map: hashbrown::HashMap::new() }
}

/// `hashbrown::HashMap::insert`: the key maps to the new value afterwards, every other
/// key is left as it was, and the value that the key had before is returned.
#[verifier::external_body]
pub(crate) fn index_insert(index: &mut ImageIndex, key: u64, slot: usize) -> (previous: Option<usize>)
    ensures
        index_entries(*final(index)) == index_entries(*old(index)).insert(key, slot),
        previous == (if index_entries(*old(index)).dom().contains(key) {
            Some(index_entries(*old(index))[key])
        } else {
            None::<usize>
        }),
{
    index.map.insert(key, slot)
}

/// `hashbrown::HashMap::get`: the value that the key maps to, if it has one.
#[verifier::external_body]
pub(crate) fn index_get(index: &ImageIndex, key: u64) -> (slot: Option<usize>)
    ensures
        slot == (if index_entries(*index).dom().contains(key) {
            Some(index_entries(*index)[key])
        } else {
            None::<usize>
        }),
{
    index.map.get(&key).copied()
}

} // verus!
