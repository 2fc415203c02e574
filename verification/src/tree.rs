//! The persisted tree: what the library states of `sled::Tree`.

use vstd::prelude::*;

verus! {

/// `sled::Tree`: an ordered map from bytes to bytes that is kept on disk.
/// Nothing inside it is seen here; what it holds is named by `tree_entries`.
#[verifier::external_type_specification]
#[verifier::external_body]
pub struct ExTree(sled::Tree);

/// `sled::Error`: why the tree failed. It is only carried through.
#[verifier::external_type_specification]
#[verifier::external_body]
pub struct ExTreeError(sled::Error);

/// The entries of a tree: the bytes of each value under the bytes of its key.
pub uninterp spec fn tree_entries(tree: sled::Tree) -> Map<Seq<u8>, Seq<u8>>;

/// One entry of a tree as it was read, or the error that reading it gave.
pub type ReadEntry = Result<(Vec<u8>, Vec<u8>), sled::Error>;

/// Whether every entry was read.
pub open spec fn all_read(read: Seq<ReadEntry>) -> bool {
    forall|i: int| 0 <= i < read.len() ==> (#[trigger] read[i]) is Ok
}

/// `Tree::insert`: where it succeeds, the value stands under the key and the
/// other entries are as they were. Nothing is said of the tree after an error.
#[verifier::external_body]
pub(crate) fn tree_insert(tree: &mut sled::Tree, key: &[u8], value: Vec<u8>) -> (r: Result<
    (),
    sled::Error,
>)
    ensures
        r is Ok ==> tree_entries(*final(tree)) == tree_entries(*old(tree)).insert(key@, value@),
{
    match tree.insert(key, value) {
        Ok(_) => Ok(()),
        Err(e) => Err(e),
    }
}

/// `Tree::get`: where it succeeds, the value under the key, `None` where the
/// tree has no such key.
#[verifier::external_body]
pub(crate) fn tree_get(tree: &sled::Tree, key: &[u8]) -> (r: Result<Option<Vec<u8>>, sled::Error>)
    ensures
        r matches Ok(found) ==> match found {
            Some(v) => tree_entries(*tree).contains_key(key@) && tree_entries(*tree)[key@] == v@,
            None => !tree_entries(*tree).contains_key(key@),
        },
{
    match tree.get(key) {
        Ok(found) => Ok(found.map(|v| v.to_vec())),
        Err(e) => Err(e),
    }
}

/// `Tree::remove`: where it succeeds, the key has left the tree and the other
/// entries are as they were. Nothing is said of the tree after an error.
#[verifier::external_body]
pub(crate) fn tree_remove(tree: &mut sled::Tree, key: &[u8]) -> (r: Result<(), sled::Error>)
    ensures
        r is Ok ==> tree_entries(*final(tree)) == tree_entries(*old(tree)).remove(key@),
{
    match tree.remove(key) {
        Ok(_) => Ok(()),
        Err(e) => Err(e),
    }
}

/// `Tree::iter`, walked until it ends or hands out an error, which is kept as
/// the last entry: the iterator does not move on after an error. Each entry
/// that was read is an entry of the tree, and where no error came, every key
/// of the tree is among them.
#[verifier::external_body]
pub(crate) fn tree_read_all(tree: &sled::Tree) -> (r: Vec<ReadEntry>)
    ensures
        forall|i: int|
            0 <= i < r.len() ==> (#[trigger] r[i] matches Ok(kv) ==> tree_entries(
                *tree,
            ).contains_key(kv.0@) && tree_entries(*tree)[kv.0@] == kv.1@),
        all_read(r@) ==> forall|k: Seq<u8>| #[trigger]
            tree_entries(*tree).contains_key(k) ==> exists|i: int|
                0 <= i < r.len() && (#[trigger] r[i] matches Ok(kv) && kv.0@ == k),
{
    let mut read = Vec::new();
    for entry in tree.iter() {
        let failed = entry.is_err();
        read.push(entry.map(|(k, v)| (k.to_vec(), v.to_vec())));
        if failed {
            break;
        }
    }
    read
}

} // verus!
