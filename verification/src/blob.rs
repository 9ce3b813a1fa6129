//! The blob index: the content of each stored file, by the file's id.

use std::collections::HashMap;
use vstd::prelude::*;

verus! {

broadcast use vstd::std_specs::hash::group_hash_axioms;

/// What became of a blob that was to be deleted.
#[derive(Clone, Copy, Debug, PartialEq, Eq, Structural)]
pub enum BlobDelete {
    /// The blob was there and is gone now.
    Deleted,
    /// There was no blob under the id.
    Missing,
    /// The blob could not be deleted. A store in memory never says so; a
    /// store on disk may.
    Failed,
}

/// The blobs, by id.
pub struct BlobStore {
    blobs: HashMap<u64, Vec<u8>>,
}

impl View for BlobStore {
    type V = Map<u64, Seq<u8>>;

    closed spec fn view(&self) -> Map<u64, Seq<u8>> {
        self.blobs@.map_values(|bytes: Vec<u8>| bytes@)
    }
}

impl BlobStore {
    /// A store without blobs.
    pub fn new() -> (s: BlobStore)
        ensures
            s@ == Map::<u64, Seq<u8>>::empty(),
    {
        let s = BlobStore { blobs: HashMap::new() };
        assert(s@ =~= Map::<u64, Seq<u8>>::empty());
        s
    }

    /// Stores `bytes` under `id`, in place of what was there.
    pub fn write(&mut self, id: u64, bytes: Vec<u8>)
        ensures
            final(self)@ == old(self)@.insert(id, bytes@),
    {
        let ghost content = bytes@;
        self.blobs.insert(id, bytes);
        assert(self@ =~= old(self)@.insert(id, content));
    }

    /// Whether a blob is stored under `id`.
    pub fn contains(&self, id: u64) -> (b: bool)
        ensures
            b == self@.contains_key(id),
    {
        self.blobs.contains_key(&id)
    }

    /// The blob stored under `id`.
    pub fn read(&self, id: u64) -> (r: Option<&Vec<u8>>)
        ensures
            match r {
                Some(bytes) => self@.contains_key(id) && self@[id] == bytes@,
                None => !self@.contains_key(id),
            },
    {
        self.blobs.get(&id)
    }

    /// Removes the blob stored under `id`, and says whether there was one.
    pub fn delete(&mut self, id: u64) -> (r: BlobDelete)
        ensures
            final(self)@ == old(self)@.remove(id),
            r == if old(self)@.contains_key(id) {
                BlobDelete::Deleted
            } else {
                BlobDelete::Missing
            },
    {
        let removed = self.blobs.remove(&id);
        assert(self@ =~= old(self)@.remove(id));
        match removed {
            Some(_) => BlobDelete::Deleted,
            None => BlobDelete::Missing,
        }
    }
}

} // verus!
