//! The content-addressed object store: immutable artifacts keyed by their
//! checksum. Persistence of the store is the caller's concern; the store's
//! bookkeeping is verified here.

use vstd::prelude::*;

use crate::checksum::Checksum;
use crate::errors::Error;
use crate::model::clone_bytes;

verus! {

/// Configuration for object-store backends: the root path for local
/// checkouts of remote repositories.
#[derive(Debug)]
pub struct ObjectsConfig {
    pub repos: Option<String>,
}

/// The common contract of object stores: a map from digest to content.
pub trait Objects: Sized {
    /// The stored contents, keyed by digest.
    spec fn store(&self) -> Map<Seq<u8>, Seq<u8>>;

    /// Put an object under its checksum; idempotent when content at that
    /// checksum already exists.
    fn put_object(&mut self, checksum: &Checksum, content: Vec<u8>) -> (r: Result<(), Error>)
        ensures
            r is Ok,
            old(self).store().contains_key(checksum@) ==> final(self).store() == old(self).store(),
            !old(self).store().contains_key(checksum@) ==> final(self).store() == old(
                self,
            ).store().insert(checksum@, content@),
    ;

    /// The content stored under a checksum, if any.
    fn get_object(&self, checksum: &Checksum) -> (r: Option<Vec<u8>>)
        ensures
            match r {
                Some(content) => self.store().contains_key(checksum@) && content@ == self.store()[
                    checksum@
                ],
                None => !self.store().contains_key(checksum@),
            },
    ;
}

/// The store view of in-memory objects.
pub open spec fn spec_object_map(objects: Seq<(Checksum, Vec<u8>)>) -> Map<Seq<u8>, Seq<u8>>
    decreases objects.len(),
{
    if objects.len() == 0 {
        Map::empty()
    } else {
        spec_object_map(objects.drop_last()).insert(objects.last().0@, objects.last().1@)
    }
}

/// The local object store: its contents live in memory; reading them from
/// and writing them to disk is the caller's concern.
pub struct LocalObjects {
    pub objects: Vec<(Checksum, Vec<u8>)>,
}

impl LocalObjects {
    /// An empty store.
    pub fn new() -> (r: LocalObjects)
        ensures
            r.store() == Map::<Seq<u8>, Seq<u8>>::empty(),
    {
        LocalObjects { objects: Vec::new() }
    }
}

impl Objects for LocalObjects {
    open spec fn store(&self) -> Map<Seq<u8>, Seq<u8>> {
        spec_object_map(self.objects@)
    }

    fn put_object(&mut self, checksum: &Checksum, content: Vec<u8>) -> (r: Result<(), Error>) {
        match self.get_object(checksum) {
            Some(_) => Ok(()),
            None => {
                let ghost pre = self.objects@;
                self.objects.push((checksum.clone(), content));
                proof {
                    assert(self.objects@.drop_last() =~= pre);
                    assert(self.objects@.last().0@ == checksum@);
                }
                Ok(())
            },
        }
    }

    #[verifier::loop_isolation(false)]
    fn get_object(&self, checksum: &Checksum) -> (r: Option<Vec<u8>>) {
        let mut i: usize = self.objects.len();
        proof {
            assert(self.objects@.take(self.objects@.len() as int) =~= self.objects@);
        }
        while i > 0
            invariant
                i <= self.objects@.len(),
                spec_object_map(self.objects@).contains_key(checksum@) == spec_object_map(
                    self.objects@.take(i as int),
                ).contains_key(checksum@),
                spec_object_map(self.objects@).contains_key(checksum@)
                    ==> spec_object_map(self.objects@)[checksum@] == spec_object_map(
                    self.objects@.take(i as int),
                )[checksum@],
            decreases i,
        {
            proof {
                assert(self.objects@.take(i as int).drop_last() =~= self.objects@.take(i - 1));
                assert(self.objects@.take(i as int).last() == self.objects@[i - 1]);
            }
            let (candidate, content) = &self.objects[i - 1];
            if candidate.eq_checksum(checksum) {
                return Some(clone_bytes(content));
            }
            i = i - 1;
        }
        proof {
            assert(self.objects@.take(0) =~= Seq::<(Checksum, Vec<u8>)>::empty());
        }
        None
    }
}

} // verus!
