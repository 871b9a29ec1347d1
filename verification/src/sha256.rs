//! Streaming SHA-256 digests over `ring`: an incremental hash context fed
//! fixed-size chunks, so an artifact never needs to be resident in memory
//! at once.

use vstd::prelude::*;

use crate::checksum::{Checksum, CHECKSUM_LEN};
use crate::errors::Error;

verus! {

#[verifier::external_type_specification]
#[verifier::external_body]
pub struct ExDigestContext(ring::digest::Context);

/// The digest of a byte sequence. SHA-256 is a function of its input alone;
/// what the function computes is not restated here.
pub uninterp spec fn sha256_of(bytes: Seq<u8>) -> Seq<u8>;

/// The bytes fed to an incremental digest context so far.
pub uninterp spec fn sha256_fed(context: ring::digest::Context) -> Seq<u8>;

/// An incremental SHA-256 context.
pub struct Sha256 {
    pub context: ring::digest::Context,
}

impl Sha256 {
    /// A fresh context with nothing fed yet.
    /// Relies on `ring::digest::Context::new` with the SHA256 algorithm.
    #[verifier::external_body]
    pub fn new() -> (r: Sha256)
        ensures
            sha256_fed(r.context) == Seq::<u8>::empty(),
    {
        Sha256 { context: ring::digest::Context::new(&ring::digest::SHA256) }
    }

    /// Feed more bytes.
    /// Relies on `ring::digest::Context::update`: the context absorbs the
    /// chunk after everything fed before it.
    #[verifier::external_body]
    pub fn update(&mut self, bytes: &[u8])
        ensures
            sha256_fed(final(self).context) == sha256_fed(old(self).context) + bytes@,
    {
        self.context.update(bytes);
    }

    /// Finish the digest: 32 bytes for SHA-256, a function of the fed bytes
    /// alone.
    /// Relies on `ring::digest::Context::finish` and the documented output
    /// length of SHA-256.
    #[verifier::external_body]
    pub fn finish(self) -> (r: Vec<u8>)
        ensures
            r@ == sha256_of(sha256_fed(self.context)),
            r@.len() == CHECKSUM_LEN,
    {
        self.context.finish().as_ref().to_vec()
    }
}

/// The digest of a whole artifact, computed through fixed-size chunks fed
/// to an incremental context.
#[verifier::loop_isolation(false)]
pub fn to_sha256(bytes: &Vec<u8>) -> (r: Result<Checksum, Error>)
    ensures
        r is Ok,
        r matches Ok(c) ==> c@ == sha256_of(bytes@) && c.wf(),
{
    let mut hasher = Sha256::new();
    let len = bytes.len();
    let mut i: usize = 0;
    proof {
        assert(bytes@.take(0) =~= Seq::<u8>::empty());
    }
    while i < len
        invariant
            i <= len,
            len == bytes@.len(),
            sha256_fed(hasher.context) == bytes@.take(i as int),
        decreases len - i,
    {
        let end = if len - i < 1024 {
            len
        } else {
            i + 1024
        };
        let chunk = vstd::slice::slice_subrange(bytes.as_slice(), i, end);
        hasher.update(chunk);
        proof {
            assert(bytes@.take(i as int) + bytes@.subrange(i as int, end as int) =~= bytes@.take(
                end as int,
            ));
        }
        i = end;
    }
    proof {
        assert(bytes@.take(len as int) =~= bytes@);
    }
    let digest = hasher.finish();
    Checksum::from_bytes(digest)
}

} // verus!
