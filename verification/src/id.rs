//! Module identities (a SHA-512 digest of a module's source) and module indices.

use vstd::prelude::*;
use vstd::std_specs::cmp::PartialEqSpecImpl;

verus! {

/// The SHA-512 digest of a byte sequence, as computed by the `sha2` crate.
pub uninterp spec fn sha512_digest(data: Seq<u8>) -> Seq<u8>;

/// Calls `sha2::Sha512::digest` and copies the 64-byte output into a `Vec`.
/// Trusted: the bytes are the SHA-512 digest of `data` (named `sha512_digest`),
/// and a SHA-512 digest is 64 bytes long (the hasher's output size is `U64`).
#[verifier::external_body]
fn sha512(data: &[u8]) -> (out: Vec<u8>)
    ensures
        out@ == sha512_digest(data@),
        out@.len() == 64,
{
    <sha2::Sha512 as sha2::Digest>::digest(data).to_vec()
}

/// The identity of a module: the digest of its source text.
/// Two sources with the same digest are the same module.
#[derive(Debug)]
pub struct Id(Vec<u8>);

impl Clone for Id {
    fn clone(&self) -> (r: Id)
        ensures
            r@ == self@,
    {
        let v = self.0.clone();
        assert(v@ =~= self.0@);
        Id(v)
    }
}

impl View for Id {
    type V = Seq<u8>;

    closed spec fn view(&self) -> Seq<u8> {
        self.0@
    }
}

impl Id {
    /// The identity of a module whose source is `src`.
    pub fn from(src: &[u8]) -> (id: Id)
        ensures
            id@ == sha512_digest(src@),
            id@.len() == 64,
    {
        Id(sha512(src))
    }

    /// The digest bytes of this identity.
    pub fn as_bytes(&self) -> (b: &[u8])
        ensures
            b@ == self@,
    {
        self.0.as_slice()
    }

    /// Whether two identities are equal, byte by byte.
    pub fn same_as(&self, other: &Id) -> (r: bool)
        ensures
            r == (self@ == other@),
    {
        let a = &self.0;
        let b = &other.0;
        if a.len() != b.len() {
            return false;
        }
        let mut i: usize = 0;
        while i < a.len()
            invariant
                a@ == self@,
                b@ == other@,
                a@.len() == b@.len(),
                i <= a@.len(),
                forall|j: int| 0 <= j < i ==> a@[j] == b@[j],
            decreases a@.len() - i,
        {
            if a[i] != b[i] {
                assert(self@[i as int] != other@[i as int]);
                return false;
            }
            i = i + 1;
        }
        assert(a@ =~= b@);
        true
    }
}

impl PartialEq for Id {
    fn eq(&self, other: &Self) -> (r: bool) {
        self.same_as(other)
    }
}

impl PartialEqSpecImpl for Id {
    open spec fn obeys_eq_spec() -> bool {
        true
    }

    open spec fn eq_spec(&self, other: &Self) -> bool {
        self@ == other@
    }
}

/// The position of a module in the module manager.
#[derive(Debug, Clone, Copy, Eq, Hash, PartialOrd, Ord)]
pub struct Index(pub usize);

impl PartialEq for Index {
    fn eq(&self, other: &Self) -> (r: bool) {
        self.0 == other.0
    }
}

impl PartialEqSpecImpl for Index {
    open spec fn obeys_eq_spec() -> bool {
        true
    }

    open spec fn eq_spec(&self, other: &Self) -> bool {
        self.0 == other.0
    }
}

} // verus!
