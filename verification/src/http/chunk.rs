//! A piece of a message body.

use std::sync::Arc;
use vstd::prelude::*;

verus! {

/// A piece of a message body: bytes that it owns, shares or borrows for
/// good.
pub struct Chunk(pub Inner);

/// Where the bytes of a chunk are.
pub enum Inner {
    Owned(Vec<u8>),
    Referenced(Arc<Vec<u8>>),
    Static(&'static [u8]),
}

impl View for Chunk {
    type V = Seq<u8>;

    open spec fn view(&self) -> Seq<u8> {
        match self.0 {
            Inner::Owned(vec) => vec@,
            Inner::Referenced(vec) => vec@,
            Inner::Static(slice) => slice@,
        }
    }
}

impl From<Vec<u8>> for Chunk {
    #[inline]
    fn from(v: Vec<u8>) -> (chunk: Chunk) {
        Chunk(Inner::Owned(v))
    }
}

impl vstd::std_specs::convert::FromSpecImpl<Vec<u8>> for Chunk {
    open spec fn obeys_from_spec() -> bool {
        true
    }

    open spec fn from_spec(v: Vec<u8>) -> Chunk {
        Chunk(Inner::Owned(v))
    }
}

impl From<Arc<Vec<u8>>> for Chunk {
    #[inline]
    fn from(v: Arc<Vec<u8>>) -> (chunk: Chunk) {
        Chunk(Inner::Referenced(v))
    }
}

impl vstd::std_specs::convert::FromSpecImpl<Arc<Vec<u8>>> for Chunk {
    open spec fn obeys_from_spec() -> bool {
        true
    }

    open spec fn from_spec(v: Arc<Vec<u8>>) -> Chunk {
        Chunk(Inner::Referenced(v))
    }
}

impl From<&'static [u8]> for Chunk {
    #[inline]
    fn from(slice: &'static [u8]) -> (chunk: Chunk) {
        Chunk(Inner::Static(slice))
    }
}

impl vstd::std_specs::convert::FromSpecImpl<&'static [u8]> for Chunk {
    open spec fn obeys_from_spec() -> bool {
        true
    }

    open spec fn from_spec(slice: &'static [u8]) -> Chunk {
        Chunk(Inner::Static(slice))
    }
}

impl Chunk {
    /// The bytes of the chunk.
    #[inline]
    pub fn as_ref(&self) -> (bytes: &[u8])
        ensures
            bytes@ == self@,
    {
        match &self.0 {
            Inner::Owned(vec) => vec.as_slice(),
            Inner::Referenced(vec) => {
                let v: &Vec<u8> = &**vec;
                v.as_slice()
            },
            Inner::Static(slice) => slice,
        }
    }
}

impl std::ops::Deref for Chunk {
    type Target = [u8];

    #[inline]
    fn deref(&self) -> (bytes: &[u8])
        ensures
            bytes@ == self@,
    {
        self.as_ref()
    }
}

impl AsRef<[u8]> for Chunk {
    /// The bytes of the chunk.
    #[inline]
    fn as_ref(&self) -> (bytes: &[u8])
        ensures
            bytes@ == self@,
    {
        Chunk::as_ref(self)
    }
}

} // verus!
