//! Plain byte containers against which the elastic array is measured.

use vstd::prelude::*;

verus! {

/// A fixed block of 1024 bytes; `push` overwrites the first byte.
pub struct BytesArr1024 {
    arr: [u8; 1024],
}

impl View for BytesArr1024 {
    type V = Seq<u8>;

    closed spec fn view(&self) -> Seq<u8> {
        self.arr@
    }
}

impl BytesArr1024 {
    /// A block of 1024 zero bytes.
    pub fn new() -> (r: BytesArr1024)
        ensures
            r@ == Seq::new(1024, |_i: int| 0u8),
    {
        let r = BytesArr1024 { arr: [0u8; 1024] };
        assert(r@ =~= Seq::new(1024, |_i: int| 0u8));
        r
    }

    /// Writes `e` into the first byte of the block.
    pub fn push(&mut self, e: u8)
        ensures
            final(self)@ == old(self)@.update(0, e),
    {
        self.arr[0] = e;
    }

    /// The whole block.
    pub fn as_slice(&self) -> (r: &[u8])
        ensures
            r@ == self@,
    {
        self.arr.as_slice()
    }
}

/// A heap vector of bytes.
pub struct BytesVec1024 {
    vec: Vec<u8>,
}

impl View for BytesVec1024 {
    type V = Seq<u8>;

    closed spec fn view(&self) -> Seq<u8> {
        self.vec@
    }
}

impl BytesVec1024 {
    /// An empty vector.
    pub fn new() -> (r: BytesVec1024)
        ensures
            r@ == Seq::<u8>::empty(),
    {
        BytesVec1024 { vec: Vec::new() }
    }

    /// Appends `e` at the end.
    pub fn push(&mut self, e: u8)
        ensures
            final(self)@ == old(self)@.push(e),
    {
        self.vec.push(e);
    }

    /// The bytes pushed so far.
    pub fn as_slice(&self) -> (r: &[u8])
        ensures
            r@ == self@,
    {
        self.vec.as_slice()
    }
}

} // verus!
