//! The byte-vector input that the fuzzer evolves.
use vstd::prelude::*;

verus! {

/// A variable-length byte sequence handed to the target.
#[derive(Debug, Clone)]
pub struct BytesInput {
    pub bytes: Vec<u8>,
}

impl View for BytesInput {
    type V = Seq<u8>;

    open spec fn view(&self) -> Seq<u8> {
        self.bytes@
    }
}

impl BytesInput {
    /// Wraps a byte vector.
    pub fn new(bytes: Vec<u8>) -> (r: BytesInput)
        ensures
            r@ == bytes@,
    {
        BytesInput { bytes }
    }

    /// The bytes of the input.
    pub fn bytes(&self) -> (r: &[u8])
        ensures
            r@ == self@,
    {
        self.bytes.as_slice()
    }

    /// The number of bytes of the input.
    pub fn len(&self) -> (r: usize)
        ensures
            r == self@.len(),
    {
        self.bytes.len()
    }

    /// Whether the input holds no byte.
    pub fn is_empty(&self) -> (r: bool)
        ensures
            r == (self@.len() == 0),
    {
        self.bytes.len() == 0
    }
}

} // verus!
