use vstd::prelude::*;

verus! {

/// The ways in which decoding or verification fails.
#[derive(Clone, Copy, Debug, PartialEq, Eq, Structural)]
pub enum ZkSchnorrError {
    /// A single signature did not verify, or one of its points did not decompress.
    InvalidSignature,
    /// A batch of signatures did not verify, or one of its points did not decompress.
    InvalidBatch,
    /// An encoded key or signature did not have the length of 64 bytes.
    InvalidLength,
}

} // verus!
