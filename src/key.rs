use crate::bytes::{bytes32_at, concat_bytes32, extend_bytes32};
use crate::errors::ZkSchnorrError;
use crate::point::{encodes_exactly, lemma_encodes_exactly, mul_base, mul_point, point_encoding, CompressedPoint};
use crate::scalar::{group_order, Scalar};
use vstd::prelude::*;

verus! {

/// A signing key is a scalar of the group.
pub type SigningKey = Scalar;

/// A verification key: a key-specific base `g` and the commitment `h` to the
/// secret scalar, both compressed.
#[derive(Clone, Copy, Debug)]
pub struct VerificationKey {
    /// The key-specific base, `r·B` for the randomization scalar `r`.
    pub g: CompressedPoint,
    /// The commitment to the secret, `x·g` for the secret scalar `x`.
    pub h: CompressedPoint,
}

impl PartialEq for VerificationKey {
    fn eq(&self, other: &VerificationKey) -> (r: bool) {
        self.g == other.g && self.h == other.h
    }
}

impl vstd::std_specs::cmp::PartialEqSpecImpl for VerificationKey {
    open spec fn obeys_eq_spec() -> bool {
        true
    }

    open spec fn eq_spec(&self, other: &VerificationKey) -> bool {
        self.g == other.g && self.h == other.h
    }
}

impl Eq for VerificationKey {
}

impl VerificationKey {
    /// The key is the one made from secret `x` and randomization `r`:
    /// `g` encodes `r·B` and `h` encodes `x·r·B`.
    pub open spec fn made_from(self, x: Scalar, r: Scalar) -> bool {
        &&& encodes_exactly(self.g@, r.field_value())
        &&& encodes_exactly(self.h@, (x.field_value() * r.field_value()) % group_order())
    }

    /// The 64-byte encoding: `g`, then `h`.
    pub open spec fn encoding(self) -> Seq<u8> {
        self.g@ + self.h@
    }

    /// A key from its two compressed points.
    pub fn new(g: CompressedPoint, h: CompressedPoint) -> (r: Self)
        ensures
            r.g == g,
            r.h == h,
    {
        Self { g, h }
    }

    /// The key of secret `privkey` under randomization `r`: `g = r·B`, `h = privkey·g`.
    pub fn from_secret(privkey: &Scalar, r: &Scalar) -> (k: Self)
        ensures
            k.g@ == point_encoding(r.field_value()),
            k.h@ == point_encoding((privkey.field_value() * r.field_value()) % group_order()),
            k.made_from(*privkey, *r),
    {
        let g = Self::from_secret_decompressed(r);
        proof {
            lemma_encodes_exactly(g@, r.field_value());
        }
        let h = mul_point(privkey, &g).unwrap();
        Self::from_compressed(g, h)
    }

    /// The key-specific base `r·B`.
    pub fn from_secret_decompressed(r: &Scalar) -> (p: CompressedPoint)
        ensures
            p@ == point_encoding(r.field_value()),
            encodes_exactly(p@, r.field_value()),
    {
        mul_base(r)
    }

    /// A key from its two compressed points, kept as they are.
    pub fn from_compressed(p: CompressedPoint, q: CompressedPoint) -> (r: Self)
        ensures
            r.g == p,
            r.h == q,
    {
        VerificationKey { g: p, h: q }
    }

    /// The two compressed points `(g, h)`.
    pub fn into_point(self) -> (r: (CompressedPoint, CompressedPoint))
        ensures
            r == (self.g, self.h),
    {
        (self.g, self.h)
    }

    /// References to the two compressed points `(g, h)`.
    pub fn as_point(&self) -> (r: (&CompressedPoint, &CompressedPoint))
        ensures
            *r.0 == self.g,
            *r.1 == self.h,
    {
        (&self.g, &self.h)
    }

    /// The 64-byte encoding, `g` then `h`.
    pub fn to_bytes(&self) -> (r: Vec<u8>)
        ensures
            r@ == self.encoding(),
    {
        let mut bytes: Vec<u8> = Vec::with_capacity(64);
        extend_bytes32(&mut bytes, &self.g.bytes);
        extend_bytes32(&mut bytes, &self.h.bytes);
        assert(bytes@ =~= self.encoding());
        bytes
    }

    /// Decodes a key from its 64-byte encoding, without decompressing the points.
    pub fn from_bytes(bytes: &[u8]) -> (r: Result<Self, ZkSchnorrError>)
        ensures
            r is Ok <==> bytes@.len() == 64,
            r is Ok ==> r->Ok_0.encoding() == bytes@,
            r is Err ==> r == Err::<Self, ZkSchnorrError>(ZkSchnorrError::InvalidLength),
    {
        if bytes.len() != 64 {
            return Err(ZkSchnorrError::InvalidLength);
        }
        let g = bytes32_at(bytes, 0);
        let h = bytes32_at(bytes, 32);
        let k = VerificationKey { g: CompressedPoint { bytes: g }, h: CompressedPoint { bytes: h } };
        assert(k.encoding() =~= bytes@);
        Ok(k)
    }

    /// The 64-byte encoding as an array, `g` then `h`.
    pub fn to_bytes_array(&self) -> (r: [u8; 64])
        ensures
            r@ == self.encoding(),
    {
        concat_bytes32(&self.g.bytes, &self.h.bytes)
    }
}

/// A key is determined by its encoding, so decoding the encoding of `k` gives `k` back.
pub proof fn lemma_key_round_trip(k: VerificationKey, d: VerificationKey)
    requires
        d.encoding() == k.encoding(),
    ensures
        d == k,
{
    assert(d.g@ =~= d.encoding().subrange(0, 32));
    assert(k.g@ =~= k.encoding().subrange(0, 32));
    assert(d.h@ =~= d.encoding().subrange(32, 64));
    assert(k.h@ =~= k.encoding().subrange(32, 64));
    vstd::array::axiom_array_ext_equal(d.g.bytes, k.g.bytes);
    vstd::array::axiom_array_ext_equal(d.h.bytes, k.h.bytes);
}

} // verus!
