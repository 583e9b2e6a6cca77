use curve25519_dalek::scalar::Scalar as DalekScalar;
use vstd::arithmetic::power2::pow2;
use crate::bytes::bytes32_equal;
use vstd::prelude::*;

verus! {

/// The order of the prime-order group: 2^252 + 27742317777372353535851937790883648493.
pub open spec fn group_order() -> nat {
    pow2(252) + 27742317777372353535851937790883648493nat
}

/// The integer that `b` denotes when read as little-endian digits in base 256.
pub open spec fn le_value(b: Seq<u8>) -> nat
    decreases b.len(),
{
    if b.len() == 0 {
        0
    } else {
        b[0] as nat + 256 * le_value(b.subrange(1, b.len() as int))
    }
}

pub proof fn lemma_group_order_gt_one()
    ensures
        group_order() > 1,
{
    vstd::arithmetic::power2::lemma_pow2_pos(252);
}

/// Integers that differ by a multiple of `m` leave the same remainder.
pub proof fn lemma_mod_congruent(a: int, b: int, m: int, q: int)
    requires
        m > 0,
        a == b + m * q,
    ensures
        a % m == b % m,
{
    vstd::arithmetic::div_mod::lemma_mod_multiples_vanish(q, b, m);
}

/// `a` is `m` times its quotient plus its remainder.
pub proof fn lemma_div_mod(a: int, m: int)
    requires
        m > 0,
    ensures
        a == m * (a / m) + a % m,
{
    vstd::arithmetic::div_mod::lemma_fundamental_div_mod(a, m);
}

/// A scalar of the group's field, held as its 32-byte little-endian encoding.
///
/// Any 32 bytes form a `Scalar`; the arithmetic of the library treats a scalar
/// by its value modulo the group order, so an encoding that is not reduced
/// stands for the same field element as its reduction.
#[derive(Clone, Copy, Debug)]
pub struct Scalar {
    pub bytes: [u8; 32],
}

impl View for Scalar {
    type V = nat;

    open spec fn view(&self) -> nat {
        le_value(self.bytes@)
    }
}

impl Scalar {
    /// The field element that this scalar stands for.
    pub open spec fn field_value(self) -> nat {
        self@ % group_order()
    }

    /// Holds when the encoding is the reduced one.
    pub open spec fn canonical(self) -> bool {
        self@ < group_order()
    }

    /// Wraps 32 bytes, read little-endian, without reducing them.
    pub fn from_bytes(bytes: [u8; 32]) -> (r: Scalar)
        ensures
            r.bytes == bytes,
    {
        Scalar { bytes }
    }

    /// The 32-byte encoding of this scalar.
    pub fn to_bytes(&self) -> (r: [u8; 32])
        ensures
            r == self.bytes,
    {
        self.bytes
    }

    /// Whether the encoding is reduced modulo the group order.
    pub fn is_canonical(&self) -> (r: bool)
        ensures
            r == self.canonical(),
    {
        bytes_are_canonical(self.bytes)
    }

    /// The scalar with these bytes when they are the reduced encoding of a field element.
    pub fn from_canonical_bytes(bytes: [u8; 32]) -> (r: Option<Scalar>)
        ensures
            r is Some <==> le_value(bytes@) < group_order(),
            r is Some ==> r->Some_0.bytes == bytes,
    {
        if bytes_are_canonical(bytes) {
            Some(Scalar { bytes })
        } else {
            None
        }
    }

    /// The scalar one.
    pub fn one() -> (r: Scalar)
        ensures
            r@ == 1,
    {
        scalar_from_u64(1)
    }
}

impl PartialEq for Scalar {
    fn eq(&self, other: &Scalar) -> (r: bool) {
        bytes32_equal(&self.bytes, &other.bytes)
    }
}

impl vstd::std_specs::cmp::PartialEqSpecImpl for Scalar {
    open spec fn obeys_eq_spec() -> bool {
        true
    }

    open spec fn eq_spec(&self, other: &Scalar) -> bool {
        self.bytes == other.bytes
    }
}

impl Eq for Scalar {
}

impl From<u64> for Scalar {
    fn from(n: u64) -> (r: Scalar) {
        scalar_from_u64(n)
    }
}

impl vstd::std_specs::convert::FromSpecImpl<u64> for Scalar {
    open spec fn obeys_from_spec() -> bool {
        false
    }

    open spec fn from_spec(n: u64) -> Scalar {
        arbitrary()
    }
}

/// Relies on `From<u64> for Scalar` of curve25519-dalek, which writes `n` as
/// little-endian bytes followed by zeros.
#[verifier::external_body]
pub(crate) fn scalar_from_u64(n: u64) -> (r: Scalar)
    ensures
        r@ == n as nat,
{
    Scalar { bytes: DalekScalar::from(n).to_bytes() }
}

/// Relies on `Scalar::from_canonical_bytes` of curve25519-dalek: `Some` exactly
/// when the bytes are a little-endian integer below the group order.
#[verifier::external_body]
fn bytes_are_canonical(bytes: [u8; 32]) -> (r: bool)
    ensures
        r == (le_value(bytes@) < group_order()),
{
    DalekScalar::from_canonical_bytes(bytes).is_some()
}

/// Relies on the `Add` of curve25519-dalek's `Scalar` (sum modulo the group
/// order), on `Scalar::from_bytes_mod_order` and on `Scalar::to_bytes`.
#[verifier::external_body]
pub(crate) fn scalar_add(a: &Scalar, b: &Scalar) -> (r: Scalar)
    ensures
        r@ == (a@ + b@) % group_order(),
{
    let x = DalekScalar::from_bytes_mod_order(a.bytes);
    let y = DalekScalar::from_bytes_mod_order(b.bytes);
    Scalar { bytes: (x + y).to_bytes() }
}

/// Relies on the `Mul` of curve25519-dalek's `Scalar` (product modulo the group
/// order), on `Scalar::from_bytes_mod_order` and on `Scalar::to_bytes`.
#[verifier::external_body]
pub(crate) fn scalar_mul(a: &Scalar, b: &Scalar) -> (r: Scalar)
    ensures
        r@ == (a@ * b@) % group_order(),
{
    let x = DalekScalar::from_bytes_mod_order(a.bytes);
    let y = DalekScalar::from_bytes_mod_order(b.bytes);
    Scalar { bytes: (x * y).to_bytes() }
}

/// Relies on the `Neg` of curve25519-dalek's `Scalar` (additive inverse modulo
/// the group order), on `Scalar::from_bytes_mod_order` and on `Scalar::to_bytes`.
#[verifier::external_body]
pub(crate) fn scalar_neg(a: &Scalar) -> (r: Scalar)
    ensures
        r@ == (group_order() - a@ % group_order()) as nat % group_order(),
{
    let x = DalekScalar::from_bytes_mod_order(a.bytes);
    Scalar { bytes: (-x).to_bytes() }
}

/// Relies on `Scalar::from_bytes_mod_order_wide` of curve25519-dalek: 64
/// little-endian bytes reduced modulo the group order.
#[verifier::external_body]
pub(crate) fn scalar_from_wide(bytes: &[u8; 64]) -> (r: Scalar)
    ensures
        r@ == le_value(bytes@) % group_order(),
{
    Scalar { bytes: DalekScalar::from_bytes_mod_order_wide(bytes).to_bytes() }
}

/// Relies on `Scalar::random` of curve25519-dalek, fed by `rand::thread_rng`:
/// a reduced scalar, of which nothing else is known.
#[verifier::external_body]
pub(crate) fn random_scalar() -> (r: Scalar)
    ensures
        r.canonical(),
{
    Scalar { bytes: DalekScalar::random(&mut rand::thread_rng()).to_bytes() }
}

} // verus!
