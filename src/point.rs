use crate::bytes::bytes32_equal;
use crate::scalar::{group_order, Scalar};
use curve25519_dalek::constants::RISTRETTO_BASEPOINT_POINT;
use curve25519_dalek::ristretto::{CompressedRistretto, RistrettoPoint};
use curve25519_dalek::scalar::Scalar as DalekScalar;
use curve25519_dalek::traits::{IsIdentity, VartimeMultiscalarMul};
use vstd::prelude::*;

verus! {

/// A group element in its 32-byte compressed form.
///
/// Any 32 bytes form a `CompressedPoint`; whether they encode a group element
/// is only asked when the point is used.
#[derive(Clone, Copy, Debug)]
pub struct CompressedPoint {
    pub bytes: [u8; 32],
}

impl View for CompressedPoint {
    type V = Seq<u8>;

    open spec fn view(&self) -> Seq<u8> {
        self.bytes@
    }
}

impl PartialEq for CompressedPoint {
    fn eq(&self, other: &CompressedPoint) -> (r: bool) {
        bytes32_equal(&self.bytes, &other.bytes)
    }
}

impl vstd::std_specs::cmp::PartialEqSpecImpl for CompressedPoint {
    open spec fn obeys_eq_spec() -> bool {
        true
    }

    open spec fn eq_spec(&self, other: &CompressedPoint) -> bool {
        self.bytes == other.bytes
    }
}

impl Eq for CompressedPoint {
}

impl CompressedPoint {
    /// Wraps 32 bytes as a compressed point, without decompressing them.
    pub fn from_bytes(bytes: [u8; 32]) -> (r: CompressedPoint)
        ensures
            r.bytes == bytes,
    {
        CompressedPoint { bytes }
    }

    /// The 32 bytes of the compressed form.
    pub fn to_bytes(&self) -> (r: [u8; 32])
        ensures
            r == self.bytes,
    {
        self.bytes
    }
}

/// The compressed encoding of the group element `n·B`, where `B` is the
/// Ristretto base point, as `RistrettoPoint::compress` computes it.
pub uninterp spec fn point_encoding(n: nat) -> Seq<u8>;

/// `b` is the compressed encoding of `n·B`, and of no other multiple of `B`
/// below the group order.
pub open spec fn encodes_exactly(b: Seq<u8>, n: nat) -> bool {
    &&& n < group_order()
    &&& point_encoding(n) == b
    &&& forall|m: nat| m < group_order() && #[trigger] point_encoding(m) == b ==> m == n
}

/// `b` decompresses to a group element.
pub open spec fn is_point(b: Seq<u8>) -> bool {
    exists|n: nat| n < group_order() && #[trigger] point_encoding(n) == b
}

/// The discrete logarithm, to the base point, of the element that `b` encodes.
pub open spec fn point_log(b: Seq<u8>) -> nat {
    choose|n: nat| n < group_order() && #[trigger] point_encoding(n) == b
}

pub proof fn lemma_encodes_exactly(b: Seq<u8>, n: nat)
    requires
        encodes_exactly(b, n),
    ensures
        is_point(b),
        point_log(b) == n,
{
    assert(point_encoding(n) == b);
}

/// Every entry of `points` decompresses.
pub open spec fn all_points(points: Seq<Seq<u8>>) -> bool {
    forall|i: int| 0 <= i < points.len() ==> is_point(#[trigger] points[i])
}

/// The sum of `scalars[i]` times the discrete logarithm of `points[i]`.
pub open spec fn weighted_sum(scalars: Seq<nat>, points: Seq<Seq<u8>>) -> int
    decreases scalars.len(),
{
    if scalars.len() == 0 || points.len() == 0 {
        0
    } else {
        weighted_sum(scalars.drop_last(), points.drop_last()) + scalars.last() * point_log(
            points.last(),
        )
    }
}

/// The weighted sum of `points` with these weights is the identity element.
pub open spec fn equation_holds(scalars: Seq<nat>, points: Seq<Seq<u8>>) -> bool {
    &&& scalars.len() == points.len()
    &&& all_points(points)
    &&& weighted_sum(scalars, points) % (group_order() as int) == 0
}

/// The field values of a sequence of scalars.
pub open spec fn field_values(scalars: Seq<Scalar>) -> Seq<nat> {
    scalars.map_values(|s: Scalar| s.field_value())
}

/// The compressed encodings of a sequence of points.
pub open spec fn point_views(points: Seq<CompressedPoint>) -> Seq<Seq<u8>> {
    points.map_values(|p: CompressedPoint| p@)
}

/// Relies on curve25519-dalek: `Scalar::from_bytes_mod_order`, the product with
/// `RISTRETTO_BASEPOINT_POINT`, and `RistrettoPoint::compress`, whose encoding
/// is canonical, so that distinct multiples of the base point below the group
/// order have distinct encodings.
#[verifier::external_body]
pub(crate) fn mul_base(a: &Scalar) -> (r: CompressedPoint)
    ensures
        r@ == point_encoding(a.field_value()),
        encodes_exactly(r@, a.field_value()),
{
    let s = DalekScalar::from_bytes_mod_order(a.bytes);
    CompressedPoint { bytes: (s * RISTRETTO_BASEPOINT_POINT).compress().to_bytes() }
}

/// Relies on curve25519-dalek: `CompressedRistretto::decompress` (`None` when
/// the bytes encode no element), the product of a `RistrettoPoint` by a
/// `Scalar`, and `RistrettoPoint::compress`.
#[verifier::external_body]
pub(crate) fn mul_point(a: &Scalar, p: &CompressedPoint) -> (r: Option<CompressedPoint>)
    ensures
        r is Some <==> is_point(p@),
        r is Some ==> r->Some_0@ == point_encoding((a.field_value() * point_log(p@)) % group_order()),
        r is Some ==> encodes_exactly(
            r->Some_0@,
            (a.field_value() * point_log(p@)) % group_order(),
        ),
{
    let s = DalekScalar::from_bytes_mod_order(a.bytes);
    match CompressedRistretto(p.bytes).decompress() {
        Some(q) => Some(CompressedPoint { bytes: (s * q).compress().to_bytes() }),
        None => None,
    }
}

/// Relies on `RistrettoPoint::optional_multiscalar_mul` of curve25519-dalek
/// (the weighted sum of the decompressed points, `None` when one of them does
/// not decompress) and on `IsIdentity::is_identity`.
#[verifier::external_body]
pub(crate) fn multiscalar_mul_is_identity(scalars: &Vec<Scalar>, points: &Vec<CompressedPoint>) -> (r:
    Option<bool>)
    requires
        scalars.len() == points.len(),
    ensures
        r is Some <==> all_points(point_views(points@)),
        r is Some ==> (r->Some_0 <==> weighted_sum(field_values(scalars@), point_views(points@))
            % (group_order() as int) == 0),
{
    let result = RistrettoPoint::optional_multiscalar_mul(
        scalars.iter().map(|s| DalekScalar::from_bytes_mod_order(s.bytes)),
        points.iter().map(|p| CompressedRistretto(p.bytes).decompress()),
    );
    match result {
        Some(q) => Some(q.is_identity()),
        None => None,
    }
}


/// Each scalar value times the weight `w`, modulo the group order.
pub open spec fn weighted_by(w: nat, scalars: Seq<nat>) -> Seq<nat> {
    scalars.map_values(|s: nat| (w * s) % group_order())
}

/// The weighted sum splits over concatenation.
pub proof fn lemma_weighted_sum_concat(a: Seq<nat>, p: Seq<Seq<u8>>, b: Seq<nat>, q: Seq<Seq<u8>>)
    requires
        a.len() == p.len(),
        b.len() == q.len(),
    ensures
        weighted_sum(a + b, p + q) == weighted_sum(a, p) + weighted_sum(b, q),
    decreases b.len(),
{
    if b.len() == 0 {
        assert(a + b =~= a);
        assert(p + q =~= p);
    } else {
        lemma_weighted_sum_concat(a, p, b.drop_last(), q.drop_last());
        assert((a + b).drop_last() =~= a + b.drop_last());
        assert((p + q).drop_last() =~= p + q.drop_last());
        assert((a + b).last() == b.last());
        assert((p + q).last() == q.last());
    }
}

/// Scaling every weight by `w` scales the weighted sum by `w`, modulo the group order.
pub proof fn lemma_weighted_sum_scaled(w: nat, a: Seq<nat>, p: Seq<Seq<u8>>)
    requires
        a.len() == p.len(),
    ensures
        weighted_sum(weighted_by(w, a), p) % (group_order() as int)
            == (w * weighted_sum(a, p)) % (group_order() as int),
    decreases a.len(),
{
    let l = group_order() as int;
    crate::scalar::lemma_group_order_gt_one();
    let wa = weighted_by(w, a);
    if a.len() == 0 {
        assert(weighted_sum(wa, p) == 0);
        assert(weighted_sum(a, p) == 0);
        assert(w * 0 == 0) by (nonlinear_arith);
    } else {
        let a_init = a.drop_last();
        let q_init = p.drop_last();
        lemma_weighted_sum_scaled(w, a_init, q_init);
        assert(wa.drop_last() =~= weighted_by(w, a_init));
        let x = weighted_sum(weighted_by(w, a_init), q_init);
        let y = weighted_sum(a_init, q_init);
        let lg = point_log(p.last()) as int;
        let s = a.last() as int;
        assert(weighted_sum(wa, p) == x + ((w * s) % l) * lg);
        assert(weighted_sum(a, p) == y + s * lg);
        assert(x % l == (w * y) % l);
        vstd::arithmetic::div_mod::lemma_add_mod_noop(x, ((w * s) % l) * lg, l);
        vstd::arithmetic::div_mod::lemma_mul_mod_noop_left(w * s, lg, l);
        vstd::arithmetic::div_mod::lemma_add_mod_noop(w * y, (w * s) * lg, l);
        assert(w * (y + s * lg) == w * y + (w * s) * lg) by (nonlinear_arith);
    }
}

} // verus!
