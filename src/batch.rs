use crate::errors::ZkSchnorrError;
use crate::point::{
    all_points, equation_holds, field_values, lemma_weighted_sum_concat, lemma_weighted_sum_scaled,
    multiscalar_mul_is_identity, point_views, weighted_by, weighted_sum, CompressedPoint,
};
use crate::scalar::{group_order, random_scalar, scalar_mul, Scalar};
use vstd::prelude::*;

verus! {

/// A receiver of verification equations: each says that the points, weighted
/// by the scalars, sum to the identity element.
pub trait BatchVerification: Sized {
    /// The receiver's own well-formedness.
    spec fn inv(&self) -> bool;

    /// `new` is `old` after it received the equation with these scalar values
    /// (the base point scalar first) and these compressed points.
    spec fn appended(old: Self, new: Self, scalars: Seq<nat>, points: Seq<Seq<u8>>) -> bool;

    /// `new` is `old` after it was told that an equation it was to receive
    /// could not be formed.
    spec fn rejected(old: Self, new: Self) -> bool;

    /// Records that an equation could not be formed, so that the verification
    /// it belonged to fails.
    fn reject(&mut self)
        requires
            old(self).inv(),
        ensures
            final(self).inv(),
            Self::rejected(*old(self), *final(self)),
    ;

    /// Receives the equation that `basepoint_scalar` times the first of
    /// `dynamic_points`, plus each of `dynamic_scalars` times the point after
    /// it, is the identity element.
    fn append(
        &mut self,
        basepoint_scalar: Scalar,
        dynamic_scalars: Vec<Scalar>,
        dynamic_points: Vec<CompressedPoint>,
    )
        requires
            old(self).inv(),
            dynamic_points.len() == dynamic_scalars.len() + 1,
        ensures
            final(self).inv(),
            Self::appended(
                *old(self),
                *final(self),
                seq![basepoint_scalar.field_value()] + field_values(dynamic_scalars@),
                point_views(dynamic_points@),
            ),
    ;
}

/// Checks a single equation as soon as it is received.
pub struct SingleVerifier {
    result: Result<(), ZkSchnorrError>,
}

/// The list `[first, rest...]` of scalars.
fn prepend_scalar(first: Scalar, rest: &Vec<Scalar>) -> (r: Vec<Scalar>)
    ensures
        r@ == seq![first] + rest@,
{
    let mut r: Vec<Scalar> = Vec::new();
    r.push(first);
    let mut i: usize = 0;
    while i < rest.len()
        invariant
            0 <= i <= rest.len(),
            r@ == seq![first] + rest@.subrange(0, i as int),
        decreases rest.len() - i,
    {
        r.push(rest[i]);
        i = i + 1;
        assert(r@ =~= seq![first] + rest@.subrange(0, i as int));
    }
    assert(rest@.subrange(0, rest.len() as int) =~= rest@);
    r
}

impl SingleVerifier {
    /// What the verifier reports.
    pub closed spec fn outcome(self) -> Result<(), ZkSchnorrError> {
        self.result
    }

    /// A verifier that has received nothing yet, and so reports an invalid signature.
    pub fn new() -> (r: Self)
        ensures
            r.outcome() == Err::<(), ZkSchnorrError>(ZkSchnorrError::InvalidSignature),
    {
        SingleVerifier { result: Err(ZkSchnorrError::InvalidSignature) }
    }

    /// What the verifier reports: success exactly when the last equation received holds.
    pub fn result(&self) -> (r: Result<(), ZkSchnorrError>)
        ensures
            r == self.outcome(),
    {
        self.result
    }

    /// Checks one equation: `Ok` exactly when every point decompresses and the
    /// weighted sum of the points is the identity, `InvalidSignature` otherwise.
    pub fn verify(
        basepoint_scalar: Scalar,
        dynamic_scalars: Vec<Scalar>,
        dynamic_points: Vec<CompressedPoint>,
    ) -> (r: Result<(), ZkSchnorrError>)
        requires
            dynamic_points.len() == dynamic_scalars.len() + 1,
        ensures
            r is Ok <==> equation_holds(
                seq![basepoint_scalar.field_value()] + field_values(dynamic_scalars@),
                point_views(dynamic_points@),
            ),
            r is Err ==> r == Err::<(), ZkSchnorrError>(ZkSchnorrError::InvalidSignature),
    {
        let mut verifier = Self::new();
        verifier.append(basepoint_scalar, dynamic_scalars, dynamic_points);
        verifier.result
    }
}

impl BatchVerification for SingleVerifier {
    open spec fn inv(&self) -> bool {
        true
    }

    open spec fn appended(old: Self, new: Self, scalars: Seq<nat>, points: Seq<Seq<u8>>) -> bool {
        new.outcome() == if equation_holds(scalars, points) {
            Ok::<(), ZkSchnorrError>(())
        } else {
            Err::<(), ZkSchnorrError>(ZkSchnorrError::InvalidSignature)
        }
    }

    open spec fn rejected(old: Self, new: Self) -> bool {
        new.outcome() == Err::<(), ZkSchnorrError>(ZkSchnorrError::InvalidSignature)
    }

    fn reject(&mut self) {
        self.result = Err(ZkSchnorrError::InvalidSignature);
    }

    fn append(
        &mut self,
        basepoint_scalar: Scalar,
        dynamic_scalars: Vec<Scalar>,
        dynamic_points: Vec<CompressedPoint>,
    ) {
        let scalars = prepend_scalar(basepoint_scalar, &dynamic_scalars);
        assert(field_values(scalars@) =~= seq![basepoint_scalar.field_value()] + field_values(
            dynamic_scalars@,
        ));
        self.result =
        match multiscalar_mul_is_identity(&scalars, &dynamic_points) {
            Some(true) => Ok(()),
            _ => Err(ZkSchnorrError::InvalidSignature),
        };
    }
}

/// The most signatures whose room `BatchVerifier::with_capacity` reserves up front.
pub const PRESIZED_SIGNATURES: usize = 1048576;

/// Accumulates equations, each under a fresh random weight, and checks them
/// all at once with one multi-scalar multiplication.
pub struct BatchVerifier {
    dyn_weights: Vec<Scalar>,
    dyn_points: Vec<CompressedPoint>,
    rejected: bool,
}

impl BatchVerifier {
    /// The field values of the weighted scalars accumulated so far.
    pub closed spec fn weights(self) -> Seq<nat> {
        field_values(self.dyn_weights@)
    }

    /// The compressed points accumulated so far.
    pub closed spec fn points(self) -> Seq<Seq<u8>> {
        point_views(self.dyn_points@)
    }

    /// Whether the batch was told of an equation that could not be formed.
    pub closed spec fn has_rejected(self) -> bool {
        self.rejected
    }

    /// No equation was rejected and the accumulated equation holds; both are
    /// so for an empty batch.
    pub open spec fn accepts(self) -> bool {
        !self.has_rejected() && equation_holds(self.weights(), self.points())
    }

    /// An empty batch.
    pub fn new() -> (r: Self)
        ensures
            r.inv(),
            r.weights().len() == 0,
            r.points().len() == 0,
            !r.has_rejected(),
            r.accepts(),
    {
        Self::with_capacity(0)
    }

    /// An empty batch with room for the equations of `capacity` signatures,
    /// reserved up front for at most `PRESIZED_SIGNATURES` of them; a larger
    /// batch grows as equations arrive.
    pub fn with_capacity(capacity: usize) -> (r: Self)
        ensures
            r.inv(),
            r.weights().len() == 0,
            r.points().len() == 0,
            !r.has_rejected(),
            r.accepts(),
    {
        let n: usize = if capacity <= PRESIZED_SIGNATURES {
            capacity * 3
        } else {
            PRESIZED_SIGNATURES * 3
        };
        let r = Self {
            dyn_weights: Vec::with_capacity(n),
            dyn_points: Vec::with_capacity(n),
            rejected: false,
        };
        assert(r.weights() =~= Seq::empty());
        assert(r.points() =~= Seq::empty());
        assert(weighted_sum(r.weights(), r.points()) == 0);
        proof {
            crate::scalar::lemma_group_order_gt_one();
        }
        r
    }

    /// Checks all accumulated equations at once: `Ok` exactly when none was
    /// rejected and the accumulated equation holds, `InvalidBatch` otherwise.
    pub fn verify(self) -> (r: Result<(), ZkSchnorrError>)
        requires
            self.inv(),
        ensures
            r is Ok <==> self.accepts(),
            r is Err ==> r == Err::<(), ZkSchnorrError>(ZkSchnorrError::InvalidBatch),
    {
        if self.rejected {
            return Err(ZkSchnorrError::InvalidBatch);
        }
        if self.dyn_weights.len() == 0 && self.dyn_points.len() == 0 {
            assert(self.weights() =~= Seq::empty());
            assert(self.points() =~= Seq::empty());
            assert(weighted_sum(self.weights(), self.points()) == 0);
            proof {
                crate::scalar::lemma_group_order_gt_one();
            }
            assert(self.accepts());
            return Ok(());
        }
        match multiscalar_mul_is_identity(&self.dyn_weights, &self.dyn_points) {
            Some(true) => Ok(()),
            _ => Err(ZkSchnorrError::InvalidBatch),
        }
    }
}

impl BatchVerifier {
    /// Receives an equation under the given weight: every scalar of it is
    /// multiplied by `weight`. The weight must be drawn afresh for each
    /// equation and kept from whoever forms the equations; `append` does so.
    pub fn append_weighted(
        &mut self,
        weight: Scalar,
        basepoint_scalar: Scalar,
        dynamic_scalars: Vec<Scalar>,
        dynamic_points: Vec<CompressedPoint>,
    )
        requires
            old(self).inv(),
            dynamic_points.len() == dynamic_scalars.len() + 1,
        ensures
            final(self).inv(),
            final(self).weights() == old(self).weights() + weighted_by(
                weight.field_value(),
                seq![basepoint_scalar.field_value()] + field_values(dynamic_scalars@),
            ),
            final(self).points() == old(self).points() + point_views(dynamic_points@),
            final(self).has_rejected() == old(self).has_rejected(),
    {
        let ghost l = group_order();
        let ghost wf = weight.field_value();
        let ghost old_w = self.weights();
        let ghost old_p = self.points();
        let ghost scalars = seq![basepoint_scalar.field_value()] + field_values(dynamic_scalars@);
        let scaled = prepend_scalar(basepoint_scalar, &dynamic_scalars);
        assert(scalars =~= field_values(scaled@));
        let mut i: usize = 0;
        while i < scaled.len()
            invariant
                0 <= i <= scaled.len(),
                scaled@ == seq![basepoint_scalar] + dynamic_scalars@,
                scalars == field_values(scaled@),
                l == group_order(),
                wf == weight.field_value(),
                self.has_rejected() == old(self).has_rejected(),
                self.weights() == old_w + weighted_by(wf, scalars.subrange(0, i as int)),
                self.points() == old_p,
            decreases scaled.len() - i,
        {
            let x = scalar_mul(&weight, &scaled[i]);
            let ghost before = self.dyn_weights@;
            self.dyn_weights.push(x);
            proof {
                crate::scalar::lemma_group_order_gt_one();
                let s = scaled@[i as int]@;
                assert(scalars[i as int] == s % l);
                let wi = weight@ as int;
                let li = l as int;
                vstd::arithmetic::div_mod::lemma_mul_mod_noop(wi, s as int, li);
                vstd::arithmetic::div_mod::lemma_mod_twice(wi * s, li);
                assert(x@ == (wi * s) % li);
                assert(x.field_value() == (wi * s) % li);
                assert(x.field_value() == (wf * scalars[i as int]) % l);
                assert(self.dyn_weights@ == before.push(x));
                assert(field_values(self.dyn_weights@) =~= field_values(before).push(x.field_value()));
                assert(weighted_by(wf, scalars.subrange(0, i + 1)) =~= weighted_by(
                    wf,
                    scalars.subrange(0, i as int),
                ).push((wf * scalars[i as int]) % l));
                assert(self.weights() =~= old_w + weighted_by(wf, scalars.subrange(0, i + 1)));
            }
            i = i + 1;
        }
        let mut j: usize = 0;
        while j < dynamic_points.len()
            invariant
                0 <= j <= dynamic_points.len(),
                self.weights() == old_w + weighted_by(wf, scalars),
                self.points() == old_p + point_views(dynamic_points@).subrange(0, j as int),
                self.has_rejected() == old(self).has_rejected(),
            decreases dynamic_points.len() - j,
        {
            let ghost before = self.dyn_points@;
            self.dyn_points.push(dynamic_points[j]);
            assert(self.dyn_points@ == before.push(dynamic_points@[j as int]));
            assert(point_views(self.dyn_points@) =~= point_views(before).push(dynamic_points@[j as int]@));
            assert(self.points() =~= old_p + point_views(dynamic_points@).subrange(0, j + 1));
            j = j + 1;
        }
        assert(scalars.subrange(0, scalars.len() as int) =~= scalars);
        assert(point_views(dynamic_points@).subrange(0, dynamic_points.len() as int) =~= point_views(
            dynamic_points@,
        ));
    }
}

impl BatchVerification for BatchVerifier {
    closed spec fn inv(&self) -> bool {
        self.dyn_weights.len() == self.dyn_points.len()
    }

    open spec fn appended(old: Self, new: Self, scalars: Seq<nat>, points: Seq<Seq<u8>>) -> bool {
        &&& exists|w: nat|
            w < group_order() && new.weights() == old.weights() + #[trigger] weighted_by(w, scalars)
                && new.points() == old.points() + points
        &&& new.has_rejected() == old.has_rejected()
    }

    open spec fn rejected(old: Self, new: Self) -> bool {
        &&& new.has_rejected()
        &&& new.weights() == old.weights()
        &&& new.points() == old.points()
    }

    fn reject(&mut self) {
        self.rejected = true;
    }

    fn append(
        &mut self,
        basepoint_scalar: Scalar,
        dynamic_scalars: Vec<Scalar>,
        dynamic_points: Vec<CompressedPoint>,
    ) {
        // A fresh weight per equation keeps equations that fail from
        // cancelling each other out, except with negligible probability.
        let w = random_scalar();
        self.append_weighted(w, basepoint_scalar, dynamic_scalars, dynamic_points);
        proof {
            crate::scalar::lemma_group_order_gt_one();
            vstd::arithmetic::div_mod::lemma_small_mod(w@, group_order());
        }
    }
}

/// A batch of valid equations verifies: appending an equation that holds,
/// under whatever weight was drawn, to a batch whose accumulated equation holds
/// leaves an accumulated equation that holds. An empty batch holds from the start.
pub proof fn lemma_batch_of_valid_equations(
    before: BatchVerifier,
    after: BatchVerifier,
    scalars: Seq<nat>,
    points: Seq<Seq<u8>>,
)
    requires
        before.accepts(),
        equation_holds(scalars, points),
        BatchVerifier::appended(before, after, scalars, points),
    ensures
        after.accepts(),
{
    let l = group_order() as int;
    crate::scalar::lemma_group_order_gt_one();
    let w = choose|w: nat|
        w < group_order() && after.weights() == before.weights() + #[trigger] weighted_by(w, scalars)
            && after.points() == before.points() + points;
    let ws = weighted_by(w, scalars);
    lemma_weighted_sum_concat(before.weights(), before.points(), ws, points);
    lemma_weighted_sum_scaled(w, scalars, points);
    let a = weighted_sum(before.weights(), before.points());
    let b = weighted_sum(ws, points);
    let s = weighted_sum(scalars, points);
    vstd::arithmetic::div_mod::lemma_mul_mod_noop_right(w as int, s, l);
    assert(w * 0 == 0) by (nonlinear_arith);
    vstd::arithmetic::div_mod::lemma_add_mod_noop(a, b, l);
    assert(all_points(after.points())) by {
        assert forall|i: int| 0 <= i < after.points().len() implies crate::point::is_point(
            #[trigger] after.points()[i],
        ) by {
            if i < before.points().len() {
                assert(after.points()[i] == before.points()[i]);
            } else {
                assert(after.points()[i] == points[i - before.points().len()]);
            }
        }
    }
}

} // verus!
