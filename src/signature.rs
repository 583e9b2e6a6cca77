use crate::batch::{lemma_batch_of_valid_equations, BatchVerification, BatchVerifier, SingleVerifier};
use crate::bytes::{bytes32_at, concat_bytes32};
use crate::errors::ZkSchnorrError;
use crate::key::VerificationKey;
use crate::point::{
    encodes_exactly, equation_holds, is_point, lemma_encodes_exactly, mul_point, point_log,
    point_views, field_values, weighted_sum, CompressedPoint,
};
use crate::scalar::{
    group_order, lemma_div_mod, lemma_mod_congruent, scalar_add, scalar_mul, scalar_neg, Scalar,
};
use crate::transcript::{
    append_message, append_point, challenge_bytes_of, challenge_entry, challenge_scalar,
    dom_sep_label, message_entry, new_transcript, protocol_tag, transcript_log, witness_scalar,
    zkschnorr_domain_sep,
};
use merlin::Transcript;
use vstd::prelude::*;
use vstd::string::StringSliceAdditionalSpecFns;

verus! {

/// A Schnorr signature: the response scalar `s` and the nonce commitment `R`.
#[derive(Clone, Copy, Debug)]
pub struct Signature {
    /// The response, nonce plus challenge times secret.
    pub s: Scalar,
    /// The nonce commitment, nonce times the key's base `g`.
    pub R: CompressedPoint,
}

impl PartialEq for Signature {
    fn eq(&self, other: &Signature) -> (r: bool) {
        self.R == other.R && self.s == other.s
    }
}

impl vstd::std_specs::cmp::PartialEqSpecImpl for Signature {
    open spec fn obeys_eq_spec() -> bool {
        true
    }

    open spec fn eq_spec(&self, other: &Signature) -> bool {
        self.R == other.R && self.s == other.s
    }
}

impl Eq for Signature {
}

/// One entry of a transcript's log.
pub type LogEntry = (bool, Seq<u8>, Seq<u8>);

/// The transcript's log when the challenge is drawn: `log`, then the domain
/// tag, `g`, `h` and `R`.
pub open spec fn challenge_log(log: Seq<LogEntry>, key: VerificationKey, R: Seq<u8>) -> Seq<LogEntry> {
    log.push(message_entry(dom_sep_label(), protocol_tag())).push(
        message_entry("G".spec_bytes(), key.g@),
    ).push(message_entry("H".spec_bytes(), key.h@)).push(message_entry("R".spec_bytes(), R))
}

/// The challenge of a signature with commitment `R` under `key`, over a
/// transcript whose log was `log`.
pub open spec fn challenge(log: Seq<LogEntry>, key: VerificationKey, R: Seq<u8>) -> nat {
    crate::scalar::le_value(
        challenge_bytes_of(challenge_log(log, key, R), "challenge".spec_bytes()),
    ) % group_order()
}

/// The transcript's log after the challenge is drawn.
pub open spec fn log_after_challenge(log: Seq<LogEntry>, key: VerificationKey, R: Seq<u8>) -> Seq<
    LogEntry,
> {
    challenge_log(log, key, R).push(challenge_entry("challenge".spec_bytes()))
}

/// The log of the transcript that the message API builds.
pub open spec fn message_log(label: Seq<u8>, message: Seq<u8>) -> Seq<LogEntry> {
    seq![
        message_entry(dom_sep_label(), "zkschnorr.sign_message".spec_bytes()),
        message_entry(label, message),
    ]
}

impl Signature {
    /// The 64-byte encoding: `s`, then `R`.
    pub open spec fn encoding(self) -> Seq<u8> {
        self.s.bytes@ + self.R@
    }

    /// The scalars of the verification equation `(-s)·g + 1·R + c·h = 0`.
    pub open spec fn equation_scalars(self, log: Seq<LogEntry>, key: VerificationKey) -> Seq<nat> {
        seq![
            (group_order() - self.s.field_value()) as nat % group_order(),
            1,
            challenge(log, key, self.R@),
        ]
    }

    /// The points of the verification equation: `g`, `R`, `h`.
    pub open spec fn equation_points(self, key: VerificationKey) -> Seq<Seq<u8>> {
        seq![key.g@, self.R@, key.h@]
    }

    /// The signature verifies under `key` over a transcript whose log is `log`:
    /// `s` is reduced, the three points decompress and `s·g = R + c·h`.
    pub open spec fn verifies(self, log: Seq<LogEntry>, key: VerificationKey) -> bool {
        &&& self.s.canonical()
        &&& equation_holds(self.equation_scalars(log, key), self.equation_points(key))
    }

    /// The signature is the one that secret `x` and nonce `k` give under `key`
    /// over a transcript whose log was `log`: `R = k·g` and `s = k + c·x`, reduced.
    pub open spec fn signed_with(self, log: Seq<LogEntry>, key: VerificationKey, x: Scalar, k: nat) -> bool {
        &&& self.s.canonical()
        &&& encodes_exactly(self.R@, (k * point_log(key.g@)) % group_order())
        &&& self.s.field_value() == (k + challenge(log, key, self.R@) * x.field_value()) % group_order()
    }

    /// Signs with a given nonce: `R = nonce·g`, the domain tag, `g`, `h` and `R`
    /// are absorbed, the challenge `c` is drawn, and `s = nonce + c·privkey`.
    /// A nonce must never serve twice; `sign` draws a fresh one.
    pub fn sign_with_nonce(
        transcript: &mut Transcript,
        pubkey: VerificationKey,
        privkey: Scalar,
        nonce: Scalar,
    ) -> (sig: Signature)
        requires
            is_point(pubkey.g@),
        ensures
            sig.signed_with(transcript_log(*old(transcript)), pubkey, privkey, nonce.field_value()),
            transcript_log(*final(transcript)) == log_after_challenge(
                transcript_log(*old(transcript)),
                pubkey,
                sig.R@,
            ),
    {
        let ghost log = transcript_log(*transcript);
        let R = mul_point(&nonce, &pubkey.g).unwrap();
        zkschnorr_domain_sep(transcript);
        append_point(transcript, "G".as_bytes(), &pubkey.g);
        append_point(transcript, "H".as_bytes(), &pubkey.h);
        append_point(transcript, "R".as_bytes(), &R);
        let c = challenge_scalar(transcript, "challenge".as_bytes());
        let cx = scalar_mul(&c, &privkey);
        let s = scalar_add(&nonce, &cx);
        proof {
            let l = group_order() as int;
            crate::scalar::lemma_group_order_gt_one();
            assert(c@ == challenge(log, pubkey, R@));
            let ci = c@ as int;
            let xi = privkey@ as int;
            let ki = nonce@ as int;
            let a = ki + (ci * xi) % l;
            let b = ki % l + ci * (xi % l);
            lemma_div_mod(ki, l);
            lemma_div_mod(xi, l);
            lemma_div_mod(ci * xi, l);
            assert(a == b + l * (ki / l + ci * (xi / l) - (ci * xi) / l)) by (nonlinear_arith)
                requires
                    ki == l * (ki / l) + ki % l,
                    xi == l * (xi / l) + xi % l,
                    ci * xi == l * ((ci * xi) / l) + (ci * xi) % l,
                    a == ki + (ci * xi) % l,
                    b == ki % l + ci * (xi % l),
            ;
            lemma_mod_congruent(a, b, l, ki / l + ci * (xi / l) - (ci * xi) / l);
            vstd::arithmetic::div_mod::lemma_mod_twice(a, l);
            vstd::arithmetic::div_mod::lemma_small_mod(s@, group_order());
        }
        Signature { s, R }
    }

    /// Signs: draws a nonce from the transcript, the secret and fresh
    /// randomness, then signs with it.
    pub fn sign(transcript: &mut Transcript, pubkey: VerificationKey, privkey: Scalar) -> (sig:
        Signature)
        requires
            is_point(pubkey.g@),
        ensures
            exists|k: nat|
                k < group_order() && #[trigger] sig.signed_with(
                    transcript_log(*old(transcript)),
                    pubkey,
                    privkey,
                    k,
                ),
            transcript_log(*final(transcript)) == log_after_challenge(
                transcript_log(*old(transcript)),
                pubkey,
                sig.R@,
            ),
    {
        let nonce = witness_scalar(transcript, "x".as_bytes(), &privkey);
        let sig = Self::sign_with_nonce(transcript, pubkey, privkey, nonce);
        proof {
            crate::scalar::lemma_group_order_gt_one();
            vstd::arithmetic::div_mod::lemma_small_mod(nonce@, group_order());
        }
        sig
    }

    /// Verifies against `pubkey` over a transcript in the state it had when
    /// the signature was made: `Ok` exactly when the signature verifies,
    /// `InvalidSignature` otherwise.
    pub fn verify(&self, transcript: &mut Transcript, pubkey: VerificationKey) -> (r: Result<
        (),
        ZkSchnorrError,
    >)
        ensures
            r is Ok <==> self.verifies(transcript_log(*old(transcript)), pubkey),
            r is Err ==> r == Err::<(), ZkSchnorrError>(ZkSchnorrError::InvalidSignature),
            transcript_log(*final(transcript)) == log_after_challenge(
                transcript_log(*old(transcript)),
                pubkey,
                self.R@,
            ),
    {
        let mut verifier = SingleVerifier::new();
        self.verify_batched(transcript, pubkey, &mut verifier);
        verifier.result()
    }

    /// Hands the verification equation of this signature to `batch`, over a
    /// transcript in the state it had when the signature was made; a response
    /// `s` that is not reduced is rejected instead.
    pub fn verify_batched<B: BatchVerification>(
        &self,
        transcript: &mut Transcript,
        pubkey: VerificationKey,
        batch: &mut B,
    )
        requires
            old(batch).inv(),
        ensures
            final(batch).inv(),
            self.s.canonical() ==> B::appended(
                *old(batch),
                *final(batch),
                self.equation_scalars(transcript_log(*old(transcript)), pubkey),
                self.equation_points(pubkey),
            ),
            !self.s.canonical() ==> B::rejected(*old(batch), *final(batch)),
            transcript_log(*final(transcript)) == log_after_challenge(
                transcript_log(*old(transcript)),
                pubkey,
                self.R@,
            ),
    {
        let ghost log = transcript_log(*transcript);
        zkschnorr_domain_sep(transcript);
        append_point(transcript, "G".as_bytes(), &pubkey.g);
        append_point(transcript, "H".as_bytes(), &pubkey.h);
        append_point(transcript, "R".as_bytes(), &self.R);
        let c = challenge_scalar(transcript, "challenge".as_bytes());
        if !self.s.is_canonical() {
            batch.reject();
            return;
        }
        let neg_s = scalar_neg(&self.s);
        let mut scalars: Vec<Scalar> = Vec::new();
        scalars.push(Scalar::one());
        scalars.push(c);
        let mut points: Vec<CompressedPoint> = Vec::new();
        points.push(pubkey.g);
        points.push(self.R);
        points.push(pubkey.h);
        proof {
            let l = group_order();
            crate::scalar::lemma_group_order_gt_one();
            vstd::arithmetic::div_mod::lemma_small_mod(1, l);
            vstd::arithmetic::div_mod::lemma_mod_twice(
                (l - self.s@ % l) as int,
                l as int,
            );
            vstd::arithmetic::div_mod::lemma_small_mod(c@, l);
            assert(seq![neg_s.field_value()] + field_values(scalars@) =~= self.equation_scalars(
                log,
                pubkey,
            ));
            assert(point_views(points@) =~= self.equation_points(pubkey));
        }
        batch.append(neg_s, scalars, points);
    }
}

// Message-oriented API and encoding.
impl Signature {
    /// Signs `message`, absorbed under `label` into a fresh transcript tagged
    /// `zkschnorr.sign_message`.
    pub fn sign_message(
        label: &'static [u8],
        message: &[u8],
        pubkey: VerificationKey,
        privkey: Scalar,
    ) -> (sig: Signature)
        requires
            is_point(pubkey.g@),
            message@.len() <= u32::MAX,
        ensures
            exists|k: nat|
                k < group_order() && #[trigger] sig.signed_with(
                    message_log(label@, message@),
                    pubkey,
                    privkey,
                    k,
                ),
    {
        let mut t = Self::transcript_for_message(label, message);
        Self::sign(&mut t, pubkey, privkey)
    }

    /// Signs when the key's base decompresses, as signing needs; `None`, with
    /// the transcript untouched, otherwise.
    pub fn try_sign(transcript: &mut Transcript, pubkey: VerificationKey, privkey: Scalar) -> (r:
        Option<Signature>)
        ensures
            r is Some <==> is_point(pubkey.g@),
            r is Some ==> exists|k: nat|
                k < group_order() && #[trigger] r->Some_0.signed_with(
                    transcript_log(*old(transcript)),
                    pubkey,
                    privkey,
                    k,
                ),
            r is Some ==> transcript_log(*final(transcript)) == log_after_challenge(
                transcript_log(*old(transcript)),
                pubkey,
                r->Some_0.R@,
            ),
            r is None ==> *final(transcript) == *old(transcript),
    {
        let probe = mul_point(&Scalar::one(), &pubkey.g);
        if let None = probe {
            return None;
        }
        let sig = Self::sign(transcript, pubkey, privkey);
        let r = Some(sig);
        assert(r->Some_0 == sig);
        r
    }

    /// Signs a message when the key's base decompresses and the message fits a
    /// transcript (at most `u32::MAX` bytes); `None` otherwise.
    pub fn try_sign_message(
        label: &'static [u8],
        message: &[u8],
        pubkey: VerificationKey,
        privkey: Scalar,
    ) -> (r: Option<Signature>)
        ensures
            r is Some <==> is_point(pubkey.g@) && message@.len() <= u32::MAX,
            r is Some ==> exists|k: nat|
                k < group_order() && #[trigger] r->Some_0.signed_with(
                    message_log(label@, message@),
                    pubkey,
                    privkey,
                    k,
                ),
    {
        if message.len() > 4294967295 {
            return None;
        }
        let probe = mul_point(&Scalar::one(), &pubkey.g);
        if let None = probe {
            return None;
        }
        let sig = Self::sign_message(label, message, pubkey, privkey);
        let r = Some(sig);
        assert(r->Some_0 == sig);
        r
    }

    /// Verifies a signature made by `sign_message` on `message` under `label`.
    pub fn verify_message(&self, label: &'static [u8], message: &[u8], pubkey: VerificationKey) -> (r:
        Result<(), ZkSchnorrError>)
        requires
            message@.len() <= u32::MAX,
        ensures
            r is Ok <==> self.verifies(message_log(label@, message@), pubkey),
            r is Err ==> r == Err::<(), ZkSchnorrError>(ZkSchnorrError::InvalidSignature),
    {
        let mut t = Self::transcript_for_message(label, message);
        self.verify(&mut t, pubkey)
    }

    fn transcript_for_message(label: &'static [u8], message: &[u8]) -> (t: Transcript)
        requires
            message@.len() <= u32::MAX,
        ensures
            transcript_log(t) == message_log(label@, message@),
    {
        let tag = "zkschnorr.sign_message";
        proof {
            reveal_strlit("zkschnorr.sign_message");
            vstd::string::is_ascii_spec_bytes(tag);
        }
        let mut t = new_transcript(tag.as_bytes());
        append_message(&mut t, label, message);
        assert(transcript_log(t) =~= message_log(label@, message@));
        t
    }

    /// The 64-byte encoding, `s` then `R`.
    pub fn to_bytes(&self) -> (r: [u8; 64])
        ensures
            r@ == self.encoding(),
    {
        concat_bytes32(&self.s.bytes, &self.R.bytes)
    }

    /// Decodes a signature from its 64-byte encoding. Neither half is checked
    /// here: a scalar or point that is not valid makes verification fail.
    pub fn from_bytes(bytes: &[u8]) -> (r: Result<Signature, ZkSchnorrError>)
        ensures
            r is Ok <==> bytes@.len() == 64,
            r is Ok ==> r->Ok_0.encoding() == bytes@,
            r is Err ==> r == Err::<Signature, ZkSchnorrError>(ZkSchnorrError::InvalidLength),
    {
        if bytes.len() != 64 {
            return Err(ZkSchnorrError::InvalidLength);
        }
        let s = bytes32_at(bytes, 0);
        let R = bytes32_at(bytes, 32);
        let sig = Signature { s: Scalar { bytes: s }, R: CompressedPoint { bytes: R } };
        assert(sig.encoding() =~= bytes@);
        Ok(sig)
    }

    /// The encoding in lower-case hexadecimal, two digits per byte.
    pub fn to_hex(&self) -> (r: String)
        ensures
            r@ == hex_chars(self.encoding()),
    {
        let bytes = self.to_bytes();
        hex_encode(bytes.as_slice())
    }
}

/// The lower-case hexadecimal digit of `n`, below 16.
pub open spec fn hex_digit(n: u8) -> char {
    seq!['0', '1', '2', '3', '4', '5', '6', '7', '8', '9', 'a', 'b', 'c', 'd', 'e', 'f'][n as int]
}

/// Two lower-case hexadecimal digits per byte, the high one first.
pub open spec fn hex_chars(b: Seq<u8>) -> Seq<char>
    decreases b.len(),
{
    if b.len() == 0 {
        Seq::empty()
    } else {
        seq![hex_digit(b[0] / 16), hex_digit(b[0] % 16)] + hex_chars(b.subrange(1, b.len() as int))
    }
}

/// Relies on `hex::encode`: two lower-case digits per byte, the high one first.
#[verifier::external_body]
fn hex_encode(b: &[u8]) -> (r: String)
    ensures
        r@ == hex_chars(b@),
{
    hex::encode(b)
}

/// A signature is determined by its encoding, so decoding the encoding of
/// `sig` gives `sig` back.
pub proof fn lemma_signature_round_trip(sig: Signature, d: Signature)
    requires
        d.encoding() == sig.encoding(),
    ensures
        d == sig,
{
    assert(d.s.bytes@ =~= d.encoding().subrange(0, 32));
    assert(sig.s.bytes@ =~= sig.encoding().subrange(0, 32));
    assert(d.R@ =~= d.encoding().subrange(32, 64));
    assert(sig.R@ =~= sig.encoding().subrange(32, 64));
    vstd::array::axiom_array_ext_equal(d.s.bytes, sig.s.bytes);
    vstd::array::axiom_array_ext_equal(d.R.bytes, sig.R.bytes);
}

/// What the verification equation of `sig` comes to when it was made with
/// secret `x` and nonce `k` under a key made from `x` and `r`, over `log`, and
/// is checked under a key made from `x2` and the same `r`, over `log2`.
proof fn lemma_equation_residue(
    sig: Signature,
    log: Seq<LogEntry>,
    key: VerificationKey,
    x: Scalar,
    r: Scalar,
    k: nat,
    log2: Seq<LogEntry>,
    key2: VerificationKey,
    x2: Scalar,
)
    requires
        key.made_from(x, r),
        key2.made_from(x2, r),
        sig.signed_with(log, key, x, k),
    ensures
        sig.verifies(log2, key2) <==> ((challenge(log2, key2, sig.R@) * x2.field_value() - challenge(
            log,
            key,
            sig.R@,
        ) * x.field_value()) * r.field_value()) % (group_order() as int) == 0,
{
    let l = group_order() as int;
    crate::scalar::lemma_group_order_gt_one();
    let ri = r.field_value() as int;
    let xi = x.field_value() as int;
    let x2i = x2.field_value() as int;
    let ki = k as int;
    let c = challenge(log, key, sig.R@) as int;
    let c2 = challenge(log2, key2, sig.R@) as int;
    let si = sig.s.field_value() as int;
    lemma_encodes_exactly(key.g@, r.field_value());
    lemma_encodes_exactly(key2.g@, r.field_value());
    lemma_encodes_exactly(key2.h@, (x2.field_value() * r.field_value()) % group_order());
    lemma_encodes_exactly(sig.R@, (k * point_log(key.g@)) % group_order());
    let sc = sig.equation_scalars(log2, key2);
    let pts = sig.equation_points(key2);
    assert(crate::point::all_points(pts));
    let n0 = sc[0] as int;
    reveal_with_fuel(weighted_sum, 4);
    assert(sc.drop_last().drop_last().drop_last() =~= Seq::<nat>::empty());
    assert(pts.drop_last().drop_last().drop_last() =~= Seq::<Seq<u8>>::empty());
    assert(weighted_sum(sc.drop_last().drop_last(), pts.drop_last().drop_last()) == n0 * ri);
    assert(weighted_sum(sc.drop_last(), pts.drop_last()) == n0 * ri + 1 * ((ki * ri) % l));
    let e = weighted_sum(sc, pts);
    assert(e == n0 * ri + 1 * ((ki * ri) % l) + c2 * ((x2i * ri) % l));
    let t = (c2 * x2i - c * xi) * ri;
    assert(si == (ki + c * xi) % l);
    assert(n0 == (l - si) % l);
    lemma_div_mod(l - si, l);
    lemma_div_mod(ki + c * xi, l);
    lemma_div_mod(ki * ri, l);
    lemma_div_mod(x2i * ri, l);
    let q0 = (l - si) / l;
    let q1 = (ki + c * xi) / l;
    let q2 = (ki * ri) / l;
    let q3 = (x2i * ri) / l;
    let m2 = (ki * ri) % l;
    let m3 = (x2i * ri) % l;
    // n0 = l - si - l·q0, si = ki + c·xi - l·q1, m2 = ki·ri - l·q2, m3 = x2i·ri - l·q3
    assert(n0 * ri == (l - si - l * q0) * ri);
    assert((l - si - l * q0) * ri == l * ri - si * ri - l * q0 * ri) by (nonlinear_arith);
    assert(si * ri == (ki + c * xi - l * q1) * ri);
    assert((ki + c * xi - l * q1) * ri == ki * ri + c * xi * ri - l * q1 * ri) by (nonlinear_arith);
    assert(c2 * m3 == c2 * (x2i * ri - l * q3));
    assert(c2 * (x2i * ri - l * q3) == c2 * x2i * ri - l * (c2 * q3)) by (nonlinear_arith);
    assert(t == c2 * x2i * ri - c * xi * ri) by (nonlinear_arith)
        requires
            t == (c2 * x2i - c * xi) * ri,
    ;
    assert(l * (ri + q1 * ri - q0 * ri - q2 - c2 * q3) == l * ri + l * q1 * ri - l * q0 * ri - l
        * q2 - l * (c2 * q3)) by (nonlinear_arith);
    assert(e == t + l * (ri + q1 * ri - q0 * ri - q2 - c2 * q3));
    lemma_mod_congruent(e, t, l, ri + q1 * ri - q0 * ri - q2 - c2 * q3);
}

/// A signature made with secret `x` under the key made from `x` and `r`
/// verifies under that key over the same transcript, whatever the nonce.
pub proof fn lemma_sign_then_verify(
    sig: Signature,
    log: Seq<LogEntry>,
    key: VerificationKey,
    x: Scalar,
    r: Scalar,
    k: nat,
)
    requires
        key.made_from(x, r),
        sig.signed_with(log, key, x, k),
    ensures
        sig.verifies(log, key),
{
    lemma_equation_residue(sig, log, key, x, r, k, log, key, x);
    let c = challenge(log, key, sig.R@) as int;
    let xi = x.field_value() as int;
    assert((c * xi - c * xi) * r.field_value() == 0) by (nonlinear_arith);
}

/// Two signatures of the same transcript with the same secret and key, made
/// with two nonces, both verify.
pub proof fn lemma_two_nonces_both_verify(
    sig1: Signature,
    sig2: Signature,
    log: Seq<LogEntry>,
    key: VerificationKey,
    x: Scalar,
    r: Scalar,
    k1: nat,
    k2: nat,
)
    requires
        key.made_from(x, r),
        sig1.signed_with(log, key, x, k1),
        sig2.signed_with(log, key, x, k2),
    ensures
        sig1.verifies(log, key),
        sig2.verifies(log, key),
{
    lemma_sign_then_verify(sig1, log, key, x, r, k1);
    lemma_sign_then_verify(sig2, log, key, x, r, k2);
}

/// A signature made with secret `x` verifies under the key made from another
/// secret `x2` and the same `r` exactly when `(c2·x2 - c·x)·r` is a multiple
/// of the group order, `c` and `c2` the challenges under the two keys.
pub proof fn lemma_key_mismatch(
    sig: Signature,
    log: Seq<LogEntry>,
    key: VerificationKey,
    x: Scalar,
    r: Scalar,
    k: nat,
    key2: VerificationKey,
    x2: Scalar,
)
    requires
        key.made_from(x, r),
        key2.made_from(x2, r),
        sig.signed_with(log, key, x, k),
    ensures
        sig.verifies(log, key2) <==> ((challenge(log, key2, sig.R@) * x2.field_value() - challenge(
            log,
            key,
            sig.R@,
        ) * x.field_value()) * r.field_value()) % (group_order() as int) == 0,
{
    lemma_equation_residue(sig, log, key, x, r, k, log, key2, x2);
}

/// A signature made over a transcript with log `log` verifies over one with
/// log `log2` exactly when `(c2 - c)·x·r` is a multiple of the group order,
/// `c` and `c2` the challenges drawn after the two logs.
pub proof fn lemma_transcript_mismatch(
    sig: Signature,
    log: Seq<LogEntry>,
    key: VerificationKey,
    x: Scalar,
    r: Scalar,
    k: nat,
    log2: Seq<LogEntry>,
)
    requires
        key.made_from(x, r),
        sig.signed_with(log, key, x, k),
    ensures
        sig.verifies(log2, key) <==> ((challenge(log2, key, sig.R@) - challenge(log, key, sig.R@))
            * x.field_value() * r.field_value()) % (group_order() as int) == 0,
{
    lemma_equation_residue(sig, log, key, x, r, k, log2, key, x);
    let c = challenge(log, key, sig.R@) as int;
    let c2 = challenge(log2, key, sig.R@) as int;
    let xi = x.field_value() as int;
    let ri = r.field_value() as int;
    assert((c2 * xi - c * xi) * ri == (c2 - c) * xi * ri) by (nonlinear_arith);
}

/// A batch of valid signatures verifies: handing a signature that verifies to
/// a batch whose accumulated equation holds, as `verify_batched` does, keeps
/// the accumulated equation holding.
pub proof fn lemma_batch_of_valid_signatures(
    sig: Signature,
    log: Seq<LogEntry>,
    key: VerificationKey,
    before: BatchVerifier,
    after: BatchVerifier,
)
    requires
        before.accepts(),
        sig.verifies(log, key),
        BatchVerifier::appended(before, after, sig.equation_scalars(log, key), sig.equation_points(key)),
    ensures
        after.accepts(),
{
    lemma_batch_of_valid_equations(
        before,
        after,
        sig.equation_scalars(log, key),
        sig.equation_points(key),
    );
}

/// A signature that `sign_message` made on a message under a label, with the
/// secret of a key made from that secret, verifies with `verify_message` on
/// the same label and message under that key.
pub proof fn lemma_sign_message_then_verify(
    sig: Signature,
    label: Seq<u8>,
    message: Seq<u8>,
    key: VerificationKey,
    x: Scalar,
    r: Scalar,
)
    requires
        key.made_from(x, r),
        exists|k: nat|
            k < group_order() && #[trigger] sig.signed_with(message_log(label, message), key, x, k),
    ensures
        sig.verifies(message_log(label, message), key),
{
    let k = choose|k: nat|
        k < group_order() && #[trigger] sig.signed_with(message_log(label, message), key, x, k);
    lemma_sign_then_verify(sig, message_log(label, message), key, x, r, k);
}

/// A batch that starts out accepting and then receives, one after another,
/// the equations of signatures that each verify, accepts: `states[i + 1]` is
/// the batch after `verify_batched` handed it the equation of `sigs[i]`.
pub proof fn lemma_batch_of_valid_signature_sequence(
    sigs: Seq<Signature>,
    logs: Seq<Seq<LogEntry>>,
    keys: Seq<VerificationKey>,
    states: Seq<BatchVerifier>,
)
    requires
        logs.len() == sigs.len(),
        keys.len() == sigs.len(),
        states.len() == sigs.len() + 1,
        states[0].accepts(),
        forall|i: int| 0 <= i < sigs.len() ==> #[trigger] sigs[i].verifies(logs[i], keys[i]),
        forall|i: int|
            0 <= i < sigs.len() ==> BatchVerifier::appended(
                states[i],
                states[i + 1],
                (#[trigger] sigs[i]).equation_scalars(logs[i], keys[i]),
                sigs[i].equation_points(keys[i]),
            ),
    ensures
        states.last().accepts(),
    decreases sigs.len(),
{
    if sigs.len() > 0 {
        let n = sigs.len() - 1;
        lemma_batch_of_valid_signature_sequence(
            sigs.drop_last(),
            logs.drop_last(),
            keys.drop_last(),
            states.drop_last(),
        );
        assert(sigs[n] == sigs.last());
        lemma_batch_of_valid_signatures(sigs[n], logs[n], keys[n], states[n], states[n + 1]);
    }
}

} // verus!
