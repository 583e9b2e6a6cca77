use crate::point::CompressedPoint;
use crate::scalar::{group_order, le_value, scalar_from_wide, Scalar};
use curve25519_dalek::scalar::Scalar as DalekScalar;
use merlin::Transcript;
use vstd::prelude::*;
use vstd::string::StringSliceAdditionalSpecFns;

verus! {

#[verifier::external_type_specification]
#[verifier::external_body]
pub struct ExTranscript(merlin::Transcript);

/// What a transcript has absorbed, in order: `(false, label, message)` for a
/// message, and `(true, label, empty)` for 64 challenge bytes drawn under a label.
pub uninterp spec fn transcript_log(t: Transcript) -> Seq<(bool, Seq<u8>, Seq<u8>)>;

/// The 64 bytes that `Transcript::challenge_bytes` draws under `label` from a
/// transcript whose log is `log`.
pub uninterp spec fn challenge_bytes_of(log: Seq<(bool, Seq<u8>, Seq<u8>)>, label: Seq<u8>) -> Seq<
    u8,
>;

/// The log entry of a message absorbed under a label.
pub open spec fn message_entry(label: Seq<u8>, message: Seq<u8>) -> (bool, Seq<u8>, Seq<u8>) {
    (false, label, message)
}

/// The log entry of 64 challenge bytes drawn under a label.
pub open spec fn challenge_entry(label: Seq<u8>) -> (bool, Seq<u8>, Seq<u8>) {
    (true, label, Seq::empty())
}

/// The label under which a protocol's domain tag is absorbed.
pub open spec fn dom_sep_label() -> Seq<u8> {
    "dom-sep".spec_bytes()
}

/// The domain tag of this signature scheme.
pub open spec fn protocol_tag() -> Seq<u8> {
    "zkschnorr v1".spec_bytes()
}

/// Relies on `merlin::Transcript::new`, which absorbs `label` under the label
/// `dom-sep`, as `append_message` does, and so panics on a label longer than
/// `u32::MAX` bytes.
#[verifier::external_body]
pub(crate) fn new_transcript(label: &'static [u8]) -> (r: Transcript)
    requires
        label@.len() <= u32::MAX,
    ensures
        transcript_log(r) == seq![message_entry(dom_sep_label(), label@)],
{
    Transcript::new(label)
}

/// Relies on `merlin::Transcript::append_message`, which panics on a message
/// longer than `u32::MAX` bytes.
#[verifier::external_body]
pub(crate) fn append_message(t: &mut Transcript, label: &'static [u8], message: &[u8])
    requires
        message@.len() <= u32::MAX,
    ensures
        transcript_log(*final(t)) == transcript_log(*old(t)).push(message_entry(label@, message@)),
{
    t.append_message(label, message)
}

/// Relies on `merlin::Transcript::challenge_bytes`, filling 64 bytes.
#[verifier::external_body]
pub(crate) fn challenge_bytes(t: &mut Transcript, label: &'static [u8]) -> (r: [u8; 64])
    ensures
        r@ == challenge_bytes_of(transcript_log(*old(t)), label@),
        transcript_log(*final(t)) == transcript_log(*old(t)).push(challenge_entry(label@)),
{
    let mut buf = [0u8; 64];
    t.challenge_bytes(label, &mut buf);
    buf
}

/// Relies on merlin's `Transcript::build_rng`, `rekey_with_witness_bytes` and
/// `finalize` with `rand::thread_rng`, and on `Scalar::random` of
/// curve25519-dalek: a reduced scalar, of which nothing else is known. The
/// transcript is only read.
#[verifier::external_body]
pub(crate) fn witness_scalar(t: &Transcript, label: &'static [u8], witness: &Scalar) -> (r: Scalar)
    ensures
        r.canonical(),
{
    let mut rng = t.build_rng().rekey_with_witness_bytes(label, &witness.bytes).finalize(
        &mut rand::thread_rng(),
    );
    Scalar { bytes: DalekScalar::random(&mut rng).to_bytes() }
}

/// Absorbs the compressed encoding of a point under `label`.
pub fn append_point(t: &mut Transcript, label: &'static [u8], p: &CompressedPoint)
    ensures
        transcript_log(*final(t)) == transcript_log(*old(t)).push(message_entry(label@, p@)),
{
    append_message(t, label, p.bytes.as_slice());
}

/// Absorbs the domain tag of this signature scheme.
pub fn zkschnorr_domain_sep(t: &mut Transcript)
    ensures
        transcript_log(*final(t)) == transcript_log(*old(t)).push(
            message_entry(dom_sep_label(), protocol_tag()),
        ),
{
    let tag = "zkschnorr v1";
    proof {
        reveal_strlit("zkschnorr v1");
        vstd::string::is_ascii_spec_bytes(tag);
    }
    append_message(t, "dom-sep".as_bytes(), tag.as_bytes());
}

/// Draws a challenge scalar: 64 challenge bytes reduced modulo the group order.
pub fn challenge_scalar(t: &mut Transcript, label: &'static [u8]) -> (r: Scalar)
    ensures
        r@ == le_value(challenge_bytes_of(transcript_log(*old(t)), label@)) % group_order(),
        r.canonical(),
        transcript_log(*final(t)) == transcript_log(*old(t)).push(challenge_entry(label@)),
{
    let buf = challenge_bytes(t, label);
    let r = scalar_from_wide(&buf);
    proof {
        crate::scalar::lemma_group_order_gt_one();
    }
    r
}

} // verus!
