//! The Fiat-Shamir transcript of a constraint system.
//!
//! The transcript is a `merlin::Transcript`. What it holds is named by
//! [`transcript_state`], and what its two operations compute is named by
//! [`state_after_append`] and [`challenge_step`]: the functions at the end
//! of this file, which make the calls, are taken on trust. The messages
//! that a constraint system appends, and the scalars that it draws, are
//! stated over those names.

use crate::generators::CompressedRistretto;
use crate::scalar::group_order;
use crate::scalar::le_value;
use crate::scalar::Scalar;
use vstd::bytes::spec_u64_to_le_bytes;
use vstd::bytes::u64_to_le_bytes;
use vstd::prelude::*;
use vstd::string::StringSliceAdditionalSpecFns;

verus! {

/// The transcript of `merlin`, as a value that is only carried through.
#[verifier::external_type_specification]
#[verifier::external_body]
pub struct ExTranscript(merlin::Transcript);

/// What a transcript holds: the bytes of its sponge and the position in it.
/// The two operations below read and change nothing else.
pub uninterp spec fn transcript_state(transcript: merlin::Transcript) -> Seq<u8>;

/// What a transcript holds after `message` was appended under `label`, by
/// `Transcript::append_message` of `merlin`.
pub uninterp spec fn state_after_append(state: Seq<u8>, label: Seq<u8>, message: Seq<u8>) -> Seq<
    u8,
>;

/// The `len` challenge bytes that a transcript gives under `label`, by
/// `Transcript::challenge_bytes` of `merlin`, and what it holds after that.
pub uninterp spec fn challenge_step(state: Seq<u8>, label: Seq<u8>, len: nat) -> (
    Seq<u8>,
    Seq<u8>,
);

/// What a transcript holds after the domain separator of a constraint
/// system with `m` committed wires.
pub open spec fn state_after_domain_sep(state: Seq<u8>, m: u64) -> Seq<u8> {
    state_after_append(
        state_after_append(state, "dom-sep".spec_bytes(), "r1cs v1".spec_bytes()),
        "m".spec_bytes(),
        spec_u64_to_le_bytes(m),
    )
}

/// What a transcript holds after the encodings `points` were appended, one
/// after the other, under the label `V`.
pub open spec fn state_after_points(state: Seq<u8>, points: Seq<Seq<u8>>) -> Seq<u8>
    decreases points.len(),
{
    if points.len() == 0 {
        state
    } else {
        state_after_append(
            state_after_points(state, points.drop_last()),
            "V".spec_bytes(),
            points.last(),
        )
    }
}

/// What the transcript of a constraint system holds once the system is
/// created over the commitments `points`.
pub open spec fn state_after_commitments(state: Seq<u8>, points: Seq<Seq<u8>>) -> Seq<u8> {
    state_after_points(state_after_domain_sep(state, points.len() as u64), points)
}

/// The challenge scalar that a transcript gives under `label`.
pub open spec fn challenge_scalar_of(state: Seq<u8>, label: Seq<u8>) -> nat {
    le_value(challenge_step(state, label, 64).0) % group_order()
}

/// What a transcript holds after it gave a challenge scalar under `label`.
pub open spec fn state_after_challenge(state: Seq<u8>, label: Seq<u8>) -> Seq<u8> {
    challenge_step(state, label, 64).1
}

/// Appends the domain separator of a constraint system with `m` committed
/// wires.
pub fn r1cs_domain_sep(transcript: &mut merlin::Transcript, m: u64)
    ensures
        transcript_state(*final(transcript)) == state_after_domain_sep(
            transcript_state(*old(transcript)),
            m,
        ),
{
    proof {
        reveal_strlit("r1cs v1");
        vstd::string::is_ascii_spec_bytes("r1cs v1");
    }
    append_message(transcript, "dom-sep".as_bytes(), "r1cs v1".as_bytes());
    let encoded = u64_to_le_bytes(m);
    proof {
        vstd::bytes::lemma_auto_spec_u64_to_from_le_bytes();
    }
    append_message(transcript, "m".as_bytes(), encoded.as_slice());
}

/// Appends the encoding of a group element under the label `V`.
pub fn commit_point(transcript: &mut merlin::Transcript, point: &CompressedRistretto)
    ensures
        transcript_state(*final(transcript)) == state_after_append(
            transcript_state(*old(transcript)),
            "V".spec_bytes(),
            point@,
        ),
{
    append_message(transcript, "V".as_bytes(), point.0.as_slice());
}

/// Draws a challenge scalar under `label`: 64 challenge bytes, reduced
/// modulo the group order.
pub fn challenge_scalar(transcript: &mut merlin::Transcript, label: &'static [u8]) -> (r: Scalar)
    ensures
        r@ == challenge_scalar_of(transcript_state(*old(transcript)), label@),
        transcript_state(*final(transcript)) == state_after_challenge(
            transcript_state(*old(transcript)),
            label@,
        ),
{
    let bytes = challenge_bytes(transcript, label);
    Scalar::from_bytes_mod_order_wide(&bytes)
}

/// `Transcript::append_message` of `merlin`: what the transcript holds
/// afterwards is a function of what it held, the label and the message.
#[verifier::external_body]
fn append_message(transcript: &mut merlin::Transcript, label: &'static [u8], message: &[u8])
    requires
        message@.len() <= u32::MAX,
    ensures
        transcript_state(*final(transcript)) == state_after_append(
            transcript_state(*old(transcript)),
            label@,
            message@,
        ),
{
    transcript.append_message(label, message)
}

/// `Transcript::challenge_bytes` of `merlin`, for 64 bytes: the bytes, and
/// what the transcript holds afterwards, are a function of what it held and
/// the label.
#[verifier::external_body]
fn challenge_bytes(transcript: &mut merlin::Transcript, label: &'static [u8]) -> (r: [u8; 64])
    ensures
        r@ == challenge_step(transcript_state(*old(transcript)), label@, 64).0,
        transcript_state(*final(transcript)) == challenge_step(
            transcript_state(*old(transcript)),
            label@,
            64,
        ).1,
{
    let mut bytes = [0u8; 64];
    transcript.challenge_bytes(label, &mut bytes);
    bytes
}

} // verus!
