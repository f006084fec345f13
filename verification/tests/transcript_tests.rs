use merlin::Transcript;
use r1cs::generators::CompressedRistretto;
use r1cs::scalar::Scalar;
use r1cs::transcript::challenge_scalar;
use r1cs::transcript::commit_point;
use r1cs::transcript::r1cs_domain_sep;

fn challenge_of(transcript: &mut Transcript, label: &'static [u8]) -> [u8; 32] {
    let mut wide = [0u8; 64];
    transcript.challenge_bytes(label, &mut wide);
    curve25519_dalek::scalar::Scalar::from_bytes_mod_order_wide(&wide).to_bytes()
}

#[test]
fn domain_separator_appends_the_protocol_and_the_wire_count() {
    let mut ours = Transcript::new(b"test");
    r1cs_domain_sep(&mut ours, 3);
    let mut theirs = Transcript::new(b"test");
    theirs.append_message(b"dom-sep", b"r1cs v1");
    theirs.append_u64(b"m", 3);
    assert_eq!(challenge_of(&mut ours, b"c"), challenge_of(&mut theirs, b"c"));

    let mut other = Transcript::new(b"test");
    r1cs_domain_sep(&mut other, 4);
    let mut ours = Transcript::new(b"test");
    r1cs_domain_sep(&mut ours, 3);
    assert_ne!(challenge_of(&mut ours, b"c"), challenge_of(&mut other, b"c"));
}

#[test]
fn commitments_are_appended_under_their_label() {
    let point = CompressedRistretto([7u8; 32]);
    let mut ours = Transcript::new(b"test");
    commit_point(&mut ours, &point);
    let mut theirs = Transcript::new(b"test");
    theirs.append_message(b"V", &[7u8; 32]);
    assert_eq!(challenge_of(&mut ours, b"c"), challenge_of(&mut theirs, b"c"));

    let mut untouched = Transcript::new(b"test");
    let mut ours = Transcript::new(b"test");
    commit_point(&mut ours, &point);
    assert_ne!(challenge_of(&mut ours, b"c"), challenge_of(&mut untouched, b"c"));
}

#[test]
fn challenge_scalar_reduces_64_challenge_bytes() {
    let mut ours = Transcript::new(b"test");
    let mut theirs = Transcript::new(b"test");
    let first = challenge_scalar(&mut ours, b"first");
    assert_eq!(first.to_bytes(), challenge_of(&mut theirs, b"first"));
    let second = challenge_scalar(&mut ours, b"second");
    assert_eq!(second.to_bytes(), challenge_of(&mut theirs, b"second"));
    assert_ne!(first, second);
    assert_ne!(first, Scalar::zero());
}

#[test]
fn challenge_scalar_depends_on_the_label_and_on_earlier_draws() {
    let mut a = Transcript::new(b"test");
    let mut b = Transcript::new(b"test");
    assert_ne!(challenge_scalar(&mut a, b"x"), challenge_scalar(&mut b, b"y"));
    // `a` and `b` have drawn under different labels: they now differ.
    assert_ne!(challenge_scalar(&mut a, b"z"), challenge_scalar(&mut b, b"z"));
}
