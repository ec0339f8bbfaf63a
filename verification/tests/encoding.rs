use curve25519_dalek::scalar::Scalar;
use merlin::Transcript;
use rand::thread_rng;
use rangeproofs::generators::BulletproofGens;
use rangeproofs::generators::PedersenGens;
use rangeproofs::range_proof::Commitment;
use rangeproofs::range_proof::RangeProof;

fn single_proof(label: &'static [u8], value: u64, n: usize) -> (RangeProof, Commitment) {
    let pc_gens = PedersenGens::standard();
    let bp_gens = BulletproofGens::new(64, 1);
    let blinding = Scalar::random(&mut thread_rng());
    let mut pt = Transcript::new(label);
    RangeProof::prove_single(&bp_gens, &pc_gens, &mut pt, value, &blinding, n).unwrap()
}

#[test]
fn serialized_size_is_fixed_by_rounds() {
    let (proof, _) = single_proof(b"size test", 99u64, 32);
    // 32 bits, one value: lg(32) = 5 rounds, 32 * (9 + 2 * 5) bytes.
    assert_eq!(proof.to_bytes().len(), 608);

    let pc_gens = PedersenGens::standard();
    let bp_gens = BulletproofGens::new(32, 4);
    let secrets: Vec<u64> = vec![1u64, 2u64, 3u64, 4u64];
    let bl: Vec<Scalar> = (0..4).map(|_| Scalar::random(&mut thread_rng())).collect();
    let mut pt = Transcript::new(b"size test");
    let (agg, _) =
        RangeProof::prove_multiple(&bp_gens, &pc_gens, &mut pt, &secrets, &bl, 32).unwrap();
    // 32 * 4 = 128: lg(128) = 7 rounds, 32 * (9 + 2 * 7) bytes.
    assert_eq!(agg.to_bytes().len(), 736);
}

#[test]
fn roundtrip_gives_the_same_verification_result() {
    let (proof, commitment) = single_proof(b"roundtrip test", 1037578891u64, 32);
    let pc_gens = PedersenGens::standard();
    let bp_gens = BulletproofGens::new(64, 1);
    let bytes = proof.to_bytes();
    let parsed = RangeProof::from_bytes(&bytes).expect("serialized proofs parse back");
    assert_eq!(parsed.to_bytes(), bytes);
    let mut vt = Transcript::new(b"roundtrip test");
    let direct = proof.verify_single(&bp_gens, &pc_gens, &mut vt, &commitment, 32);
    let mut vt2 = Transcript::new(b"roundtrip test");
    let reparsed = parsed.verify_single(&bp_gens, &pc_gens, &mut vt2, &commitment, 32);
    assert!(direct.is_ok());
    assert_eq!(direct, reparsed);
}

#[test]
fn wrong_length_is_rejected() {
    let (proof, _) = single_proof(b"length test", 5u64, 32);
    let bytes = proof.to_bytes();
    let mut truncated = bytes.clone();
    truncated.pop();
    assert!(RangeProof::from_bytes(&truncated).is_err());
    let mut odd = bytes.clone();
    odd.extend_from_slice(&[0u8; 32]);
    // One extra word breaks the pairing of the inner-product rounds.
    assert!(RangeProof::from_bytes(&odd).is_err());
    assert!(RangeProof::from_bytes(&Vec::new()).is_err());
}

#[test]
fn non_canonical_scalar_is_rejected() {
    let (proof, _) = single_proof(b"scalar test", 5u64, 32);
    let mut bytes = proof.to_bytes();
    // The t_x word starts at byte 128; all ones is far above the group
    // order, hence non-canonical.
    for i in 0..32 {
        bytes[128 + i] = 0xFF;
    }
    assert!(RangeProof::from_bytes(&bytes).is_err());
}

#[test]
fn invalid_point_encoding_is_rejected() {
    let (proof, _) = single_proof(b"point test", 5u64, 32);
    let mut bytes = proof.to_bytes();
    // All ones is above the field prime, so the first point word no
    // longer decompresses.
    for i in 0..32 {
        bytes[i] = 0xFF;
    }
    assert!(RangeProof::from_bytes(&bytes).is_err());
}

#[test]
fn flipping_any_byte_fails_verification_or_parsing() {
    let (proof, commitment) = single_proof(b"tamper test", 777u64, 32);
    let pc_gens = PedersenGens::standard();
    let bp_gens = BulletproofGens::new(64, 1);
    let bytes = proof.to_bytes();
    let mut pos: usize = 0;
    while pos < bytes.len() {
        let mut tampered = bytes.clone();
        tampered[pos] ^= 0x04;
        match RangeProof::from_bytes(&tampered) {
            Err(_) => {}
            Ok(p) => {
                let mut vt = Transcript::new(b"tamper test");
                let v = p.verify_single(&bp_gens, &pc_gens, &mut vt, &commitment, 32);
                assert!(v.is_err(), "tampered byte {} verified", pos);
            }
        }
        pos += 13;
    }
}

#[test]
fn tampered_in_memory_and_reparsed_proofs_agree() {
    let (proof, commitment) = single_proof(b"tamper agree test", 4242u64, 32);
    let pc_gens = PedersenGens::standard();
    let bp_gens = BulletproofGens::new(64, 1);
    let mut bytes = proof.to_bytes();
    // Flip a low bit of the t_x scalar: the encoding stays canonical,
    // so the proof parses but no longer satisfies the identity.
    bytes[128] ^= 0x01;
    let parsed = RangeProof::from_bytes(&bytes).expect("a low scalar bit keeps the word canonical");
    let mut vt = Transcript::new(b"tamper agree test");
    let v = parsed.verify_single(&bp_gens, &pc_gens, &mut vt, &commitment, 32);
    assert!(v.is_err());
}
