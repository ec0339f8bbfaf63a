use curve25519_dalek::scalar::Scalar;
use merlin::Transcript;
use rand::thread_rng;
use rangeproofs::errors::ProofError;
use rangeproofs::errors::VerifyError;
use rangeproofs::generators::BulletproofGens;
use rangeproofs::generators::PedersenGens;
use rangeproofs::range_proof::RangeProof;

fn blindings(m: usize) -> Vec<Scalar> {
    (0..m).map(|_| Scalar::random(&mut thread_rng())).collect()
}

#[test]
fn multiple_values_in_range_verify() {
    let pc_gens = PedersenGens::standard();
    let bp_gens = BulletproofGens::new(64, 16);
    let secrets: Vec<u64> = vec![4242344947u64, 3718732727u64, 2255562556u64, 2526146994u64];
    let bl = blindings(4);
    let mut prover_transcript = Transcript::new(b"doctest example");
    let (proof, commitments) = RangeProof::prove_multiple(
        &bp_gens,
        &pc_gens,
        &mut prover_transcript,
        &secrets,
        &bl,
        32,
    )
    .expect("proving with a valid configuration succeeds");
    assert_eq!(commitments.len(), 4);
    let mut verifier_transcript = Transcript::new(b"doctest example");
    assert!(proof
        .verify_multiple(&bp_gens, &pc_gens, &mut verifier_transcript, &commitments, 32)
        .is_ok());
}

#[test]
fn single_value_in_range_verifies() {
    let pc_gens = PedersenGens::standard();
    let bp_gens = BulletproofGens::new(64, 1);
    let secret_value = 1037578891u64;
    let blinding = Scalar::random(&mut thread_rng());
    let mut prover_transcript = Transcript::new(b"doctest example");
    let (proof, committed_value) = RangeProof::prove_single(
        &bp_gens,
        &pc_gens,
        &mut prover_transcript,
        secret_value,
        &blinding,
        32,
    )
    .expect("proving with a valid configuration succeeds");
    let mut verifier_transcript = Transcript::new(b"doctest example");
    assert!(proof
        .verify_single(&bp_gens, &pc_gens, &mut verifier_transcript, &committed_value, 32)
        .is_ok());
}

#[test]
fn edge_values_of_small_bitsize_verify() {
    let pc_gens = PedersenGens::standard();
    let bp_gens = BulletproofGens::new(8, 4);
    let secrets: Vec<u64> = vec![0u64, 1u64, 254u64, 255u64];
    let bl = blindings(4);
    let mut pt = Transcript::new(b"edge cases");
    let (proof, commitments) =
        RangeProof::prove_multiple(&bp_gens, &pc_gens, &mut pt, &secrets, &bl, 8).unwrap();
    let mut vt = Transcript::new(b"edge cases");
    assert!(proof.verify_multiple(&bp_gens, &pc_gens, &mut vt, &commitments, 8).is_ok());
}

#[test]
fn every_supported_bitsize_verifies() {
    let pc_gens = PedersenGens::standard();
    let bp_gens = BulletproofGens::new(64, 1);
    for &(n, value) in
        [(8usize, 255u64), (16, 65535), (32, 4294967295), (64, u64::MAX)].iter()
    {
        let blinding = Scalar::random(&mut thread_rng());
        let mut pt = Transcript::new(b"all bitsizes");
        let (proof, commitment) =
            RangeProof::prove_single(&bp_gens, &pc_gens, &mut pt, value, &blinding, n).unwrap();
        let mut vt = Transcript::new(b"all bitsizes");
        assert!(proof.verify_single(&bp_gens, &pc_gens, &mut vt, &commitment, n).is_ok());
    }
}

#[test]
fn out_of_range_value_builds_but_fails_verification() {
    let pc_gens = PedersenGens::standard();
    let bp_gens = BulletproofGens::new(8, 1);
    let blinding = Scalar::random(&mut thread_rng());
    let mut pt = Transcript::new(b"range test");
    // 256 needs nine bits: the proof still constructs without error.
    let res = RangeProof::prove_single(&bp_gens, &pc_gens, &mut pt, 256u64, &blinding, 8);
    let (proof, commitment) = res.expect("an out-of-range value is not a construction error");
    let mut vt = Transcript::new(b"range test");
    let v = proof.verify_single(&bp_gens, &pc_gens, &mut vt, &commitment, 8);
    assert_eq!(v, Err(VerifyError::ProofMismatch));
}

#[test]
fn aggregation_with_one_out_of_range_value_fails() {
    let pc_gens = PedersenGens::standard();
    let bp_gens = BulletproofGens::new(8, 4);
    let secrets: Vec<u64> = vec![10u64, 20u64, 300u64, 40u64];
    let bl = blindings(4);
    let mut pt = Transcript::new(b"agg range test");
    let (proof, commitments) =
        RangeProof::prove_multiple(&bp_gens, &pc_gens, &mut pt, &secrets, &bl, 8).unwrap();
    let mut vt = Transcript::new(b"agg range test");
    let v = proof.verify_multiple(&bp_gens, &pc_gens, &mut vt, &commitments, 8);
    assert_eq!(v, Err(VerifyError::ProofMismatch));
}

#[test]
fn corrupting_one_commitment_fails_aggregated_verification() {
    let pc_gens = PedersenGens::standard();
    let bp_gens = BulletproofGens::new(8, 4);
    let secrets: Vec<u64> = vec![10u64, 20u64, 30u64, 40u64];
    let bl = blindings(4);
    let mut pt = Transcript::new(b"agg corrupt test");
    let (proof, mut commitments) =
        RangeProof::prove_multiple(&bp_gens, &pc_gens, &mut pt, &secrets, &bl, 8).unwrap();
    commitments[2].bytes[5] ^= 0x40;
    let mut vt = Transcript::new(b"agg corrupt test");
    let v = proof.verify_multiple(&bp_gens, &pc_gens, &mut vt, &commitments, 8);
    assert!(v.is_err());
}

#[test]
fn verification_under_a_different_label_fails() {
    let pc_gens = PedersenGens::standard();
    let bp_gens = BulletproofGens::new(32, 1);
    let blinding = Scalar::random(&mut thread_rng());
    let mut pt = Transcript::new(b"doctest example");
    let (proof, commitment) =
        RangeProof::prove_single(&bp_gens, &pc_gens, &mut pt, 7u64, &blinding, 32).unwrap();
    let mut vt = Transcript::new(b"another label");
    let v = proof.verify_single(&bp_gens, &pc_gens, &mut vt, &commitment, 32);
    assert_eq!(v, Err(VerifyError::ProofMismatch));
}

#[test]
fn unsupported_bitsize_is_rejected() {
    let pc_gens = PedersenGens::standard();
    let bp_gens = BulletproofGens::new(64, 1);
    let blinding = Scalar::random(&mut thread_rng());
    let mut pt = Transcript::new(b"config test");
    let res = RangeProof::prove_single(&bp_gens, &pc_gens, &mut pt, 5u64, &blinding, 12);
    assert!(matches!(res, Err(ProofError::InvalidBitsize)));
}

#[test]
fn aggregation_count_must_be_a_power_of_two() {
    let pc_gens = PedersenGens::standard();
    let bp_gens = BulletproofGens::new(8, 4);
    let secrets: Vec<u64> = vec![1u64, 2u64, 3u64];
    let bl = blindings(3);
    let mut pt = Transcript::new(b"config test");
    let res = RangeProof::prove_multiple(&bp_gens, &pc_gens, &mut pt, &secrets, &bl, 8);
    assert!(matches!(res, Err(ProofError::InvalidAggregation)));
}

#[test]
fn blinding_count_must_match_value_count() {
    let pc_gens = PedersenGens::standard();
    let bp_gens = BulletproofGens::new(8, 4);
    let secrets: Vec<u64> = vec![1u64, 2u64];
    let bl = blindings(3);
    let mut pt = Transcript::new(b"config test");
    let res = RangeProof::prove_multiple(&bp_gens, &pc_gens, &mut pt, &secrets, &bl, 8);
    assert!(matches!(res, Err(ProofError::InvalidAggregation)));
}

#[test]
fn generator_capacity_is_enforced() {
    let pc_gens = PedersenGens::standard();
    let bp_gens = BulletproofGens::new(32, 1);
    let blinding = Scalar::random(&mut thread_rng());
    let mut pt = Transcript::new(b"config test");
    let res = RangeProof::prove_single(&bp_gens, &pc_gens, &mut pt, 5u64, &blinding, 64);
    assert!(matches!(res, Err(ProofError::GeneratorCapacityExceeded)));

    let secrets: Vec<u64> = vec![1u64, 2u64];
    let bl = blindings(2);
    let mut pt2 = Transcript::new(b"config test");
    let res2 = RangeProof::prove_multiple(&bp_gens, &pc_gens, &mut pt2, &secrets, &bl, 32);
    assert!(matches!(res2, Err(ProofError::GeneratorCapacityExceeded)));
}

#[test]
fn commitments_are_pedersen_commitments() {
    let pc_gens = PedersenGens::standard();
    let bp_gens = BulletproofGens::new(8, 1);
    let value = 10u64;
    let blinding = Scalar::random(&mut thread_rng());
    let mut pt = Transcript::new(b"commitment test");
    let (_, commitment) =
        RangeProof::prove_single(&bp_gens, &pc_gens, &mut pt, value, &blinding, 8).unwrap();
    // The returned commitment is exactly value * B + blinding * B_blinding.
    let expected = Scalar::from(value) * pc_gens.b + blinding * pc_gens.b_blinding;
    assert_eq!(expected.compress().to_bytes().to_vec(), commitment.bytes);
    // And the commitment layer computes the same point directly.
    let direct = pc_gens.commit(&Scalar::from(value), &blinding);
    assert_eq!(direct, expected);
}

#[test]
fn generator_sets_are_deterministic() {
    let one = BulletproofGens::new(8, 2);
    let two = BulletproofGens::new(8, 2);
    assert_eq!(one.g[1][3], two.g[1][3]);
    assert_eq!(one.h[0][7], two.h[0][7]);
    assert_ne!(one.g[1][3], one.h[1][3]);
    let pa = PedersenGens::standard();
    let pb = PedersenGens::standard();
    assert_eq!(pa.b, pb.b);
    assert_eq!(pa.b_blinding, pb.b_blinding);
    assert_ne!(pa.b, pa.b_blinding);
}

#[test]
fn verifier_reports_configuration_errors() {
    let pc_gens = PedersenGens::standard();
    let bp_gens = BulletproofGens::new(32, 2);
    let blinding = Scalar::random(&mut thread_rng());
    let mut pt = Transcript::new(b"config test");
    let (proof, commitment) =
        RangeProof::prove_single(&bp_gens, &pc_gens, &mut pt, 5u64, &blinding, 32).unwrap();
    let mut vt = Transcript::new(b"config test");
    let v = proof.verify_single(&bp_gens, &pc_gens, &mut vt, &commitment, 24);
    assert_eq!(v, Err(VerifyError::InvalidBitsize));
    let mut vt2 = Transcript::new(b"config test");
    let v2 = proof.verify_single(&bp_gens, &pc_gens, &mut vt2, &commitment, 64);
    assert_eq!(v2, Err(VerifyError::GeneratorCapacityExceeded));
}
