use recursive_aggregation::field::FieldElement;
use recursive_aggregation::pairing::recombine_coordinate;
use recursive_aggregation::recursive::{
    get_aggregated_input, leaf_query_indices, prove, validate_proof_list, zero_vk_indices,
    AggregationError, BaseProof, AGGR_LIMB_COUNT, MAX_PROOFS,
    NUM_LIMBS_FOR_IN_FIELD_REPRESENTATION,
};

fn fe(w0: u64, w1: u64, w2: u64, w3: u64) -> FieldElement {
    FieldElement { w0, w1, w2, w3 }
}

fn base_proof(num_inputs: usize, seed: u64) -> BaseProof {
    BaseProof {
        num_inputs,
        input_values: (0..num_inputs as u64).map(|i| fe(seed + i, 0, 0, 0)).collect(),
    }
}

fn dummy_limbs() -> Vec<FieldElement> {
    (0..AGGR_LIMB_COUNT as u64).map(|i| fe(i, 0, 0, 0)).collect()
}

#[test]
fn prove_rejects_empty_proof_list() {
    let proofs: Vec<BaseProof> = vec![];
    let r = prove(&proofs, vec![1, 2, 3], dummy_limbs());
    assert_eq!(r.unwrap_err(), AggregationError::EmptyProofList);
}

#[test]
fn prove_rejects_too_many_proofs() {
    let proofs: Vec<BaseProof> = (0..MAX_PROOFS as u64).map(|i| base_proof(1, i)).collect();
    let r = prove(&proofs, vec![], dummy_limbs());
    assert_eq!(r.unwrap_err(), AggregationError::TooManyProofs);
}

#[test]
fn prove_rejects_mismatched_input_counts() {
    let proofs = vec![base_proof(1, 10), base_proof(2, 20), base_proof(1, 30)];
    let r = prove(&proofs, vec![], dummy_limbs());
    assert_eq!(r.unwrap_err(), AggregationError::NumInputsMismatch);
}

#[test]
fn prove_rejects_wrong_aggregate_length() {
    let proofs = vec![base_proof(1, 10)];
    let mut limbs = dummy_limbs();
    limbs.pop();
    let r = prove(&proofs, vec![], limbs);
    assert_eq!(r.unwrap_err(), AggregationError::MalformedAggregate);
}

#[test]
fn prove_three_proofs_has_expected_shape() {
    let proofs = vec![base_proof(1, 10), base_proof(1, 20), base_proof(1, 30)];
    let bundle = prove(&proofs, vec![7, 7], dummy_limbs()).unwrap();
    assert_eq!(bundle.proof, vec![7, 7]);
    assert_eq!(bundle.individual_num_inputs, 1);
    assert_eq!(bundle.individual_vk_inputs.len(), 3);
    assert_eq!(
        bundle.individual_vk_inputs,
        vec![fe(10, 0, 0, 0), fe(20, 0, 0, 0), fe(30, 0, 0, 0)]
    );
    assert_eq!(bundle.individual_vk_idxs, vec![0, 0, 0]);
    assert_eq!(bundle.aggr_limbs.len(), 4 * NUM_LIMBS_FOR_IN_FIELD_REPRESENTATION);
}

#[test]
fn prove_flattens_inputs_row_major() {
    let proofs = vec![base_proof(2, 100), base_proof(2, 200)];
    let bundle = prove(&proofs, vec![], dummy_limbs()).unwrap();
    assert_eq!(
        bundle.individual_vk_inputs,
        vec![fe(100, 0, 0, 0), fe(101, 0, 0, 0), fe(200, 0, 0, 0), fe(201, 0, 0, 0)]
    );
}

#[test]
fn validate_proof_list_returns_shared_count() {
    let proofs = vec![base_proof(3, 1), base_proof(3, 2)];
    assert_eq!(validate_proof_list(&proofs).unwrap(), 3);
}

#[test]
fn zero_vk_indices_are_all_zero() {
    let idxs = zero_vk_indices(5);
    assert_eq!(idxs, vec![0, 0, 0, 0, 0]);
}

#[test]
fn leaf_query_indices_cover_one_leaf() {
    let idxs = leaf_query_indices(2, 3);
    assert_eq!(idxs, vec![6, 7, 8]);
}

#[test]
fn recombine_coordinate_places_limbs_at_68_bit_offsets() {
    let limbs = vec![fe(1, 0, 0, 0), fe(2, 0, 0, 0), fe(3, 0, 0, 0), fe(4, 0, 0, 0)];
    let c = recombine_coordinate(&limbs, 0).unwrap();
    assert_eq!(c, fe(1, 2 << 4, 3 << 8, 4 << 12));
}

#[test]
fn recombine_coordinate_rejects_wide_limb() {
    let limbs = vec![fe(0, 16, 0, 0), fe(0, 0, 0, 0), fe(0, 0, 0, 0), fe(0, 0, 0, 0)];
    assert!(recombine_coordinate(&limbs, 0).is_none());
}

#[test]
fn recombine_coordinate_rejects_256_bit_overflow() {
    let limbs = vec![fe(0, 0, 0, 0), fe(0, 0, 0, 0), fe(0, 0, 0, 0), fe(1 << 52, 0, 0, 0)];
    assert!(recombine_coordinate(&limbs, 0).is_none());
}

#[test]
fn get_aggregated_input_validates_like_prove() {
    let bound = fe(11, 22, 33, 44);
    let proofs = vec![base_proof(1, 10), base_proof(1, 20)];
    assert_eq!(get_aggregated_input(&proofs, bound), Ok(bound));
    let mismatched = vec![base_proof(1, 10), base_proof(2, 20)];
    assert_eq!(
        get_aggregated_input(&mismatched, bound),
        Err(AggregationError::NumInputsMismatch)
    );
    let empty: Vec<BaseProof> = vec![];
    assert_eq!(
        get_aggregated_input(&empty, bound),
        Err(AggregationError::EmptyProofList)
    );
}
