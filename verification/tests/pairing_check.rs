use bellman_ce::pairing::bn256::{Fq, G1Affine, G2Affine};
use bellman_ce::pairing::ff::PrimeField;
use bellman_ce::pairing::CurveAffine;
use recursive_aggregation::field::FieldElement;
use recursive_aggregation::pairing::G2Point;
use recursive_aggregation::recursive::{verify, AggregatedProof, AggregationError};

fn fe_from_fq(x: &Fq) -> FieldElement {
    let r = x.into_repr();
    let w = r.as_ref();
    FieldElement { w0: w[0], w1: w[1], w2: w[2], w3: w[3] }
}

/// Split a coordinate into four 68-bit limbs, least-significant first.
fn limbs_of_fq(x: &Fq) -> Vec<FieldElement> {
    let r = x.into_repr();
    let w = r.as_ref();
    let mut limbs = Vec::new();
    for k in 0..4usize {
        let mut val: u128 = 0;
        for b in 0..68usize {
            let bit = 68 * k + b;
            let word = bit / 64;
            let off = bit % 64;
            if word < 4 && (w[word] >> off) & 1 == 1 {
                val |= 1u128 << b;
            }
        }
        limbs.push(FieldElement { w0: val as u64, w1: (val >> 64) as u64, w2: 0, w3: 0 });
    }
    limbs
}

fn g2_point(q: &G2Affine) -> G2Point {
    let (x, y) = q.into_xy_unchecked();
    G2Point {
        x_c0: fe_from_fq(&x.c0),
        x_c1: fe_from_fq(&x.c1),
        y_c0: fe_from_fq(&y.c0),
        y_c1: fe_from_fq(&y.c1),
    }
}

/// Aggregate limbs for the operand pair (`pg`, `px`), in the fixed order:
/// pg.x, pg.y, px.x, px.y.
fn limbs_for(pg: &G1Affine, px: &G1Affine) -> Vec<FieldElement> {
    let (pg_x, pg_y) = pg.into_xy_unchecked();
    let (px_x, px_y) = px.into_xy_unchecked();
    let mut limbs = Vec::new();
    limbs.extend(limbs_of_fq(&pg_x));
    limbs.extend(limbs_of_fq(&pg_y));
    limbs.extend(limbs_of_fq(&px_x));
    limbs.extend(limbs_of_fq(&px_y));
    limbs
}

fn bundle_with_limbs(aggr_limbs: Vec<FieldElement>) -> AggregatedProof {
    AggregatedProof {
        proof: vec![],
        individual_vk_inputs: vec![],
        individual_num_inputs: 0,
        individual_vk_idxs: vec![],
        aggr_limbs,
    }
}

#[test]
fn verify_accepts_cancelling_pairing_operands() {
    // e(G, Q) * e(-G, Q) is the identity, so the deferred check holds.
    let g = G1Affine::one();
    let mut neg_g = G1Affine::one();
    neg_g.negate();
    let q = g2_point(&G2Affine::one());
    let bundle = bundle_with_limbs(limbs_for(&g, &neg_g));
    assert_eq!(verify(&bundle, true, &q, &q), Ok(true));
}

#[test]
fn verify_rejects_non_cancelling_pairing_operands() {
    // e(G, Q) * e(G, Q) is not the identity: a valid but wrong aggregate.
    let g = G1Affine::one();
    let q = g2_point(&G2Affine::one());
    let bundle = bundle_with_limbs(limbs_for(&g, &g));
    assert_eq!(verify(&bundle, true, &q, &q), Ok(false));
}

#[test]
fn verify_fails_closed_on_structural_failure() {
    let g = G1Affine::one();
    let mut neg_g = G1Affine::one();
    neg_g.negate();
    let q = g2_point(&G2Affine::one());
    let bundle = bundle_with_limbs(limbs_for(&g, &neg_g));
    assert_eq!(verify(&bundle, false, &q, &q), Ok(false));
}

#[test]
fn verify_reports_off_curve_point_as_malformed() {
    let g = G1Affine::one();
    let mut neg_g = G1Affine::one();
    neg_g.negate();
    let q = g2_point(&G2Affine::one());
    let mut limbs = limbs_for(&g, &neg_g);
    // Flip one bit of the pairing-with-generator y coordinate: the decoded
    // point leaves the curve and the bundle must be rejected as malformed,
    // not crash and not verify.
    limbs[4].w0 ^= 1;
    let bundle = bundle_with_limbs(limbs);
    assert_eq!(verify(&bundle, true, &q, &q), Err(AggregationError::MalformedAggregate));
}

#[test]
fn verify_reports_wide_limb_as_malformed() {
    let g = G1Affine::one();
    let mut neg_g = G1Affine::one();
    neg_g.negate();
    let q = g2_point(&G2Affine::one());
    let mut limbs = limbs_for(&g, &neg_g);
    limbs[0].w2 = 1;
    let bundle = bundle_with_limbs(limbs);
    assert_eq!(verify(&bundle, true, &q, &q), Err(AggregationError::MalformedAggregate));
}

#[test]
fn aggregate_encode_decode_verify_end_to_end() {
    // Three base proofs with one public input each, one shared key, an
    // aggregate whose pairing contributions cancel: the bundle survives a
    // transport round trip and verifies.
    let proofs: Vec<recursive_aggregation::recursive::BaseProof> = (0..3u64)
        .map(|i| recursive_aggregation::recursive::BaseProof {
            num_inputs: 1,
            input_values: vec![FieldElement { w0: 100 + i, w1: 0, w2: 0, w3: 0 }],
        })
        .collect();
    let g = G1Affine::one();
    let mut neg_g = G1Affine::one();
    neg_g.negate();
    let bundle =
        recursive_aggregation::recursive::prove(&proofs, vec![1, 2, 3], limbs_for(&g, &neg_g))
            .unwrap();
    assert_eq!(bundle.individual_vk_inputs.len(), 3);
    assert_eq!(bundle.individual_vk_idxs, vec![0, 0, 0]);
    assert_eq!(bundle.aggr_limbs.len(), 16);

    let mut encoded: Vec<u8> = Vec::new();
    bundle.write(&mut encoded);
    let (decoded, _) = AggregatedProof::read(&encoded, 0).unwrap();

    let q = g2_point(&G2Affine::one());
    assert_eq!(verify(&decoded, true, &q, &q), Ok(true));
}
