//! The deferred pairing check of the recursive verifier: recombine the
//! bundle's aggregate limbs into two affine points' coordinates (a verified
//! computation), then evaluate the pairing equation against the two fixed
//! G2 basis elements through the curve-arithmetic collaborator.
use vstd::prelude::*;
use vstd::arithmetic::div_mod::lemma_fundamental_div_mod;
use crate::field::FieldElement;
use crate::recursive::{AggregatedProof, AggregationError, AGGR_LIMB_COUNT};
use bellman_ce::pairing::bn256::{Bn256, Fq, Fq12, Fq2, FqRepr, G1Affine, G2Affine};
use bellman_ce::pairing::ff::{Field, PrimeField};
use bellman_ce::pairing::{CurveAffine, Engine};

verus! {

/// One G2 group element in affine coordinates; each coordinate of the
/// quadratic extension field is a pair of base-field values, held in the
/// four-limb representation.
#[derive(Clone, Copy, PartialEq, Eq, Structural, Debug)]
pub struct G2Point {
    pub x_c0: FieldElement,
    pub x_c1: FieldElement,
    pub y_c0: FieldElement,
    pub y_c1: FieldElement,
}

/// A limb is in range when its value fits the limb width.
pub open spec fn spec_limb_fits(f: FieldElement) -> bool {
    f.value() < 0x10_0000_0000_0000_0000
}

/// The coordinate denoted by four in-range limbs, least-significant first,
/// each contributing 68 bits.
pub open spec fn spec_recombined_value(l: Seq<FieldElement>) -> nat
    recommends
        l.len() == 4,
{
    l[0].value() + l[1].value() * 0x10_0000_0000_0000_0000 + l[2].value()
        * 0x100_0000_0000_0000_0000_0000_0000_0000_0000 + l[3].value()
        * 0x1000_0000_0000_0000_0000_0000_0000_0000_0000_0000_0000_0000_0000
}

/// Recombining four limbs into one coordinate succeeds exactly when every
/// limb is in range and the combined value fits 256 bits.
pub open spec fn spec_recombine(l: Seq<FieldElement>) -> Option<nat>
    recommends
        l.len() == 4,
{
    if (forall|i: int| 0 <= i < 4 ==> spec_limb_fits(#[trigger] l[i])) && spec_recombined_value(l)
        < 0x1_0000_0000_0000_0000_0000_0000_0000_0000_0000_0000_0000_0000_0000_0000_0000_0000 {
        Some(spec_recombined_value(l))
    } else {
        None
    }
}

/// Recombine the four limbs of `limbs` starting at `start` into one
/// coordinate, failing on an out-of-range limb or a 256-bit overflow.
pub fn recombine_coordinate(limbs: &Vec<FieldElement>, start: usize) -> (r: Option<FieldElement>)
    requires
        start + 4 <= limbs@.len(),
    ensures
        match r {
            Some(fe) => spec_recombine(limbs@.subrange(start as int, start + 4)) == Some(
                fe.value(),
            ),
            None => spec_recombine(limbs@.subrange(start as int, start + 4)) is None,
        },
{
    let ghost sub = limbs@.subrange(start as int, start + 4);
    let n = limbs.len();
    assert(start + 4 <= n);
    let l0 = limbs[start];
    let l1 = limbs[start + 1];
    let l2 = limbs[start + 2];
    let l3 = limbs[start + 3];
    proof {
        assert(sub[0] == l0 && sub[1] == l1 && sub[2] == l2 && sub[3] == l3);
    }
    if !limb_fits(&l0) || !limb_fits(&l1) || !limb_fits(&l2) || !limb_fits(&l3) {
        return None;
    }
    let v0: u128 = (l0.w0 as u128) + (l0.w1 as u128) * 0x1_0000_0000_0000_0000;
    let v1: u128 = (l1.w0 as u128) + (l1.w1 as u128) * 0x1_0000_0000_0000_0000;
    let v2: u128 = (l2.w0 as u128) + (l2.w1 as u128) * 0x1_0000_0000_0000_0000;
    let v3: u128 = (l3.w0 as u128) + (l3.w1 as u128) * 0x1_0000_0000_0000_0000;
    proof {
        assert(v0 == l0.value() && v1 == l1.value() && v2 == l2.value() && v3 == l3.value());
    }
    let u1: u128 = v1 * 16;
    let u2: u128 = v2 * 256;
    let u3: u128 = v3 * 4096;
    let w0: u64 = (v0 % 0x1_0000_0000_0000_0000) as u64;
    let c0: u128 = v0 / 0x1_0000_0000_0000_0000;
    let d1: u128 = c0 + u1;
    let w1: u64 = (d1 % 0x1_0000_0000_0000_0000) as u64;
    let c1: u128 = d1 / 0x1_0000_0000_0000_0000;
    let d2: u128 = c1 + u2;
    let w2: u64 = (d2 % 0x1_0000_0000_0000_0000) as u64;
    let c2: u128 = d2 / 0x1_0000_0000_0000_0000;
    let d3: u128 = c2 + u3;
    let w3: u64 = (d3 % 0x1_0000_0000_0000_0000) as u64;
    let c3: u128 = d3 / 0x1_0000_0000_0000_0000;
    proof {
        lemma_fundamental_div_mod(v0 as int, 0x1_0000_0000_0000_0000);
        lemma_fundamental_div_mod(d1 as int, 0x1_0000_0000_0000_0000);
        lemma_fundamental_div_mod(d2 as int, 0x1_0000_0000_0000_0000);
        lemma_fundamental_div_mod(d3 as int, 0x1_0000_0000_0000_0000);
        assert(spec_recombined_value(sub) == w0 + w1 * 0x1_0000_0000_0000_0000 + w2
            * 0x1_0000_0000_0000_0000_0000_0000_0000_0000 + w3
            * 0x1_0000_0000_0000_0000_0000_0000_0000_0000_0000_0000_0000_0000 + c3
            * 0x1_0000_0000_0000_0000_0000_0000_0000_0000_0000_0000_0000_0000_0000_0000_0000_0000);
    }
    if c3 != 0 {
        return None;
    }
    let fe = FieldElement { w0, w1, w2, w3 };
    Some(fe)
}

/// An in-range limb has its two high words zero and fewer than four bits in
/// the second word.
pub fn limb_fits(f: &FieldElement) -> (r: bool)
    ensures
        r == spec_limb_fits(*f),
{
    f.w2 == 0 && f.w3 == 0 && f.w1 < 16
}

/// The eight base-field coordinate values of the two G2 basis elements, in
/// the order x then y, real part then imaginary part, first element first.
pub open spec fn spec_g2_coords(a: G2Point, b: G2Point) -> Seq<nat> {
    seq![
        a.x_c0.value(),
        a.x_c1.value(),
        a.y_c0.value(),
        a.y_c1.value(),
        b.x_c0.value(),
        b.x_c1.value(),
        b.y_c0.value(),
        b.y_c1.value(),
    ]
}

/// The value denoted by four little-endian 64-bit words.
pub open spec fn words_value(w: Seq<u64>) -> nat
    recommends
        w.len() == 4,
{
    (w[0] as nat) + (w[1] as nat) * 0x1_0000_0000_0000_0000 + (w[2] as nat)
        * 0x1_0000_0000_0000_0000_0000_0000_0000_0000 + (w[3] as nat)
        * 0x1_0000_0000_0000_0000_0000_0000_0000_0000_0000_0000_0000_0000
}

/// Outcome of the deferred pairing evaluation on twelve operand coordinate
/// values — x and y of the pairing-with-generator point, x and y of the
/// pairing-with-x point, then the eight G2 basis coordinates: nothing when
/// a coordinate does not decode to a curve point, otherwise whether the
/// pairing product is the identity.  The curve arithmetic is deterministic,
/// so the outcome is a function of the coordinate values alone.
pub uninterp spec fn deferred_pairing_outcome(coords: Seq<nat>) -> Option<bool>;

/// Relies on the curve collaborator's `from_xy_checked` (rejecting
/// coordinates that are out of field or off the curve), `miller_loop` and
/// `final_exponentiation`: evaluates whether
/// `e(pair_with_generator, G2_0) * e(pair_with_x, G2_1)` is the identity.
/// `c` holds the twelve coordinates in the order the outcome's
/// documentation gives, each as four little-endian 64-bit words.
#[verifier::external_body]
fn pairing_outcome_raw(c: &Vec<[u64; 4]>) -> (r: Option<bool>)
    requires
        c@.len() == 12,
    ensures
        r == deferred_pairing_outcome(c@.map_values(|w: [u64; 4]| words_value(w@))),
{
    let f = |i: usize| Fq::from_repr(FqRepr(c[i])).ok();
    let h = |i: usize| Some(G1Affine::from_xy_checked(f(i)?, f(i + 1)?).ok()?.prepare());
    let q = |i: usize| Some(Fq2 { c0: f(i)?, c1: f(i + 1)? });
    let g = |i: usize| Some(G2Affine::from_xy_checked(q(i)?, q(i + 2)?).ok()?.prepare());
    let m = Bn256::miller_loop(&[(&h(0)?, &g(4)?), (&h(2)?, &g(8)?)]);
    Some(Bn256::final_exponentiation(&m)? == Fq12::one())
}

/// The coordinate recombined from limb group `k` of the aggregate, in the
/// fixed operand order: x then y of the pairing-with-generator point, then
/// x then y of the pairing-with-x point.
pub open spec fn spec_aggr_coord(limbs: Seq<FieldElement>, k: int) -> Option<nat> {
    spec_recombine(limbs.subrange(4 * k, 4 * k + 4))
}

/// All four coordinate groups of the aggregate recombine.
pub open spec fn spec_aggr_coords_ok(limbs: Seq<FieldElement>) -> bool {
    forall|k: int| 0 <= k < 4 ==> #[trigger] spec_aggr_coord(limbs, k) is Some
}

/// What the deferred pairing stage returns for a bundle whose aggregate
/// limbs are `limbs`, checked against the basis coordinates `g2`: a
/// malformed aggregate (wrong length, out-of-range limb, overflowing or
/// undecodable coordinate) is an error, never a crash and never a "valid";
/// otherwise the pairing outcome decides.
pub open spec fn spec_deferred_check_result(limbs: Seq<FieldElement>, g2: Seq<nat>) -> Result<
    bool,
    AggregationError,
> {
    if limbs.len() != AGGR_LIMB_COUNT {
        Err(AggregationError::MalformedAggregate)
    } else if !spec_aggr_coords_ok(limbs) {
        Err(AggregationError::MalformedAggregate)
    } else {
        match deferred_pairing_outcome(
            seq![
                spec_aggr_coord(limbs, 0).unwrap(),
                spec_aggr_coord(limbs, 1).unwrap(),
                spec_aggr_coord(limbs, 2).unwrap(),
                spec_aggr_coord(limbs, 3).unwrap(),
            ] + g2,
        ) {
            None => Err(AggregationError::MalformedAggregate),
            Some(b) => Ok(b),
        }
    }
}

/// Run the deferred pairing check of a bundle: split the aggregate limbs
/// into four coordinate groups in the fixed operand order, recombine each,
/// and evaluate the pairing equation against the two G2 basis elements of
/// the recursive verification key.
#[verifier::rlimit(50)]
#[verifier::spinoff_prover]
pub fn verify_subproof_limbs(
    proof: &AggregatedProof,
    g2_0: &G2Point,
    g2_1: &G2Point,
) -> (r: Result<bool, AggregationError>)
    ensures
        r == spec_deferred_check_result(proof@.aggr_limbs, spec_g2_coords(*g2_0, *g2_1)),
{
    if proof.aggr_limbs.len() != AGGR_LIMB_COUNT {
        return Err(AggregationError::MalformedAggregate);
    }
    let ghost limbs = proof@.aggr_limbs;
    let pg_x = match recombine_coordinate(&proof.aggr_limbs, 0) {
        None => {
            proof {
                assert(spec_aggr_coord(limbs, 0) is None);
            }
            return Err(AggregationError::MalformedAggregate);
        },
        Some(x) => x,
    };
    let pg_y = match recombine_coordinate(&proof.aggr_limbs, 4) {
        None => {
            proof {
                assert(spec_aggr_coord(limbs, 1) is None);
            }
            return Err(AggregationError::MalformedAggregate);
        },
        Some(x) => x,
    };
    let px_x = match recombine_coordinate(&proof.aggr_limbs, 8) {
        None => {
            proof {
                assert(spec_aggr_coord(limbs, 2) is None);
            }
            return Err(AggregationError::MalformedAggregate);
        },
        Some(x) => x,
    };
    let px_y = match recombine_coordinate(&proof.aggr_limbs, 12) {
        None => {
            proof {
                assert(spec_aggr_coord(limbs, 3) is None);
            }
            return Err(AggregationError::MalformedAggregate);
        },
        Some(x) => x,
    };
    proof {
        assert(spec_aggr_coord(limbs, 0) == Some(pg_x.value()));
        assert(spec_aggr_coord(limbs, 1) == Some(pg_y.value()));
        assert(spec_aggr_coord(limbs, 2) == Some(px_x.value()));
        assert(spec_aggr_coord(limbs, 3) == Some(px_y.value()));
        assert(spec_aggr_coords_ok(limbs));
    }
    let mut coords: Vec<[u64; 4]> = Vec::new();
    coords.push(pg_x.limb_words());
    coords.push(pg_y.limb_words());
    coords.push(px_x.limb_words());
    coords.push(px_y.limb_words());
    coords.push(g2_0.x_c0.limb_words());
    coords.push(g2_0.x_c1.limb_words());
    coords.push(g2_0.y_c0.limb_words());
    coords.push(g2_0.y_c1.limb_words());
    coords.push(g2_1.x_c0.limb_words());
    coords.push(g2_1.x_c1.limb_words());
    coords.push(g2_1.y_c0.limb_words());
    coords.push(g2_1.y_c1.limb_words());
    proof {
        let mapped = coords@.map_values(|w: [u64; 4]| words_value(w@));
        let expected = seq![
            pg_x.value(),
            pg_y.value(),
            px_x.value(),
            px_y.value(),
        ] + spec_g2_coords(*g2_0, *g2_1);
        assert forall|i: int| 0 <= i < 12 implies mapped[i] == expected[i] by {
            assert(mapped[i] == words_value(coords@[i]@));
        }
        assert(mapped =~= expected);
    }
    match pairing_outcome_raw(&coords) {
        None => Err(AggregationError::MalformedAggregate),
        Some(b) => Ok(b),
    }
}

} // verus!
