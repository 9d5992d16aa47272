//! The aggregation protocol: validating a base-proof list, flattening its
//! public inputs, assembling the aggregated bundle, and the bundle's
//! canonical byte encoding with its round-trip proof.
use vstd::prelude::*;
use vstd::bytes::{lemma_auto_spec_u64_to_from_le_bytes, spec_u64_to_le_bytes};
use crate::codec::{
    lemma_byte_vec_round_trip, lemma_fe_seq_bytes_len, lemma_fe_vec_round_trip,
    lemma_idx_seq_bytes_len, lemma_idx_vec_round_trip, lemma_u64_round_trip, read_byte_vec,
    read_fe_vec, read_u64_le, read_usize_vec, spec_encode_bytes, spec_encode_fe_vec,
    spec_encode_idx_vec, spec_read_byte_vec, spec_read_fe_vec, spec_read_idx_vec, spec_read_u64,
    write_byte_vec, write_fe_vec, write_u64_le, write_usize_vec,
};
use crate::field::FieldElement;
use crate::pairing::{spec_deferred_check_result, spec_g2_coords, verify_subproof_limbs, G2Point};

verus! {

/// Depth of the verification-key registry tree.  The recursive circuit's
/// path-verification logic has a fixed shape, so the tree is always built to
/// this depth whatever the number of distinct keys.
pub const VK_TREE_DEPTH: usize = 7;

/// Aggregation handles strictly fewer base proofs than this bound.
pub const MAX_PROOFS: usize = 256;

/// How many scalar-field limbs carry one base-field coordinate in the
/// foreign-field representation (68-bit limbs over a 254-bit field).
pub const NUM_LIMBS_FOR_IN_FIELD_REPRESENTATION: usize = 4;

/// Length of the limbed aggregate: two affine points, two coordinates each,
/// each coordinate in `NUM_LIMBS_FOR_IN_FIELD_REPRESENTATION` limbs.
pub const AGGR_LIMB_COUNT: usize = 4 * NUM_LIMBS_FOR_IN_FIELD_REPRESENTATION;

/// Why an aggregation or verification call rejected its inputs.
#[derive(Clone, Copy, PartialEq, Eq, Structural, Debug)]
pub enum AggregationError {
    /// The base-proof list was empty.
    EmptyProofList,
    /// The base-proof list held `MAX_PROOFS` or more proofs.
    TooManyProofs,
    /// The base proofs do not all declare the same public-input count.
    NumInputsMismatch,
    /// The limbed aggregate has the wrong length, a limb exceeds its width,
    /// a recombined coordinate overflows, or a decoded point is not on the
    /// curve.
    MalformedAggregate,
}

/// One base proof: its declared public-input count and the input values
/// themselves.  The proof material consumed by the proving system stays with
/// the collaborator; the aggregation protocol reads only these fields.
#[derive(Clone, Debug)]
pub struct BaseProof {
    pub num_inputs: usize,
    pub input_values: Vec<FieldElement>,
}

impl BaseProof {
    /// A base proof carries exactly as many input values as it declares.
    pub open spec fn wf(self) -> bool {
        self.input_values@.len() == self.num_inputs
    }
}

/// The persisted aggregation artifact.
#[derive(Clone, Debug)]
pub struct AggregatedProof {
    /// Opaque encoding of the recursive-circuit proof, as produced by the
    /// proving-system collaborator.
    pub proof: Vec<u8>,
    /// All base proofs' public inputs, row-major: the values of proof 0,
    /// then of proof 1, and so on.
    pub individual_vk_inputs: Vec<FieldElement>,
    /// The public-input count shared by every base proof.
    pub individual_num_inputs: usize,
    /// For each base proof, the index of its key in the registry tree.
    pub individual_vk_idxs: Vec<usize>,
    /// The limbed aggregate: x then y of the pairing-with-generator point,
    /// then x then y of the pairing-with-x point, each coordinate as
    /// `NUM_LIMBS_FOR_IN_FIELD_REPRESENTATION` limbs.
    pub aggr_limbs: Vec<FieldElement>,
}

/// The mathematical content of an [`AggregatedProof`].
pub struct AggregatedProofView {
    pub proof: Seq<u8>,
    pub individual_vk_inputs: Seq<FieldElement>,
    pub individual_num_inputs: usize,
    pub individual_vk_idxs: Seq<usize>,
    pub aggr_limbs: Seq<FieldElement>,
}

impl View for AggregatedProof {
    type V = AggregatedProofView;

    open spec fn view(&self) -> AggregatedProofView {
        AggregatedProofView {
            proof: self.proof@,
            individual_vk_inputs: self.individual_vk_inputs@,
            individual_num_inputs: self.individual_num_inputs,
            individual_vk_idxs: self.individual_vk_idxs@,
            aggr_limbs: self.aggr_limbs@,
        }
    }
}

impl AggregatedProofView {
    /// Shape invariant of a well-formed bundle: the flattened input vector
    /// holds the shared input count for each base proof, and the limbed
    /// aggregate covers two points' four coordinates.
    pub open spec fn wf(self) -> bool {
        &&& self.individual_vk_inputs.len() == self.individual_num_inputs
            * self.individual_vk_idxs.len()
        &&& self.aggr_limbs.len() == AGGR_LIMB_COUNT
    }

    /// Every length-prefixed field of the bundle fits its 8-byte prefix.
    pub open spec fn encodable(self) -> bool {
        &&& self.proof.len() <= u64::MAX
        &&& self.individual_vk_inputs.len() <= u64::MAX
        &&& self.aggr_limbs.len() <= u64::MAX
        &&& self.individual_vk_idxs.len() <= u64::MAX
    }
}

// ------------------------------------------------------------------
// Validation and assembly
// ------------------------------------------------------------------

/// Every proof in the list declares input count `n`.
pub open spec fn spec_all_num_inputs_match(proofs: Seq<BaseProof>, n: usize) -> bool {
    forall|i: int| 0 <= i < proofs.len() ==> proofs[i].num_inputs == n
}

/// Check the aggregation preconditions: the list is non-empty, holds fewer
/// than [`MAX_PROOFS`] proofs, and every proof declares the same number of
/// public inputs.  Returns that shared count.  Nothing else is touched
/// before these checks pass.
#[verifier::loop_isolation(false)]
pub fn validate_proof_list(proofs: &Vec<BaseProof>) -> (r: Result<usize, AggregationError>)
    ensures
        proofs@.len() == 0 ==> r == Err::<usize, AggregationError>(
            AggregationError::EmptyProofList,
        ),
        proofs@.len() >= MAX_PROOFS ==> r == Err::<usize, AggregationError>(
            AggregationError::TooManyProofs,
        ),
        0 < proofs@.len() < MAX_PROOFS ==> match r {
            Ok(n) => n == proofs@[0].num_inputs && spec_all_num_inputs_match(proofs@, n),
            Err(e) => e == AggregationError::NumInputsMismatch && !spec_all_num_inputs_match(
                proofs@,
                proofs@[0].num_inputs,
            ),
        },
{
    if proofs.len() == 0 {
        return Err(AggregationError::EmptyProofList);
    }
    if proofs.len() >= MAX_PROOFS {
        return Err(AggregationError::TooManyProofs);
    }
    let num_inputs = proofs[0].num_inputs;
    let n = proofs.len();
    let mut i: usize = 0;
    while i < n
        invariant
            i <= n,
            n == proofs@.len(),
            num_inputs == proofs@[0].num_inputs,
            forall|j: int| 0 <= j < i ==> proofs@[j].num_inputs == num_inputs,
        decreases n - i,
    {
        if proofs[i].num_inputs != num_inputs {
            return Err(AggregationError::NumInputsMismatch);
        }
        i = i + 1;
    }
    Ok(num_inputs)
}

/// The base proofs' public inputs laid out row-major.
pub open spec fn spec_flatten_inputs(proofs: Seq<BaseProof>) -> Seq<FieldElement>
    decreases proofs.len(),
{
    if proofs.len() == 0 {
        Seq::empty()
    } else {
        proofs.first().input_values@ + spec_flatten_inputs(proofs.drop_first())
    }
}

/// Appending one proof appends its input values.
pub proof fn lemma_flatten_inputs_push(proofs: Seq<BaseProof>, p: BaseProof)
    ensures
        spec_flatten_inputs(proofs.push(p)) == spec_flatten_inputs(proofs) + p.input_values@,
    decreases proofs.len(),
{
    let vp = proofs.push(p);
    if proofs.len() == 0 {
        assert(vp.drop_first() =~= Seq::<BaseProof>::empty());
        assert(vp.first() == p);
        assert(spec_flatten_inputs(vp) == p.input_values@ + spec_flatten_inputs(vp.drop_first()));
        assert(p.input_values@ + Seq::<FieldElement>::empty() =~= Seq::<FieldElement>::empty()
            + p.input_values@);
    } else {
        let a = proofs.first().input_values@;
        let rest = proofs.drop_first();
        assert(vp.drop_first() =~= rest.push(p));
        assert(vp.first() == proofs.first());
        lemma_flatten_inputs_push(rest, p);
        assert(spec_flatten_inputs(vp) == a + spec_flatten_inputs(vp.drop_first()));
        assert(spec_flatten_inputs(proofs) == a + spec_flatten_inputs(rest));
        assert(a + (spec_flatten_inputs(rest) + p.input_values@) =~= (a + spec_flatten_inputs(
            rest,
        )) + p.input_values@);
    }
}

/// When every proof carries `n` inputs, the flattened vector holds `n`
/// values per proof.
pub proof fn lemma_flatten_inputs_len(proofs: Seq<BaseProof>, n: usize)
    requires
        forall|i: int| 0 <= i < proofs.len() ==> #[trigger] proofs[i].wf(),
        spec_all_num_inputs_match(proofs, n),
    ensures
        spec_flatten_inputs(proofs).len() == n * proofs.len(),
    decreases proofs.len(),
{
    if proofs.len() == 0 {
        assert(n * 0 == 0) by (nonlinear_arith);
    } else {
        let rest = proofs.drop_first();
        assert(forall|i: int|
            0 <= i < rest.len() ==> rest[i] == proofs[i + 1] && #[trigger] rest[i].wf());
        lemma_flatten_inputs_len(rest, n);
        assert(proofs[0].wf());
        assert(n * proofs.len() == n + n * rest.len()) by (nonlinear_arith)
            requires
                proofs.len() == rest.len() + 1,
        ;
    }
}

/// Concatenate the base proofs' public inputs row-major.
#[verifier::loop_isolation(false)]
pub fn flatten_inputs(proofs: &Vec<BaseProof>) -> (r: Vec<FieldElement>)
    ensures
        r@ == spec_flatten_inputs(proofs@),
{
    let mut out: Vec<FieldElement> = Vec::new();
    let n = proofs.len();
    let mut i: usize = 0;
    while i < n
        invariant
            i <= n,
            out@ == spec_flatten_inputs(proofs@.take(i as int)),
        decreases n - i,
    {
        out.extend_from_slice(proofs[i].input_values.as_slice());
        proof {
            lemma_flatten_inputs_push(proofs@.take(i as int), proofs@[i as int]);
            assert(proofs@.take(i + 1) =~= proofs@.take(i as int).push(proofs@[i as int]));
        }
        i = i + 1;
    }
    assert(proofs@.take(n as int) =~= proofs@);
    out
}

/// One registry index per base proof, all pointing at leaf zero: every proof
/// here is checked against the single shared verification key.
pub fn zero_vk_indices(count: usize) -> (r: Vec<usize>)
    ensures
        r@.len() == count,
        forall|i: int| 0 <= i < count ==> r@[i] == 0,
{
    let mut out: Vec<usize> = Vec::new();
    let mut i: usize = 0;
    while i < count
        invariant
            i <= count,
            out@.len() == i,
            forall|j: int| 0 <= j < i ==> out@[j] == 0,
        decreases count - i,
    {
        out.push(0);
        i = i + 1;
    }
    out
}

/// The positions of one leaf's limb values inside the flattened witness
/// vector handed to the registry tree's membership query: `values_per_leaf`
/// consecutive positions starting at `proof_id * values_per_leaf`.
pub fn leaf_query_indices(proof_id: usize, values_per_leaf: usize) -> (r: Vec<usize>)
    requires
        (proof_id + 1) * values_per_leaf <= usize::MAX,
    ensures
        r@.len() == values_per_leaf,
        forall|j: int|
            0 <= j < values_per_leaf ==> r@[j] == proof_id * values_per_leaf + j,
{
    proof {
        assert((proof_id + 1) * values_per_leaf == proof_id * values_per_leaf + values_per_leaf)
            by (nonlinear_arith);
        assert(proof_id * values_per_leaf >= 0) by (nonlinear_arith);
    }
    let base = proof_id * values_per_leaf;
    let mut out: Vec<usize> = Vec::new();
    let mut j: usize = 0;
    while j < values_per_leaf
        invariant
            j <= values_per_leaf,
            base == proof_id * values_per_leaf,
            base + values_per_leaf <= usize::MAX,
            out@.len() == j,
            forall|k: int| 0 <= k < j ==> out@[k] == base + k,
        decreases values_per_leaf - j,
    {
        out.push(base + j);
        j = j + 1;
    }
    out
}

/// Assemble the aggregated bundle.  The recursive-circuit proof encoding and
/// the limbed aggregate come from the proving-system collaborator; this
/// function enforces the aggregation preconditions first and the aggregate's
/// shape second, and fails fast on either, producing nothing partial.
pub fn prove(
    old_proofs: &Vec<BaseProof>,
    recursive_proof: Vec<u8>,
    limbed_aggregate: Vec<FieldElement>,
) -> (r: Result<AggregatedProof, AggregationError>)
    requires
        forall|i: int| 0 <= i < old_proofs@.len() ==> #[trigger] old_proofs@[i].wf(),
    ensures
        old_proofs@.len() == 0 ==> r == Err::<AggregatedProof, AggregationError>(
            AggregationError::EmptyProofList,
        ),
        old_proofs@.len() >= MAX_PROOFS ==> r == Err::<AggregatedProof, AggregationError>(
            AggregationError::TooManyProofs,
        ),
        0 < old_proofs@.len() < MAX_PROOFS && !spec_all_num_inputs_match(
            old_proofs@,
            old_proofs@[0].num_inputs,
        ) ==> r == Err::<AggregatedProof, AggregationError>(AggregationError::NumInputsMismatch),
        0 < old_proofs@.len() < MAX_PROOFS && spec_all_num_inputs_match(
            old_proofs@,
            old_proofs@[0].num_inputs,
        ) && limbed_aggregate@.len() != AGGR_LIMB_COUNT ==> r == Err::<
            AggregatedProof,
            AggregationError,
        >(AggregationError::MalformedAggregate),
        0 < old_proofs@.len() < MAX_PROOFS && spec_all_num_inputs_match(
            old_proofs@,
            old_proofs@[0].num_inputs,
        ) && limbed_aggregate@.len() == AGGR_LIMB_COUNT ==> r is Ok,
        match r {
            Ok(ap) => {
                &&& 0 < old_proofs@.len() < MAX_PROOFS
                &&& spec_all_num_inputs_match(old_proofs@, old_proofs@[0].num_inputs)
                &&& ap@.proof == recursive_proof@
                &&& ap@.individual_vk_inputs == spec_flatten_inputs(old_proofs@)
                &&& ap@.individual_num_inputs == old_proofs@[0].num_inputs
                &&& ap@.individual_vk_idxs.len() == old_proofs@.len()
                &&& forall|i: int| 0 <= i < old_proofs@.len() ==> ap@.individual_vk_idxs[i] == 0
                &&& ap@.aggr_limbs == limbed_aggregate@
                &&& ap@.wf()
            },
            Err(_) => true,
        },
{
    let num_inputs = match validate_proof_list(old_proofs) {
        Ok(n) => n,
        Err(e) => {
            return Err(e);
        },
    };
    if limbed_aggregate.len() != AGGR_LIMB_COUNT {
        return Err(AggregationError::MalformedAggregate);
    }
    let individual_vk_inputs = flatten_inputs(old_proofs);
    let individual_vk_idxs = zero_vk_indices(old_proofs.len());
    proof {
        lemma_flatten_inputs_len(old_proofs@, num_inputs);
    }
    Ok(
        AggregatedProof {
            proof: recursive_proof,
            individual_vk_inputs,
            individual_num_inputs: num_inputs,
            individual_vk_idxs,
            aggr_limbs: limbed_aggregate,
        },
    )
}

/// Two-stage verification of an aggregated bundle, each stage a hard
/// precondition for the next.  The structural check — verifying the
/// recursive-circuit proof against its verification key under the proving
/// transcript — runs in the proving-system collaborator; its verdict is the
/// `recursive_proof_valid` argument.  A failed structural check returns
/// "invalid" at once, fails closed, and never reaches the pairing stage.
/// Only then is the deferred pairing equation evaluated on the bundle's
/// aggregate limbs against the two G2 basis elements of that key; a
/// malformed aggregate is a distinguishable error, never conflated with an
/// invalid proof.
pub fn verify(
    aggregated_proof: &AggregatedProof,
    recursive_proof_valid: bool,
    g2_0: &G2Point,
    g2_1: &G2Point,
) -> (r: Result<bool, AggregationError>)
    ensures
        !recursive_proof_valid ==> r == Ok::<bool, AggregationError>(false),
        recursive_proof_valid ==> r == spec_deferred_check_result(
            aggregated_proof@.aggr_limbs,
            spec_g2_coords(*g2_0, *g2_1),
        ),
{
    if !recursive_proof_valid {
        return Ok(false);
    }
    verify_subproof_limbs(aggregated_proof, g2_0, g2_1)
}

/// Recompute the single bound public input without proving, for callers
/// cross-checking an externally supplied aggregated input.  The binding
/// itself — a domain hash over the registry-tree root, the key indices, all
/// proofs' public inputs and the aggregate — is computed by the commitment
/// collaborator and handed in as `bound_input`; this function enforces the
/// same preconditions as [`prove`], rejecting exactly the proof lists that
/// aggregation would reject, and passes the collaborator's value through
/// unchanged.
pub fn get_aggregated_input(
    old_proofs: &Vec<BaseProof>,
    bound_input: FieldElement,
) -> (r: Result<FieldElement, AggregationError>)
    ensures
        old_proofs@.len() == 0 ==> r == Err::<FieldElement, AggregationError>(
            AggregationError::EmptyProofList,
        ),
        old_proofs@.len() >= MAX_PROOFS ==> r == Err::<FieldElement, AggregationError>(
            AggregationError::TooManyProofs,
        ),
        0 < old_proofs@.len() < MAX_PROOFS ==> if spec_all_num_inputs_match(
            old_proofs@,
            old_proofs@[0].num_inputs,
        ) {
            r == Ok::<FieldElement, AggregationError>(bound_input)
        } else {
            r == Err::<FieldElement, AggregationError>(AggregationError::NumInputsMismatch)
        },
{
    match validate_proof_list(old_proofs) {
        Ok(_) => Ok(bound_input),
        Err(e) => Err(e),
    }
}

// ------------------------------------------------------------------
// Canonical byte encoding of the bundle
// ------------------------------------------------------------------

/// Transport encoding: the opaque recursive proof, the flattened inputs, the
/// aggregate limbs and the key indices, each length-prefixed, then the
/// shared input count — all counts and integers as 8-byte little-endian.
pub open spec fn spec_encode_aggregated_proof(v: AggregatedProofView) -> Seq<u8> {
    spec_encode_bytes(v.proof) + spec_encode_fe_vec(v.individual_vk_inputs) + spec_encode_fe_vec(
        v.aggr_limbs,
    ) + spec_encode_idx_vec(v.individual_vk_idxs) + spec_u64_to_le_bytes(
        v.individual_num_inputs as u64,
    )
}

/// Decode a bundle at `pos`, field by field in the transport order.
pub open spec fn spec_read_aggregated_proof(b: Seq<u8>, pos: int) -> Option<
    (AggregatedProofView, int),
> {
    match spec_read_byte_vec(b, pos) {
        None => None,
        Some((proof, p1)) => match spec_read_fe_vec(b, p1) {
            None => None,
            Some((inputs, p2)) => match spec_read_fe_vec(b, p2) {
                None => None,
                Some((limbs, p3)) => match spec_read_idx_vec(b, p3) {
                    None => None,
                    Some((idxs, p4)) => match spec_read_u64(b, p4) {
                        None => None,
                        Some((ni, p5)) => if ni <= usize::MAX {
                            Some(
                                (
                                    AggregatedProofView {
                                        proof,
                                        individual_vk_inputs: inputs,
                                        individual_num_inputs: ni as usize,
                                        individual_vk_idxs: idxs,
                                        aggr_limbs: limbs,
                                    },
                                    p5,
                                ),
                            )
                        } else {
                            None
                        },
                    },
                },
            },
        },
    }
}

impl AggregatedProof {
    /// Append the bundle's canonical encoding to `out`.
    pub fn write(&self, out: &mut Vec<u8>)
        requires
            self@.encodable(),
        ensures
            final(out)@ == old(out)@ + spec_encode_aggregated_proof(self@),
    {
        write_byte_vec(&self.proof, out);
        write_fe_vec(&self.individual_vk_inputs, out);
        write_fe_vec(&self.aggr_limbs, out);
        write_usize_vec(&self.individual_vk_idxs, out);
        write_u64_le(self.individual_num_inputs as u64, out);
        assert(out@ =~= old(out)@ + spec_encode_aggregated_proof(self@));
    }

    /// Decode a bundle from the canonical encoding starting at `pos`,
    /// returning it and the position just past it.
    pub fn read(b: &Vec<u8>, pos: usize) -> (r: Option<(AggregatedProof, usize)>)
        ensures
            match r {
                Some((ap, p)) => spec_read_aggregated_proof(b@, pos as int) == Some(
                    (ap@, p as int),
                ) && p <= b@.len(),
                None => spec_read_aggregated_proof(b@, pos as int) is None,
            },
    {
        let (proof, p1) = match read_byte_vec(b, pos) {
            None => {
                return None;
            },
            Some(x) => x,
        };
        let (inputs, p2) = match read_fe_vec(b, p1) {
            None => {
                return None;
            },
            Some(x) => x,
        };
        let (limbs, p3) = match read_fe_vec(b, p2) {
            None => {
                return None;
            },
            Some(x) => x,
        };
        let (idxs, p4) = match read_usize_vec(b, p3) {
            None => {
                return None;
            },
            Some(x) => x,
        };
        let (ni, p5) = match read_u64_le(b, p4) {
            None => {
                return None;
            },
            Some(x) => x,
        };
        if ni > usize::MAX as u64 {
            return None;
        }
        Some(
            (
                AggregatedProof {
                    proof,
                    individual_vk_inputs: inputs,
                    individual_num_inputs: ni as usize,
                    individual_vk_idxs: idxs,
                    aggr_limbs: limbs,
                },
                p5,
            ),
        )
    }
}

/// Decoding the canonical encoding of any bundle, at any position inside any
/// byte string that contains it, yields that bundle, field by field, and
/// consumes exactly its bytes.
pub proof fn lemma_aggregated_proof_round_trip_at(v: AggregatedProofView, b: Seq<u8>, pos: int)
    requires
        0 <= pos,
        v.encodable(),
        pos + spec_encode_aggregated_proof(v).len() <= b.len(),
        b.subrange(pos, pos + spec_encode_aggregated_proof(v).len())
            == spec_encode_aggregated_proof(v),
    ensures
        spec_read_aggregated_proof(b, pos) == Some(
            (v, pos + spec_encode_aggregated_proof(v).len()),
        ),
{
    lemma_auto_spec_u64_to_from_le_bytes();
    lemma_fe_seq_bytes_len(v.individual_vk_inputs);
    lemma_fe_seq_bytes_len(v.aggr_limbs);
    lemma_idx_seq_bytes_len(v.individual_vk_idxs);
    let e1 = spec_encode_bytes(v.proof);
    let e2 = spec_encode_fe_vec(v.individual_vk_inputs);
    let e3 = spec_encode_fe_vec(v.aggr_limbs);
    let e4 = spec_encode_idx_vec(v.individual_vk_idxs);
    let e5 = spec_u64_to_le_bytes(v.individual_num_inputs as u64);
    let enc = spec_encode_aggregated_proof(v);
    let l1 = e1.len() as int;
    let l2 = e2.len() as int;
    let l3 = e3.len() as int;
    let l4 = e4.len() as int;
    let l5 = e5.len() as int;
    assert(enc.len() == l1 + l2 + l3 + l4 + l5);
    assert forall|t: int| 0 <= t < enc.len() implies b[pos + t] == enc[t] by {
        assert(b.subrange(pos, pos + enc.len() as int)[t] == b[pos + t]);
    }
    let p2 = e1 + e2;
    let p3 = p2 + e3;
    let p4 = p3 + e4;
    assert(enc == p4 + e5);
    assert forall|t: int| 0 <= t < l2 implies enc[l1 + t] == e2[t] by {
        assert((p4 + e5)[l1 + t] == p4[l1 + t]);
        assert(p4[l1 + t] == p3[l1 + t]);
        assert(p3[l1 + t] == p2[l1 + t]);
        assert(p2[l1 + t] == e2[t]);
    }
    assert forall|t: int| 0 <= t < l3 implies enc[l1 + l2 + t] == e3[t] by {
        assert((p4 + e5)[l1 + l2 + t] == p4[l1 + l2 + t]);
        assert(p4[l1 + l2 + t] == p3[l1 + l2 + t]);
        assert(p3[l1 + l2 + t] == e3[t]);
    }
    assert forall|t: int| 0 <= t < l4 implies enc[l1 + l2 + l3 + t] == e4[t] by {
        assert((p4 + e5)[l1 + l2 + l3 + t] == p4[l1 + l2 + l3 + t]);
        assert(p4[l1 + l2 + l3 + t] == e4[t]);
    }
    assert forall|t: int| 0 <= t < l5 implies enc[l1 + l2 + l3 + l4 + t] == e5[t] by {
        assert((p4 + e5)[l1 + l2 + l3 + l4 + t] == e5[t]);
    }
    assert(b.subrange(pos, pos + l1) =~= e1);
    assert(b.subrange(pos + l1, pos + l1 + l2) =~= e2);
    assert(b.subrange(pos + l1 + l2, pos + l1 + l2 + l3) =~= e3);
    assert(b.subrange(pos + l1 + l2 + l3, pos + l1 + l2 + l3 + l4) =~= e4);
    assert(b.subrange(pos + l1 + l2 + l3 + l4, pos + l1 + l2 + l3 + l4 + l5) =~= e5);
    lemma_byte_vec_round_trip(v.proof, b, pos);
    lemma_fe_vec_round_trip(v.individual_vk_inputs, b, pos + l1);
    lemma_fe_vec_round_trip(v.aggr_limbs, b, pos + l1 + l2);
    lemma_idx_vec_round_trip(v.individual_vk_idxs, b, pos + l1 + l2 + l3);
    lemma_u64_round_trip(v.individual_num_inputs as u64, b, pos + l1 + l2 + l3 + l4);
    assert(((v.individual_num_inputs as u64) as usize) == v.individual_num_inputs);
}

/// Round trip: decoding the canonical encoding of any bundle reproduces the
/// bundle in all five fields.
pub proof fn lemma_aggregated_proof_round_trip(v: AggregatedProofView)
    requires
        v.encodable(),
    ensures
        spec_read_aggregated_proof(spec_encode_aggregated_proof(v), 0) == Some(
            (v, spec_encode_aggregated_proof(v).len() as int),
        ),
{
    let enc = spec_encode_aggregated_proof(v);
    assert(enc.subrange(0, enc.len() as int) =~= enc);
    lemma_aggregated_proof_round_trip_at(v, enc, 0);
}

} // verus!
