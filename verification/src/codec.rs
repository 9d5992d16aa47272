//! Byte-level primitives of the transport format: little-endian 8-byte
//! integers and length-prefixed sequences of bytes, field elements and
//! indices.  Every exec reader and writer is proved against a spec-level
//! encoder/decoder pair, and each pair carries a round-trip lemma.
use vstd::prelude::*;
use vstd::bytes::{
    lemma_auto_spec_u64_to_from_le_bytes, spec_u64_from_le_bytes, spec_u64_to_le_bytes,
    u64_from_le_bytes, u64_to_le_bytes,
};
use vstd::slice::{slice_subrange, slice_to_vec};
use crate::field::{
    lemma_field_element_bytes_round_trip, read_field_element, spec_field_element_from_bytes,
    spec_field_element_to_bytes, write_field_element, FieldElement,
};

verus! {

// ------------------------------------------------------------------
// 8-byte little-endian integers
// ------------------------------------------------------------------

/// Decode an 8-byte little-endian integer at `pos`.
pub open spec fn spec_read_u64(b: Seq<u8>, pos: int) -> Option<(u64, int)> {
    if 0 <= pos && pos + 8 <= b.len() {
        Some((spec_u64_from_le_bytes(b.subrange(pos, pos + 8)), pos + 8))
    } else {
        None
    }
}

/// Append `x` as eight little-endian bytes.
pub fn write_u64_le(x: u64, out: &mut Vec<u8>)
    ensures
        final(out)@ == old(out)@ + spec_u64_to_le_bytes(x),
{
    let mut b = u64_to_le_bytes(x);
    out.append(&mut b);
}

/// Read eight little-endian bytes at `pos` as an integer.
pub fn read_u64_le(b: &Vec<u8>, pos: usize) -> (r: Option<(u64, usize)>)
    ensures
        match r {
            Some((x, p)) => spec_read_u64(b@, pos as int) == Some((x, p as int)) && p <= b@.len(),
            None => spec_read_u64(b@, pos as int) is None,
        },
{
    if b.len() < 8 || pos > b.len() - 8 {
        return None;
    }
    let x = u64_from_le_bytes(slice_subrange(b.as_slice(), pos, pos + 8));
    Some((x, pos + 8))
}

/// An 8-byte integer written and read back is unchanged, and reading stops
/// exactly after its eight bytes, whatever follows them.
pub proof fn lemma_u64_round_trip(x: u64, b: Seq<u8>, pos: int)
    requires
        0 <= pos,
        pos + 8 <= b.len(),
        b.subrange(pos, pos + 8) == spec_u64_to_le_bytes(x),
    ensures
        spec_read_u64(b, pos) == Some((x, pos + 8)),
{
    lemma_auto_spec_u64_to_from_le_bytes();
}

// ------------------------------------------------------------------
// Length-prefixed raw bytes
// ------------------------------------------------------------------

/// Encoding of an opaque byte string: an 8-byte count, then the bytes.
pub open spec fn spec_encode_bytes(v: Seq<u8>) -> Seq<u8> {
    spec_u64_to_le_bytes(v.len() as u64) + v
}

/// Decode a length-prefixed byte string at `pos`.
pub open spec fn spec_read_byte_vec(b: Seq<u8>, pos: int) -> Option<(Seq<u8>, int)> {
    match spec_read_u64(b, pos) {
        None => None,
        Some((n, p)) => if p + n <= b.len() {
            Some((b.subrange(p, p + n), p + n))
        } else {
            None
        },
    }
}

/// Append the length-prefixed encoding of `v`.
pub fn write_byte_vec(v: &Vec<u8>, out: &mut Vec<u8>)
    requires
        v@.len() <= u64::MAX,
    ensures
        final(out)@ == old(out)@ + spec_encode_bytes(v@),
{
    write_u64_le(v.len() as u64, out);
    out.extend_from_slice(v.as_slice());
    assert(out@ =~= old(out)@ + spec_encode_bytes(v@));
}

/// Read a length-prefixed byte string at `pos`.
pub fn read_byte_vec(b: &Vec<u8>, pos: usize) -> (r: Option<(Vec<u8>, usize)>)
    ensures
        match r {
            Some((v, p)) => spec_read_byte_vec(b@, pos as int) == Some((v@, p as int)) && p
                <= b@.len(),
            None => spec_read_byte_vec(b@, pos as int) is None,
        },
{
    let (n, p) = match read_u64_le(b, pos) {
        None => {
            return None;
        },
        Some(np) => np,
    };
    if n > (b.len() - p) as u64 {
        return None;
    }
    let n = n as usize;
    let v = slice_to_vec(slice_subrange(b.as_slice(), p, p + n));
    Some((v, p + n))
}

/// A byte string written and read back is unchanged.
pub proof fn lemma_byte_vec_round_trip(v: Seq<u8>, b: Seq<u8>, pos: int)
    requires
        0 <= pos,
        v.len() <= u64::MAX,
        pos + spec_encode_bytes(v).len() <= b.len(),
        b.subrange(pos, pos + spec_encode_bytes(v).len()) == spec_encode_bytes(v),
    ensures
        spec_encode_bytes(v).len() == 8 + v.len(),
        spec_read_byte_vec(b, pos) == Some((v, pos + 8 + v.len())),
{
    lemma_auto_spec_u64_to_from_le_bytes();
    let enc = spec_encode_bytes(v);
    assert(b.subrange(pos, pos + 8) =~= enc.subrange(0, 8));
    assert(enc.subrange(0, 8) =~= spec_u64_to_le_bytes(v.len() as u64));
    lemma_u64_round_trip(v.len() as u64, b, pos);
    assert(b.subrange(pos + 8, pos + 8 + v.len()) =~= enc.subrange(8, enc.len() as int));
    assert(enc.subrange(8, enc.len() as int) =~= v);
}

// ------------------------------------------------------------------
// Sequences of field elements
// ------------------------------------------------------------------

/// Back-to-back canonical encodings of the elements of `v`.
pub open spec fn spec_fe_seq_bytes(v: Seq<FieldElement>) -> Seq<u8>
    decreases v.len(),
{
    if v.len() == 0 {
        Seq::empty()
    } else {
        spec_field_element_to_bytes(v.first()) + spec_fe_seq_bytes(v.drop_first())
    }
}

/// Appending one element appends its 32 bytes.
pub proof fn lemma_fe_seq_bytes_push(v: Seq<FieldElement>, f: FieldElement)
    ensures
        spec_fe_seq_bytes(v.push(f)) == spec_fe_seq_bytes(v) + spec_field_element_to_bytes(f),
    decreases v.len(),
{
    lemma_field_element_bytes_round_trip(f);
    let vp = v.push(f);
    let fb = spec_field_element_to_bytes(f);
    if v.len() == 0 {
        assert(vp.drop_first() =~= Seq::<FieldElement>::empty());
        assert(vp.first() == f);
        assert(spec_fe_seq_bytes(vp) == fb + spec_fe_seq_bytes(vp.drop_first()));
        assert(fb + Seq::<u8>::empty() =~= Seq::<u8>::empty() + fb);
    } else {
        let a = spec_field_element_to_bytes(v.first());
        let rest = v.drop_first();
        assert(vp.drop_first() =~= rest.push(f));
        assert(vp.first() == v.first());
        lemma_fe_seq_bytes_push(rest, f);
        assert(spec_fe_seq_bytes(vp) == a + spec_fe_seq_bytes(vp.drop_first()));
        assert(spec_fe_seq_bytes(v) == a + spec_fe_seq_bytes(rest));
        assert(a + (spec_fe_seq_bytes(rest) + fb) =~= (a + spec_fe_seq_bytes(rest)) + fb);
    }
}

/// The encoding of `v` takes exactly 32 bytes per element.
pub proof fn lemma_fe_seq_bytes_len(v: Seq<FieldElement>)
    ensures
        spec_fe_seq_bytes(v).len() == 32 * v.len(),
    decreases v.len(),
{
    if v.len() > 0 {
        lemma_field_element_bytes_round_trip(v.first());
        lemma_fe_seq_bytes_len(v.drop_first());
    }
}

/// Decode `count` consecutive field elements starting at `pos`.
pub open spec fn spec_read_fe_seq(b: Seq<u8>, pos: int, count: nat) -> Option<
    (Seq<FieldElement>, int),
>
    decreases count,
{
    if count == 0 {
        Some((Seq::empty(), pos))
    } else if 0 <= pos && pos + 32 <= b.len() {
        let f = spec_field_element_from_bytes(b.subrange(pos, pos + 32));
        match spec_read_fe_seq(b, pos + 32, (count - 1) as nat) {
            None => None,
            Some((s, p)) => Some((seq![f] + s, p)),
        }
    } else {
        None
    }
}

/// A sequence of elements written and read back is unchanged.
pub proof fn lemma_fe_seq_round_trip(v: Seq<FieldElement>, b: Seq<u8>, pos: int)
    requires
        0 <= pos,
        pos + 32 * v.len() <= b.len(),
        b.subrange(pos, pos + 32 * v.len()) == spec_fe_seq_bytes(v),
    ensures
        spec_read_fe_seq(b, pos, v.len()) == Some((v, pos + 32 * v.len())),
    decreases v.len(),
{
    lemma_fe_seq_bytes_len(v);
    if v.len() == 0 {
        assert(spec_read_fe_seq(b, pos, 0) == Some((Seq::<FieldElement>::empty(), pos)));
        assert(v =~= Seq::<FieldElement>::empty());
    } else {
        let rest = v.drop_first();
        lemma_fe_seq_bytes_len(rest);
        lemma_field_element_bytes_round_trip(v.first());
        let enc = spec_fe_seq_bytes(v);
        assert(b.subrange(pos, pos + 32) =~= enc.subrange(0, 32));
        assert(enc.subrange(0, 32) =~= spec_field_element_to_bytes(v.first()));
        assert(spec_field_element_from_bytes(b.subrange(pos, pos + 32)) == v.first());
        assert(b.subrange(pos + 32, pos + 32 + 32 * rest.len()) =~= enc.subrange(
            32,
            enc.len() as int,
        ));
        assert(enc.subrange(32, enc.len() as int) =~= spec_fe_seq_bytes(rest));
        lemma_fe_seq_round_trip(rest, b, pos + 32);
        assert(seq![v.first()] + rest =~= v);
    }
}

/// Encoding of a field-element vector: an 8-byte count, then the elements.
pub open spec fn spec_encode_fe_vec(v: Seq<FieldElement>) -> Seq<u8> {
    spec_u64_to_le_bytes(v.len() as u64) + spec_fe_seq_bytes(v)
}

/// Decode a length-prefixed field-element vector at `pos`.
pub open spec fn spec_read_fe_vec(b: Seq<u8>, pos: int) -> Option<(Seq<FieldElement>, int)> {
    match spec_read_u64(b, pos) {
        None => None,
        Some((n, p)) => spec_read_fe_seq(b, p, n as nat),
    }
}

/// Append the length-prefixed encoding of `v`.
#[verifier::loop_isolation(false)]
pub fn write_fe_vec(v: &Vec<FieldElement>, out: &mut Vec<u8>)
    requires
        v@.len() <= u64::MAX,
    ensures
        final(out)@ == old(out)@ + spec_encode_fe_vec(v@),
{
    write_u64_le(v.len() as u64, out);
    let ghost base = out@;
    let n = v.len();
    let mut i: usize = 0;
    while i < n
        invariant
            i <= n,
            n == v@.len(),
            out@ == base + spec_fe_seq_bytes(v@.take(i as int)),
        decreases n - i,
    {
        write_field_element(&v[i], out);
        proof {
            lemma_fe_seq_bytes_push(v@.take(i as int), v@[i as int]);
            assert(v@.take(i + 1) =~= v@.take(i as int).push(v@[i as int]));
        }
        i = i + 1;
    }
    assert(v@.take(n as int) =~= v@);
    assert(out@ =~= old(out)@ + spec_encode_fe_vec(v@));
}

/// Read a length-prefixed field-element vector at `pos`.
#[verifier::loop_isolation(false)]
pub fn read_fe_vec(b: &Vec<u8>, pos: usize) -> (r: Option<(Vec<FieldElement>, usize)>)
    ensures
        match r {
            Some((v, p)) => spec_read_fe_vec(b@, pos as int) == Some((v@, p as int)) && p
                <= b@.len(),
            None => spec_read_fe_vec(b@, pos as int) is None,
        },
{
    let (n, start) = match read_u64_le(b, pos) {
        None => {
            return None;
        },
        Some(np) => np,
    };
    let mut acc: Vec<FieldElement> = Vec::new();
    let mut cur = start;
    let mut i: u64 = 0;
    while i < n
        invariant
            i <= n,
            cur <= b@.len(),
            spec_read_fe_seq(b@, start as int, n as nat) == spec_prepend_fe(
                acc@,
                spec_read_fe_seq(b@, cur as int, (n - i) as nat),
            ),
            acc@.len() == i,
        decreases n - i,
    {
        let ghost before = spec_read_fe_seq(b@, cur as int, (n - i) as nat);
        match read_field_element(b, cur) {
            None => {
                proof {
                    assert(before is None);
                }
                return None;
            },
            Some((f, p)) => {
                proof {
                    assert(cur + 32 <= b@.len());
                    assert(p == cur + 32);
                    assert(f == spec_field_element_from_bytes(b@.subrange(cur as int, cur + 32)));
                    let inner = spec_read_fe_seq(b@, cur + 32, (n - i - 1) as nat);
                    if inner is Some {
                        let (s, e) = inner.unwrap();
                        assert(before == Some((seq![f] + s, e)));
                        assert(acc@ + (seq![f] + s) =~= acc@.push(f) + s);
                    } else {
                        assert(before is None);
                    }
                }
                acc.push(f);
                cur = p;
            },
        }
        i = i + 1;
    }
    assert(spec_read_fe_seq(b@, cur as int, 0) == Some((Seq::<FieldElement>::empty(), cur as int)));
    assert(acc@ + Seq::<FieldElement>::empty() =~= acc@);
    Some((acc, cur))
}

/// Prefix the element sequence of a partial decode with already-read elements.
pub open spec fn spec_prepend_fe(
    acc: Seq<FieldElement>,
    r: Option<(Seq<FieldElement>, int)>,
) -> Option<(Seq<FieldElement>, int)> {
    match r {
        None => None,
        Some((s, p)) => Some((acc + s, p)),
    }
}

/// A field-element vector written and read back is unchanged.
pub proof fn lemma_fe_vec_round_trip(v: Seq<FieldElement>, b: Seq<u8>, pos: int)
    requires
        0 <= pos,
        v.len() <= u64::MAX,
        pos + spec_encode_fe_vec(v).len() <= b.len(),
        b.subrange(pos, pos + spec_encode_fe_vec(v).len()) == spec_encode_fe_vec(v),
    ensures
        spec_encode_fe_vec(v).len() == 8 + 32 * v.len(),
        spec_read_fe_vec(b, pos) == Some((v, pos + 8 + 32 * v.len())),
{
    lemma_auto_spec_u64_to_from_le_bytes();
    lemma_fe_seq_bytes_len(v);
    let enc = spec_encode_fe_vec(v);
    assert(b.subrange(pos, pos + 8) =~= enc.subrange(0, 8));
    assert(enc.subrange(0, 8) =~= spec_u64_to_le_bytes(v.len() as u64));
    lemma_u64_round_trip(v.len() as u64, b, pos);
    assert(b.subrange(pos + 8, pos + 8 + 32 * v.len()) =~= enc.subrange(8, enc.len() as int));
    assert(enc.subrange(8, enc.len() as int) =~= spec_fe_seq_bytes(v));
    lemma_fe_seq_round_trip(v, b, pos + 8);
}

// ------------------------------------------------------------------
// Sequences of indices
// ------------------------------------------------------------------

/// Back-to-back 8-byte little-endian encodings of the indices of `v`.
pub open spec fn spec_idx_seq_bytes(v: Seq<usize>) -> Seq<u8>
    decreases v.len(),
{
    if v.len() == 0 {
        Seq::empty()
    } else {
        spec_u64_to_le_bytes(v.first() as u64) + spec_idx_seq_bytes(v.drop_first())
    }
}

/// Appending one index appends its eight bytes.
pub proof fn lemma_idx_seq_bytes_push(v: Seq<usize>, x: usize)
    ensures
        spec_idx_seq_bytes(v.push(x)) == spec_idx_seq_bytes(v) + spec_u64_to_le_bytes(x as u64),
    decreases v.len(),
{
    lemma_auto_spec_u64_to_from_le_bytes();
    let vp = v.push(x);
    let xb = spec_u64_to_le_bytes(x as u64);
    if v.len() == 0 {
        assert(vp.drop_first() =~= Seq::<usize>::empty());
        assert(vp.first() == x);
        assert(spec_idx_seq_bytes(vp) == xb + spec_idx_seq_bytes(vp.drop_first()));
        assert(xb + Seq::<u8>::empty() =~= Seq::<u8>::empty() + xb);
    } else {
        let a = spec_u64_to_le_bytes(v.first() as u64);
        let rest = v.drop_first();
        assert(vp.drop_first() =~= rest.push(x));
        assert(vp.first() == v.first());
        lemma_idx_seq_bytes_push(rest, x);
        assert(spec_idx_seq_bytes(vp) == a + spec_idx_seq_bytes(vp.drop_first()));
        assert(spec_idx_seq_bytes(v) == a + spec_idx_seq_bytes(rest));
        assert(a + (spec_idx_seq_bytes(rest) + xb) =~= (a + spec_idx_seq_bytes(rest)) + xb);
    }
}

/// The encoding of `v` takes exactly 8 bytes per index.
pub proof fn lemma_idx_seq_bytes_len(v: Seq<usize>)
    ensures
        spec_idx_seq_bytes(v).len() == 8 * v.len(),
    decreases v.len(),
{
    lemma_auto_spec_u64_to_from_le_bytes();
    if v.len() > 0 {
        lemma_idx_seq_bytes_len(v.drop_first());
    }
}

/// Decode `count` consecutive indices starting at `pos`.  An entry that does
/// not fit the machine's index type makes the decode fail.
pub open spec fn spec_read_idx_seq(b: Seq<u8>, pos: int, count: nat) -> Option<(Seq<usize>, int)>
    decreases count,
{
    if count == 0 {
        Some((Seq::empty(), pos))
    } else {
        match spec_read_u64(b, pos) {
            None => None,
            Some((x, p)) => if x <= usize::MAX {
                match spec_read_idx_seq(b, p, (count - 1) as nat) {
                    None => None,
                    Some((s, e)) => Some((seq![x as usize] + s, e)),
                }
            } else {
                None
            },
        }
    }
}

/// A sequence of indices written and read back is unchanged.
pub proof fn lemma_idx_seq_round_trip(v: Seq<usize>, b: Seq<u8>, pos: int)
    requires
        0 <= pos,
        pos + 8 * v.len() <= b.len(),
        b.subrange(pos, pos + 8 * v.len()) == spec_idx_seq_bytes(v),
    ensures
        spec_read_idx_seq(b, pos, v.len()) == Some((v, pos + 8 * v.len())),
    decreases v.len(),
{
    lemma_auto_spec_u64_to_from_le_bytes();
    lemma_idx_seq_bytes_len(v);
    if v.len() == 0 {
        assert(v =~= Seq::<usize>::empty());
    } else {
        let rest = v.drop_first();
        lemma_idx_seq_bytes_len(rest);
        let enc = spec_idx_seq_bytes(v);
        assert(b.subrange(pos, pos + 8) =~= enc.subrange(0, 8));
        assert(enc.subrange(0, 8) =~= spec_u64_to_le_bytes(v.first() as u64));
        lemma_u64_round_trip(v.first() as u64, b, pos);
        assert(b.subrange(pos + 8, pos + 8 + 8 * rest.len()) =~= enc.subrange(
            8,
            enc.len() as int,
        ));
        assert(enc.subrange(8, enc.len() as int) =~= spec_idx_seq_bytes(rest));
        lemma_idx_seq_round_trip(rest, b, pos + 8);
        assert(seq![v.first()] + rest =~= v);
    }
}

/// Encoding of an index vector: an 8-byte count, then the indices.
pub open spec fn spec_encode_idx_vec(v: Seq<usize>) -> Seq<u8> {
    spec_u64_to_le_bytes(v.len() as u64) + spec_idx_seq_bytes(v)
}

/// Decode a length-prefixed index vector at `pos`.
pub open spec fn spec_read_idx_vec(b: Seq<u8>, pos: int) -> Option<(Seq<usize>, int)> {
    match spec_read_u64(b, pos) {
        None => None,
        Some((n, p)) => spec_read_idx_seq(b, p, n as nat),
    }
}

/// Append the length-prefixed encoding of `v`.
#[verifier::loop_isolation(false)]
pub fn write_usize_vec(v: &Vec<usize>, out: &mut Vec<u8>)
    requires
        v@.len() <= u64::MAX,
    ensures
        final(out)@ == old(out)@ + spec_encode_idx_vec(v@),
{
    write_u64_le(v.len() as u64, out);
    let ghost base = out@;
    let n = v.len();
    let mut i: usize = 0;
    while i < n
        invariant
            i <= n,
            n == v@.len(),
            out@ == base + spec_idx_seq_bytes(v@.take(i as int)),
        decreases n - i,
    {
        write_u64_le(v[i] as u64, out);
        proof {
            lemma_idx_seq_bytes_push(v@.take(i as int), v@[i as int]);
            assert(v@.take(i + 1) =~= v@.take(i as int).push(v@[i as int]));
        }
        i = i + 1;
    }
    assert(v@.take(n as int) =~= v@);
    assert(out@ =~= old(out)@ + spec_encode_idx_vec(v@));
}

/// Prefix the index sequence of a partial decode with already-read indices.
pub open spec fn spec_prepend_idx(acc: Seq<usize>, r: Option<(Seq<usize>, int)>) -> Option<
    (Seq<usize>, int),
> {
    match r {
        None => None,
        Some((s, p)) => Some((acc + s, p)),
    }
}

/// Read a length-prefixed index vector at `pos`.
#[verifier::loop_isolation(false)]
pub fn read_usize_vec(b: &Vec<u8>, pos: usize) -> (r: Option<(Vec<usize>, usize)>)
    ensures
        match r {
            Some((v, p)) => spec_read_idx_vec(b@, pos as int) == Some((v@, p as int)) && p
                <= b@.len(),
            None => spec_read_idx_vec(b@, pos as int) is None,
        },
{
    let (n, start) = match read_u64_le(b, pos) {
        None => {
            return None;
        },
        Some(np) => np,
    };
    let mut acc: Vec<usize> = Vec::new();
    let mut cur = start;
    let mut i: u64 = 0;
    while i < n
        invariant
            i <= n,
            cur <= b@.len(),
            spec_read_idx_seq(b@, start as int, n as nat) == spec_prepend_idx(
                acc@,
                spec_read_idx_seq(b@, cur as int, (n - i) as nat),
            ),
            acc@.len() == i,
        decreases n - i,
    {
        let ghost before = spec_read_idx_seq(b@, cur as int, (n - i) as nat);
        match read_u64_le(b, cur) {
            None => {
                proof {
                    assert(before is None);
                }
                return None;
            },
            Some((x, p)) => {
                if x > usize::MAX as u64 {
                    proof {
                        assert(before is None);
                    }
                    return None;
                }
                proof {
                    let inner = spec_read_idx_seq(b@, p as int, (n - i - 1) as nat);
                    if inner is Some {
                        let (s, e) = inner.unwrap();
                        assert(before == Some((seq![(x as usize)] + s, e)));
                        assert(acc@ + (seq![(x as usize)] + s) =~= acc@.push(x as usize) + s);
                    }
                }
                acc.push(x as usize);
                cur = p;
            },
        }
        i = i + 1;
    }
    assert(spec_read_idx_seq(b@, cur as int, 0) == Some((Seq::<usize>::empty(), cur as int)));
    assert(acc@ + Seq::<usize>::empty() =~= acc@);
    Some((acc, cur))
}

/// An index vector written and read back is unchanged.
pub proof fn lemma_idx_vec_round_trip(v: Seq<usize>, b: Seq<u8>, pos: int)
    requires
        0 <= pos,
        v.len() <= u64::MAX,
        pos + spec_encode_idx_vec(v).len() <= b.len(),
        b.subrange(pos, pos + spec_encode_idx_vec(v).len()) == spec_encode_idx_vec(v),
    ensures
        spec_encode_idx_vec(v).len() == 8 + 8 * v.len(),
        spec_read_idx_vec(b, pos) == Some((v, pos + 8 + 8 * v.len())),
{
    lemma_auto_spec_u64_to_from_le_bytes();
    lemma_idx_seq_bytes_len(v);
    let enc = spec_encode_idx_vec(v);
    assert(b.subrange(pos, pos + 8) =~= enc.subrange(0, 8));
    assert(enc.subrange(0, 8) =~= spec_u64_to_le_bytes(v.len() as u64));
    lemma_u64_round_trip(v.len() as u64, b, pos);
    assert(b.subrange(pos + 8, pos + 8 + 8 * v.len()) =~= enc.subrange(8, enc.len() as int));
    assert(enc.subrange(8, enc.len() as int) =~= spec_idx_seq_bytes(v));
    lemma_idx_seq_round_trip(v, b, pos + 8);
}

} // verus!
