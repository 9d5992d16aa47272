//! Limb-encoded field elements and their canonical byte encoding.
use vstd::prelude::*;
use vstd::bytes::{
    lemma_auto_spec_u64_to_from_le_bytes, spec_u64_from_le_bytes, spec_u64_to_le_bytes,
    u64_from_le_bytes, u64_to_le_bytes,
};
use vstd::slice::slice_subrange;

verus! {

/// A 256-bit field element held as four 64-bit limbs, least-significant limb
/// first.  The same representation carries both scalar-field values (the
/// entries of input and limb vectors of an aggregated proof) and base-field
/// curve coordinates recombined from those limbs.
#[derive(Clone, Copy, PartialEq, Eq, Structural, Debug)]
pub struct FieldElement {
    pub w0: u64,
    pub w1: u64,
    pub w2: u64,
    pub w3: u64,
}

impl FieldElement {
    /// The integer this element represents.
    pub open spec fn value(self) -> nat {
        (self.w0 as nat) + (self.w1 as nat) * 0x1_0000_0000_0000_0000
            + (self.w2 as nat) * 0x1_0000_0000_0000_0000_0000_0000_0000_0000
            + (self.w3 as nat) * 0x1_0000_0000_0000_0000_0000_0000_0000_0000_0000_0000_0000_0000
    }

    /// The four limbs as an array, least-significant first.
    pub fn limb_words(&self) -> (r: [u64; 4])
        ensures
            r@ == seq![self.w0, self.w1, self.w2, self.w3],
    {
        [self.w0, self.w1, self.w2, self.w3]
    }
}

/// Canonical encoding of a field element: the four limbs, least-significant
/// first, each as eight little-endian bytes (32 bytes in all).
pub open spec fn spec_field_element_to_bytes(f: FieldElement) -> Seq<u8> {
    spec_u64_to_le_bytes(f.w0) + spec_u64_to_le_bytes(f.w1) + spec_u64_to_le_bytes(f.w2)
        + spec_u64_to_le_bytes(f.w3)
}

/// The field element denoted by 32 bytes of the canonical encoding.
pub open spec fn spec_field_element_from_bytes(s: Seq<u8>) -> FieldElement
    recommends
        s.len() == 32,
{
    FieldElement {
        w0: spec_u64_from_le_bytes(s.subrange(0, 8)),
        w1: spec_u64_from_le_bytes(s.subrange(8, 16)),
        w2: spec_u64_from_le_bytes(s.subrange(16, 24)),
        w3: spec_u64_from_le_bytes(s.subrange(24, 32)),
    }
}

/// The canonical byte encoding is 32 bytes long and decoding inverts it.
pub proof fn lemma_field_element_bytes_round_trip(f: FieldElement)
    ensures
        spec_field_element_to_bytes(f).len() == 32,
        spec_field_element_from_bytes(spec_field_element_to_bytes(f)) == f,
{
    lemma_auto_spec_u64_to_from_le_bytes();
    let b = spec_field_element_to_bytes(f);
    assert(b.subrange(0, 8) =~= spec_u64_to_le_bytes(f.w0));
    assert(b.subrange(8, 16) =~= spec_u64_to_le_bytes(f.w1));
    assert(b.subrange(16, 24) =~= spec_u64_to_le_bytes(f.w2));
    assert(b.subrange(24, 32) =~= spec_u64_to_le_bytes(f.w3));
}

/// Append the canonical 32-byte encoding of `f` to `out`.
pub fn write_field_element(f: &FieldElement, out: &mut Vec<u8>)
    ensures
        final(out)@ == old(out)@ + spec_field_element_to_bytes(*f),
{
    let mut b0 = u64_to_le_bytes(f.w0);
    out.append(&mut b0);
    let mut b1 = u64_to_le_bytes(f.w1);
    out.append(&mut b1);
    let mut b2 = u64_to_le_bytes(f.w2);
    out.append(&mut b2);
    let mut b3 = u64_to_le_bytes(f.w3);
    out.append(&mut b3);
    assert(out@ =~= old(out)@ + spec_field_element_to_bytes(*f));
}

/// Decode the 32-byte field-element encoding that starts at `pos`, returning
/// the element and the position just past it, or nothing if fewer than 32
/// bytes remain.
pub fn read_field_element(b: &Vec<u8>, pos: usize) -> (r: Option<(FieldElement, usize)>)
    ensures
        match r {
            Some((f, p)) => pos + 32 <= b@.len() && p == pos + 32 && f
                == spec_field_element_from_bytes(b@.subrange(pos as int, pos + 32)),
            None => pos + 32 > b@.len(),
        },
{
    if b.len() < 32 || pos > b.len() - 32 {
        return None;
    }
    let s = b.as_slice();
    let w0 = u64_from_le_bytes(slice_subrange(s, pos, pos + 8));
    let w1 = u64_from_le_bytes(slice_subrange(s, pos + 8, pos + 16));
    let w2 = u64_from_le_bytes(slice_subrange(s, pos + 16, pos + 24));
    let w3 = u64_from_le_bytes(slice_subrange(s, pos + 24, pos + 32));
    proof {
        let whole = b@.subrange(pos as int, pos + 32);
        assert(b@.subrange(pos as int, pos + 8) =~= whole.subrange(0, 8));
        assert(b@.subrange(pos + 8, pos + 16) =~= whole.subrange(8, 16));
        assert(b@.subrange(pos + 16, pos + 24) =~= whole.subrange(16, 24));
        assert(b@.subrange(pos + 24, pos + 32) =~= whole.subrange(24, 32));
    }
    Some((FieldElement { w0, w1, w2, w3 }, pos + 32))
}

} // verus!
