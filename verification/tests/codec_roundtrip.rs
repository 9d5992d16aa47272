use recursive_aggregation::field::{read_field_element, write_field_element, FieldElement};
use recursive_aggregation::recursive::AggregatedProof;

fn fe(w0: u64, w1: u64, w2: u64, w3: u64) -> FieldElement {
    FieldElement { w0, w1, w2, w3 }
}

fn sample_bundle() -> AggregatedProof {
    AggregatedProof {
        proof: vec![0xde, 0xad, 0xbe, 0xef, 0x01],
        individual_vk_inputs: vec![fe(1, 2, 3, 4), fe(5, 6, 7, 8), fe(u64::MAX, 0, 0, 9)],
        individual_num_inputs: 1,
        individual_vk_idxs: vec![0, 0, 0],
        aggr_limbs: (0..16u64).map(|i| fe(i, i + 1, 0, 0)).collect(),
    }
}

#[test]
fn field_element_bytes_round_trip() {
    let f = fe(0x0102030405060708, 0x1112131415161718, 42, u64::MAX);
    let mut buf: Vec<u8> = Vec::new();
    write_field_element(&f, &mut buf);
    assert_eq!(buf.len(), 32);
    let (g, pos) = read_field_element(&buf, 0).unwrap();
    assert_eq!(pos, 32);
    assert_eq!(g, f);
}

#[test]
fn field_element_encoding_is_little_endian_limbs() {
    let f = fe(1, 0, 0, 0);
    let mut buf: Vec<u8> = Vec::new();
    write_field_element(&f, &mut buf);
    let mut expected = vec![0u8; 32];
    expected[0] = 1;
    assert_eq!(buf, expected);
}

#[test]
fn aggregated_proof_write_read_round_trip() {
    let bundle = sample_bundle();
    let mut buf: Vec<u8> = Vec::new();
    bundle.write(&mut buf);
    let (decoded, consumed) = AggregatedProof::read(&buf, 0).unwrap();
    assert_eq!(consumed, buf.len());
    assert_eq!(decoded.proof, bundle.proof);
    assert_eq!(decoded.individual_vk_inputs, bundle.individual_vk_inputs);
    assert_eq!(decoded.individual_num_inputs, bundle.individual_num_inputs);
    assert_eq!(decoded.individual_vk_idxs, bundle.individual_vk_idxs);
    assert_eq!(decoded.aggr_limbs, bundle.aggr_limbs);
}

#[test]
fn aggregated_proof_round_trip_ignores_trailing_bytes() {
    let bundle = sample_bundle();
    let mut buf: Vec<u8> = Vec::new();
    bundle.write(&mut buf);
    let enc_len = buf.len();
    buf.extend_from_slice(&[9, 9, 9, 9]);
    let (decoded, consumed) = AggregatedProof::read(&buf, 0).unwrap();
    assert_eq!(consumed, enc_len);
    assert_eq!(decoded.aggr_limbs, bundle.aggr_limbs);
}

#[test]
fn aggregated_proof_read_rejects_truncation() {
    let bundle = sample_bundle();
    let mut buf: Vec<u8> = Vec::new();
    bundle.write(&mut buf);
    buf.pop();
    assert!(AggregatedProof::read(&buf, 0).is_none());
}

#[test]
fn transport_layout_starts_with_proof_length_prefix() {
    let bundle = sample_bundle();
    let mut buf: Vec<u8> = Vec::new();
    bundle.write(&mut buf);
    assert_eq!(&buf[0..8], &[5, 0, 0, 0, 0, 0, 0, 0]);
    assert_eq!(&buf[8..13], &[0xde, 0xad, 0xbe, 0xef, 0x01]);
    assert_eq!(&buf[13..21], &[3, 0, 0, 0, 0, 0, 0, 0]);
}
