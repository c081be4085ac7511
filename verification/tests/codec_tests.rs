use patient_registry::codec::{decode_patient, encode_patient, HEADER_BYTES, MAX_RECORD_BYTES};
use patient_registry::patient::Patient;

fn sample(room: Option<u32>) -> Patient {
    Patient {
        id: 7,
        name: "Grace Hopper".to_string(),
        age: 85,
        gender: "F".to_string(),
        room_number: room,
        admitted_at: 123_456_789,
    }
}

#[test]
fn encode_then_decode_reproduces_all_fields() {
    let p = sample(Some(204));
    let bytes = encode_patient(&p);
    let q = decode_patient(&bytes).expect("a freshly encoded record must decode");
    assert_eq!(q, p);
}

#[test]
fn encode_then_decode_without_room() {
    let p = sample(None);
    let bytes = encode_patient(&p);
    let q = decode_patient(&bytes).expect("a freshly encoded record must decode");
    assert_eq!(q, p);
}

#[test]
fn encode_then_decode_with_non_ascii_text() {
    let p = Patient {
        id: u64::MAX,
        name: "Ada 忍者 🚑".to_string(),
        age: u32::MAX,
        gender: "…".to_string(),
        room_number: Some(u32::MAX),
        admitted_at: u64::MAX,
    };
    let bytes = encode_patient(&p);
    let q = decode_patient(&bytes).expect("a freshly encoded record must decode");
    assert_eq!(q, p);
}

#[test]
fn encoded_layout_is_as_documented() {
    let p = sample(Some(204));
    let bytes = encode_patient(&p);
    assert_eq!(bytes.len(), HEADER_BYTES + 4 * ("Grace Hopper".chars().count() + 1));
    assert_eq!(&bytes[0..8], &7u64.to_le_bytes());
    assert_eq!(&bytes[8..12], &85u32.to_le_bytes());
    assert_eq!(&bytes[12..20], &123_456_789u64.to_le_bytes());
    assert_eq!(bytes[20], 1);
    assert_eq!(&bytes[21..25], &204u32.to_le_bytes());
    assert_eq!(&bytes[25..29], &12u32.to_le_bytes());
    assert_eq!(&bytes[29..33], &1u32.to_le_bytes());
    assert_eq!(&bytes[33..37], &('G' as u32).to_le_bytes());
}

#[test]
fn largest_record_stays_within_the_bound() {
    let name: String = "n".repeat(246);
    let p = Patient {
        id: 1,
        name,
        age: 1,
        gender: "g".to_string(),
        room_number: None,
        admitted_at: 1,
    };
    let bytes = encode_patient(&p);
    assert_eq!(bytes.len(), HEADER_BYTES + 4 * 247);
    assert!(bytes.len() <= MAX_RECORD_BYTES);
    let q = decode_patient(&bytes).expect("a freshly encoded record must decode");
    assert_eq!(q, p);
}

#[test]
fn decode_rejects_malformed_bytes() {
    // too short to hold the header
    assert_eq!(decode_patient(&vec![0u8; 10]), None);
    // larger than the declared maximum record size
    assert_eq!(decode_patient(&vec![0u8; MAX_RECORD_BYTES + 1]), None);
    // header alone, but a room tag that is neither 0 nor 1
    let p = sample(None);
    let mut bytes = encode_patient(&p);
    bytes[20] = 2;
    assert_eq!(decode_patient(&bytes), None);
    // a length field that disagrees with the byte count
    let mut bytes = encode_patient(&p);
    bytes[25] = bytes[25].wrapping_add(1);
    assert_eq!(decode_patient(&bytes), None);
    // a four-byte group that is no Unicode scalar value (a surrogate)
    let mut bytes = encode_patient(&p);
    bytes[33..37].copy_from_slice(&0xD800u32.to_le_bytes());
    assert_eq!(decode_patient(&bytes), None);
}
