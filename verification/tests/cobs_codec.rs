use lightshow::cobs::{decode, encode};

fn round_trip(buf: &[u8]) {
    let encoded = encode(buf);
    for &b in &encoded {
        assert_ne!(b, 0, "encoded output must hold no zero byte");
    }
    assert_eq!(decode(&encoded), buf);
}

#[test]
fn known_vectors() {
    assert_eq!(encode(&[]), vec![0x01]);
    assert_eq!(encode(&[0x00]), vec![0x01, 0x01]);
    assert_eq!(encode(&[0x00, 0x00]), vec![0x01, 0x01, 0x01]);
    assert_eq!(
        encode(&[0x11, 0x22, 0x00, 0x33]),
        vec![0x03, 0x11, 0x22, 0x02, 0x33]
    );
    assert_eq!(
        encode(&[0x11, 0x22, 0x33, 0x44]),
        vec![0x05, 0x11, 0x22, 0x33, 0x44]
    );
    assert_eq!(
        encode(&[0x11, 0x00, 0x00, 0x00]),
        vec![0x02, 0x11, 0x01, 0x01, 0x01]
    );
}

#[test]
fn saturated_group_boundaries() {
    // exactly 254 non-zero bytes: one saturated group, nothing after it
    let buf: Vec<u8> = (1..=254u8).collect();
    let mut expected = vec![0xFFu8];
    expected.extend_from_slice(&buf);
    assert_eq!(encode(&buf), expected);

    // 255 non-zero bytes: a saturated group, then a group for the rest
    let buf: Vec<u8> = (1..=254u8).chain([0xAB]).collect();
    let mut expected = vec![0xFFu8];
    expected.extend_from_slice(&buf[..254]);
    expected.extend_from_slice(&[0x02, 0xAB]);
    assert_eq!(encode(&buf), expected);

    // 254 non-zero bytes then a zero: the zero gets its own empty groups
    let mut buf: Vec<u8> = (1..=254u8).collect();
    buf.push(0);
    let mut expected = vec![0xFFu8];
    expected.extend_from_slice(&buf[..254]);
    expected.extend_from_slice(&[0x01, 0x01]);
    assert_eq!(encode(&buf), expected);
}

#[test]
fn round_trips() {
    round_trip(&[]);
    round_trip(&[0]);
    round_trip(&[0, 0, 0, 0]);
    round_trip(&[1, 2, 3]);
    round_trip(&vec![0x55u8; 1000]);
    round_trip(&vec![0u8; 300]);
    let mixed: Vec<u8> = (0..1000u32).map(|i| (i % 7) as u8).collect();
    round_trip(&mixed);
    for n in 250..260 {
        round_trip(&vec![9u8; n]);
        let mut with_zero = vec![9u8; n];
        with_zero[n / 2] = 0;
        round_trip(&with_zero);
    }
}

#[test]
fn matches_reference_encoder() {
    let cases: Vec<Vec<u8>> = vec![
        Vec::new(),
        vec![0],
        vec![0, 0],
        vec![0x11, 0x22, 0x00, 0x33],
        (1..=254u8).collect(),
        (1..=254u8).chain([0x00]).collect(),
        (1..=254u8).chain([0xAB]).collect(),
        (0..600u32).map(|i| (i % 256) as u8).collect(),
        vec![0x55; 1000],
    ];
    for buf in cases {
        let ours = encode(&buf);
        let reference = cobs2::cobs::encode_vector(&buf).unwrap();
        assert_eq!(ours, reference);
        let decoded = cobs2::cobs::decode_vector(&ours).unwrap();
        assert_eq!(decode(&ours), decoded);
        assert_eq!(decoded, buf);
    }
}

#[test]
fn decode_of_truncated_input_stops_cleanly() {
    // a length byte promising more data than follows: copy what is there
    assert_eq!(decode(&[0x05, 0x11, 0x22]), vec![0x11, 0x22]);
    // a zero length byte ends decoding, after the previous group's zero
    assert_eq!(decode(&[0x02, 0x11, 0x00, 0x22]), vec![0x11, 0x00]);
    assert_eq!(decode(&[]), Vec::<u8>::new());
}
