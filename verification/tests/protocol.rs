use lightshow::checksum::append_checksum;
use lightshow::cobs;
use lightshow::{build_packet, Init, Instruction, SetLeds};

/// The CRC-16/ARC reference check value: the ASCII digits one through nine.
#[test]
fn crc16_arc_check_value() {
    let packet = append_checksum(b"123456789".to_vec());
    let n = packet.len();
    assert_eq!(n, 11);
    let checksum = (packet[n - 2] as u16) * 256 + packet[n - 1] as u16;
    assert_eq!(checksum, 0xBB3D);
}

#[test]
fn append_checksum_keeps_message() {
    let packet = append_checksum(vec![0u8, 10, 5]);
    assert_eq!(&packet[..3], &[0u8, 10, 5]);
    assert_eq!(packet.len(), 5);
}

#[test]
fn append_checksum_empty_message() {
    let packet = append_checksum(Vec::new());
    // CRC-16/ARC of no bytes is the initial value, zero
    assert_eq!(packet, vec![0u8, 0]);
}

#[test]
fn init_message_bytes() {
    let inst = Init::new(10, 5);
    assert_eq!(inst.code(), 0);
    assert_eq!(inst.to_message(), vec![0u8, 10, 5]);
}

#[test]
fn set_leds_message_bytes() {
    let inst = SetLeds::new(2, 2, vec![0xFF, 0x00, 0x00, 0x00, 0xFF, 0x00]);
    assert_eq!(inst.code(), 1);
    assert_eq!(
        inst.to_message(),
        vec![1u8, 2, 2, 0xFF, 0x00, 0x00, 0x00, 0xFF, 0x00]
    );
}

#[test]
fn frame_ends_with_the_only_zero() {
    let frame = build_packet(Box::new(Init::new(10, 5)));
    assert!(frame.len() >= 2);
    assert_eq!(*frame.last().unwrap(), 0);
    for &b in &frame[..frame.len() - 1] {
        assert_ne!(b, 0);
    }

    let frame = build_packet(Box::new(SetLeds::new(0, 2, vec![0, 0, 0, 0, 0, 0])));
    assert_eq!(*frame.last().unwrap(), 0);
    for &b in &frame[..frame.len() - 1] {
        assert_ne!(b, 0);
    }
}

#[test]
fn frame_bytes_for_init() {
    // assembled by hand: message, checksum big-endian, stuffing, terminator
    let message = vec![0u8, 10, 5];
    let crc = crc::Crc::<u16>::new(&crc::CRC_16_ARC).checksum(&message);
    let mut packet = message;
    packet.extend_from_slice(&crc.to_be_bytes());
    let mut expected = cobs::encode(&packet);
    expected.push(0);
    assert_eq!(build_packet(Box::new(Init::new(10, 5))), expected);
}

#[test]
fn frame_decodes_back_to_message_and_checksum() {
    let instructions: Vec<Vec<u8>> = vec![
        Init::new(10, 5).to_message(),
        SetLeds::new(2, 2, vec![0xFF, 0x00, 0x00, 0x00, 0xFF, 0x00]).to_message(),
        SetLeds::new(0, 0, Vec::new()).to_message(),
        SetLeds::new(1, 90, vec![7u8; 270]).to_message(),
    ];
    for message in instructions {
        let frame = if message[0] == 0 {
            build_packet(Box::new(Init::new(message[1], message[2])))
        } else {
            build_packet(Box::new(SetLeds::new(
                message[1],
                message[2],
                message[3..].to_vec(),
            )))
        };
        // strip the terminator, undo the stuffing
        assert_eq!(*frame.last().unwrap(), 0);
        let packet = cobs::decode(&frame[..frame.len() - 1]);
        // split off the two checksum bytes: the message comes back verbatim
        assert_eq!(&packet[..packet.len() - 2], message.as_slice());
        // and the recomputed checksum matches the stripped bytes
        let recomputed = crc::Crc::<u16>::new(&crc::CRC_16_ARC).checksum(&message);
        assert_eq!(packet[packet.len() - 2], (recomputed >> 8) as u8);
        assert_eq!(packet[packet.len() - 1], (recomputed & 0xFF) as u8);
    }
}
