use vangers_srv::protocol::{extract_packets, Action, Packet};

/// The bytecode that doesn't represent any correct `Action` code.
const UNDEFINED_ACTION: u8 = 0x01;

#[test]
fn check_for_undefined_action() {
    // This test will fail if a new action with bytecode `UNDEFINED_ACTION`
    // is added in the future; change the constant to something else then.
    assert!(Action::from_u8(UNDEFINED_ACTION).is_none());
}

const DATA_UNDEFINED: &'static [u8] = &[0x04, 0x00, UNDEFINED_ACTION, 0xAA, 0xAA, 0xAA];
const DATA_UNKNOWN_3: &'static [u8] = &[0x04, 0x00, 0x00, 0x11, 0x11, 0x11];
const DATA_GLQ_1: &'static [u8] = &[0x01, 0x00, 0x81, 0xD1, 0xD1, 0xD1];
const DATA_GLQ_1_FIXED_SIZE_4: &'static [u8] = &[0x04, 0x00, 0x81, 0xD1, 0xD1, 0xD1];
const DATA_GLQ_4: &'static [u8] = &[0x04, 0x00, 0x81, 0xD4, 0xD4, 0xD4];

#[test]
fn test_packet_from_slice() {
    let p = Packet::from_slice(DATA_GLQ_1);
    assert_eq!(1i16, p.event_size);
    assert_eq!(&Action::GAMES_LIST_QUERY, &p.action);
    assert_eq!(&DATA_GLQ_1_FIXED_SIZE_4[3..6], &p.data[..]);
    assert_eq!(DATA_GLQ_1_FIXED_SIZE_4, &p.as_bytes()[..]);

    let p = Packet::from_slice(&DATA_GLQ_4);
    assert_eq!(4i16, p.event_size);
    assert_eq!(&Action::GAMES_LIST_QUERY, &p.action);
    assert_eq!(&DATA_GLQ_4[3..6], &p.data[..]);
    assert_eq!(DATA_GLQ_4, &p.as_bytes()[..]);

    // Action is undefined
    let p = Packet::from_slice(&DATA_UNDEFINED);
    assert_eq!(4i16, p.event_size);
    assert_eq!(&Action::UNKNOWN, &p.action);
    assert_eq!(&DATA_UNDEFINED[3..6], &p.data[..]);
    assert_eq!(DATA_UNDEFINED, &p.as_bytes()[..]);

    // Action equals 0x00 (UNKNOWN)
    let p = Packet::from_slice(&DATA_UNKNOWN_3);
    assert_eq!(4i16, p.event_size);
    assert_eq!(&Action::UNKNOWN, &p.action);
    assert_eq!(&DATA_UNKNOWN_3[3..6], &p.data[..]);
    assert_eq!(DATA_UNKNOWN_3, &p.as_bytes()[..]);

    // empty `data`
    let p = Packet::from_slice(&DATA_UNKNOWN_3[0..3]);
    assert_eq!(4i16, p.event_size);
    assert_eq!(&Action::UNKNOWN, &p.action);
    assert_eq!(&[] as &[u8], &p.data[..]);
    assert_eq!(&[0x01, 0x00, 0x00], &p.as_bytes()[..]);
}

#[test]
fn test_packet_new() {
    let p = Packet::new(Action::SERVER_TIME, &[]);
    assert_eq!(1i16, p.event_size);
    assert_eq!(&Action::SERVER_TIME, &p.action);
    assert_eq!(&[] as &[u8], &p.data[..]);
    assert_eq!(&[0x01, 0x00, 0xC6], &p.as_bytes()[..]);

    let p = Packet::new(Action::SERVER_TIME, &[0xEE, 0xEE]);
    assert_eq!(3i16, p.event_size);
    assert_eq!(&Action::SERVER_TIME, &p.action);
    assert_eq!(&[0xEE, 0xEE][..], &p.data[..]);
    assert_eq!(&[0x03, 0x00, 0xC6, 0xEE, 0xEE], &p.as_bytes()[..]);
}

#[test]
fn test11() {
    let zevent_size = 0x05_i16.to_le_bytes();
    let zevent_id = 198_u8.to_le_bytes();
    let zresponse = 32607390_i32.to_le_bytes();

    let _ = std::iter::empty()
        .chain(&zevent_size)
        .chain(&zevent_id)
        .chain(&zresponse)
        .map(|&b| b)
        .collect::<Vec<u8>>();
}

#[test]
fn packet_round_trip() {
    // decoding the frame bytes of a packet gives the packet back
    let p = Packet::new(Action::REGISTER_NAME, &[0x41, 0x42, 0x00]);
    let q = Packet::from_slice(&p.as_bytes());
    assert_eq!(p.event_size, q.event_size);
    assert_eq!(p.action, q.action);
    assert_eq!(p.real_action, q.real_action);
    assert_eq!(p.data, q.data);
}

#[test]
fn stream_round_trip() {
    // a well-formed stream splits into frames and re-encodes to itself
    let mut stream: Vec<u8> = Vec::new();
    stream.extend_from_slice(&Packet::new(Action::GAMES_LIST_QUERY, &[]).as_bytes());
    stream.extend_from_slice(&Packet::new(Action::ATTACH_TO_GAME, &[0, 0, 0, 0]).as_bytes());
    stream.extend_from_slice(&Packet::new(Action::SERVER_TIME_QUERY, &[1, 2]).as_bytes());

    let (packets, rest, fatal) = extract_packets(&stream);
    assert!(!fatal);
    assert!(rest.is_empty());
    assert_eq!(3, packets.len());
    let mut rebuilt: Vec<u8> = Vec::new();
    for p in &packets {
        rebuilt.extend_from_slice(&p.as_bytes());
    }
    assert_eq!(stream, rebuilt);
}

#[test]
fn stream_retains_short_tail() {
    let mut stream: Vec<u8> = Vec::new();
    stream.extend_from_slice(&Packet::new(Action::GAMES_LIST_QUERY, &[]).as_bytes());
    stream.extend_from_slice(&[0x10, 0x00, 0x81]); // header of a longer frame
    let (packets, rest, fatal) = extract_packets(&stream);
    assert!(!fatal);
    assert_eq!(1, packets.len());
    assert_eq!(&[0x10, 0x00, 0x81][..], &rest[..]);
}

#[test]
fn stream_negative_length_is_fatal() {
    let stream = [0xFF, 0xFF, 0x00, 0x01];
    let (packets, rest, fatal) = extract_packets(&stream);
    assert!(fatal);
    assert!(packets.is_empty());
    assert!(rest.is_empty());
}
