use dlt645::{Error, Frame, FrameError, ProtocolDataUnit, TryFromError};

const FRAME_HEX: &str = "fefefefe680200310822206811043255b335d116";

fn frame_bytes() -> Vec<u8> {
    vec![
        0xfe, 0xfe, 0xfe, 0xfe, 0x68, 0x02, 0x00, 0x31, 0x08, 0x22, 0x20, 0x68, 0x11, 0x04, 0x32,
        0x55, 0xb3, 0x35, 0xd1, 0x16,
    ]
}

#[test]
fn from_cmd() {
    let pdu = ProtocolDataUnit::from_cmd("202208310002", "11", &vec!["028022FF"]);
    assert_eq!(pdu.is_ok(), true);
    assert_eq!(
        Into::<String>::into(pdu.unwrap()),
        "fefefefe680200310822206811043255b335d116".to_string()
    );
}

#[test]
fn from_cmd_2() {
    let pdu = ProtocolDataUnit::from_cmd_2(
        vec![0x20, 0x22, 0x08, 0x31, 0x00, 0x02],
        0x11,
        &vec![vec![0x02, 0x80, 0x22, 0xff]],
    );
    assert_eq!(pdu.is_ok(), true);
    assert_eq!(
        Into::<String>::into(pdu.unwrap()),
        "fefefefe680200310822206811043255b335d116".to_string()
    );
}

#[test]
fn try_from_string() {
    let pdu = ProtocolDataUnit::try_from("fe  fefefe680200310822206811043255b335d116");
    assert!(pdu.is_ok());
    assert_eq!(
        Into::<String>::into(pdu.unwrap()),
        "fefefefe680200310822206811043255b335d116".to_string()
    );
}

#[test]
fn try_from_vec() {
    let pdu = ProtocolDataUnit::try_from(vec![
        0xfe, 0xfe, 0xfe, 0xfe, 0x68, 0x02, 0x00, 0x31, 0x08, 0x22, 0x20, 0x68, 0x11, 0x04, 0x32,
        0x55, 0xb3, 0x35, 0xd1, 0x16,
    ]);
    assert!(pdu.is_ok());
    assert_eq!(
        Into::<String>::into(pdu.unwrap()),
        "fefefefe680200310822206811043255b335d116".to_string()
    );
}

#[test]
fn spaced_text_reencodes_exactly() {
    let pdu =
        ProtocolDataUnit::try_from("fe fe fe fe 68 02 00 31 08 22 20 68 11 04 32 55 b3 35 d1 16")
            .unwrap();
    assert_eq!(pdu.encode_hex(), FRAME_HEX);
}

#[test]
fn encode_gives_wire_bytes() {
    let pdu = ProtocolDataUnit::from_cmd("202208310002", "11", &vec!["028022FF"]).unwrap();
    assert_eq!(Into::<Vec<u8>>::into(pdu), frame_bytes());
}

#[test]
fn accessors_of_command() {
    let pdu = ProtocolDataUnit::from_cmd("202208310002", "11", &vec!["028022FF"]).unwrap();
    assert_eq!(pdu.address(), vec![0x02, 0x00, 0x31, 0x08, 0x22, 0x20]);
    assert_eq!(pdu.address_str(), "020031082220");
    assert_eq!(pdu.address_real_str(), "202208310002");
    assert_eq!(pdu.data(), vec![0x32, 0x55, 0xb3, 0x35]);
    assert_eq!(pdu.c(), 0x11);
}

#[test]
fn several_data_values_are_stuffed_in_order() {
    let pdu = ProtocolDataUnit::from_cmd_2(
        vec![1, 2, 3, 4, 5, 6],
        0x14,
        &vec![vec![0x01, 0x02], vec![0xcd], vec![]],
    )
    .unwrap();
    assert_eq!(pdu.data(), vec![0x35, 0x34, 0x00]);
}

#[test]
fn round_trip_keeps_address_control_and_data() {
    let pdu = ProtocolDataUnit::from_cmd_2(
        vec![0x11, 0x22, 0x33, 0x44, 0x55, 0x66],
        0x91,
        &vec![vec![0x00, 0xff, 0x10], vec![0x7f]],
    )
    .unwrap();
    let wire = pdu.encode();
    let back = ProtocolDataUnit::from_wire(&wire).unwrap();
    assert_eq!(back.address(), pdu.address());
    assert_eq!(back.address(), vec![0x66, 0x55, 0x44, 0x33, 0x22, 0x11]);
    assert_eq!(back.c(), 0x91);
    assert_eq!(back.data(), pdu.data());
    assert_eq!(back.encode(), wire);
}

#[test]
fn length_byte_follows_payload() {
    let mut bytes = frame_bytes();
    // a payload of one byte instead of four
    bytes[13] = 0x01;
    let pdu = ProtocolDataUnit::from_wire(&bytes).unwrap();
    assert_eq!(pdu.data(), vec![0x32]);
    let wire = pdu.encode();
    assert_eq!(wire[4 + 6 + 3], 1);
    assert_eq!(wire.len(), 4 + 12 + 1);
}

#[test]
fn empty_payload_round_trips() {
    let pdu = ProtocolDataUnit::from_cmd_2(vec![1, 2, 3, 4, 5, 6], 0x13, &vec![]).unwrap();
    let wire = pdu.encode();
    assert_eq!(wire[4 + 9], 0);
    let back = ProtocolDataUnit::from_wire(&wire).unwrap();
    assert_eq!(back.data(), Vec::<u8>::new());
}

#[test]
fn read_addr_frame() {
    let pdu = ProtocolDataUnit::read_addr().unwrap();
    assert_eq!(pdu.encode_hex(), "fefefefe68aaaaaaaaaaaa681300df16");
}

#[test]
fn set_addr_frame() {
    let pdu = ProtocolDataUnit::set_addr().unwrap();
    assert_eq!(
        pdu.encode_hex(),
        "fefefefe68aaaaaaaaaaaa681506dddddddddddd1516"
    );
}

#[test]
fn new_and_default_are_empty() {
    let pdu = ProtocolDataUnit::new();
    assert_eq!(pdu.encode_hex(), "fefefefe68680000d016");
    let d = ProtocolDataUnit::default();
    assert_eq!(d.encode(), pdu.encode());
}

#[test]
fn checksum_is_sum_modulo_256() {
    assert_eq!(ProtocolDataUnit::compute_cs(&vec![]), 0);
    assert_eq!(ProtocolDataUnit::compute_cs(&vec![0xff, 0x02]), 0x01);
    assert_eq!(
        ProtocolDataUnit::compute_cs(&vec![
            0x68, 0x02, 0x00, 0x31, 0x08, 0x22, 0x20, 0x68, 0x11, 0x04, 0x32, 0x55, 0xb3, 0x35
        ]),
        0xd1
    );
}

#[test]
fn from_cmd_rejects_bad_address() {
    let r = ProtocolDataUnit::from_cmd("20220831000g", "11", &vec![]);
    assert!(matches!(r, Err(Error::InvalidInput)));
    let r = ProtocolDataUnit::from_cmd("2022083100021", "11", &vec![]);
    assert!(matches!(r, Err(Error::InvalidInput)));
}

#[test]
fn from_cmd_rejects_bad_or_empty_control() {
    let r = ProtocolDataUnit::from_cmd("202208310002", "1", &vec![]);
    assert!(matches!(r, Err(Error::InvalidInput)));
    let r = ProtocolDataUnit::from_cmd("202208310002", "", &vec![]);
    assert!(matches!(r, Err(Error::InvalidInput)));
}

#[test]
fn from_cmd_rejects_bad_data_value() {
    let r = ProtocolDataUnit::from_cmd("202208310002", "11", &vec!["0280", "zz"]);
    assert!(matches!(r, Err(Error::InvalidInput)));
}

#[test]
fn from_cmd_accepts_uppercase_and_takes_first_control_byte() {
    let pdu = ProtocolDataUnit::from_cmd("ABCDEF012345", "1122", &vec!["aB"]).unwrap();
    assert_eq!(pdu.address(), vec![0x45, 0x23, 0x01, 0xef, 0xcd, 0xab]);
    assert_eq!(pdu.c(), 0x11);
    assert_eq!(pdu.data(), vec![0xde]);
}

#[test]
fn payload_over_255_bytes_is_rejected() {
    let r = ProtocolDataUnit::from_cmd_2(vec![0; 6], 0x11, &vec![vec![0; 200], vec![0; 56]]);
    assert!(matches!(r, Err(Error::InvalidInput)));
    let ok = ProtocolDataUnit::from_cmd_2(vec![0; 6], 0x11, &vec![vec![0; 200], vec![0; 55]]);
    assert_eq!(ok.unwrap().encode()[4 + 9], 255);
}

#[test]
fn short_bytes_are_invalid() {
    let bytes = frame_bytes();
    for k in 0..bytes.len() {
        let r = ProtocolDataUnit::from_wire(&bytes[..k]);
        assert!(matches!(r, Err(TryFromError::INVALID)), "prefix {}", k);
    }
    assert!(ProtocolDataUnit::from_wire(&bytes).is_ok());
}

#[test]
fn bad_text_is_invalid() {
    assert!(matches!(ProtocolDataUnit::try_from("fe fe 6"), Err(TryFromError::INVALID)));
    assert!(matches!(ProtocolDataUnit::try_from("xyz0"), Err(TryFromError::INVALID)));
}

#[test]
fn parse_does_not_compare_markers_or_checksum() {
    let mut bytes = frame_bytes();
    bytes[11] = 0x00;
    bytes[18] = 0x00;
    bytes[19] = 0x00;
    let pdu = ProtocolDataUnit::from_wire(&bytes).unwrap();
    assert_eq!(pdu.encode_hex(), "fefefefe680200310822206811043255b335d100");
}

#[test]
fn check_reports_incomplete_for_every_prefix() {
    let bytes = frame_bytes();
    for k in 0..bytes.len() {
        assert!(matches!(Frame::check(&bytes[..k]), Err(FrameError::Incomplete)), "prefix {}", k);
        assert!(matches!(Frame::parse(&bytes[..k]), Err(FrameError::Incomplete)), "prefix {}", k);
    }
    assert_eq!(Frame::check(&bytes).unwrap(), bytes.len());
}

#[test]
fn check_ignores_trailing_bytes() {
    let mut bytes = frame_bytes();
    bytes.extend_from_slice(&[0xfe, 0x68, 0x01, 0x02]);
    assert_eq!(Frame::check(&bytes).unwrap(), 20);
    let pdu = Frame::parse(&bytes).unwrap();
    assert_eq!(pdu.encode_hex(), FRAME_HEX);
}

#[test]
fn check_without_preamble() {
    let bytes = &frame_bytes()[4..];
    assert_eq!(Frame::check(bytes).unwrap(), 16);
    assert_eq!(Frame::parse(bytes).unwrap().data(), vec![0x32, 0x55, 0xb3, 0x35]);
}

#[test]
fn desync_is_a_protocol_error_even_when_short() {
    assert!(matches!(
        Frame::check(&[0x01]),
        Err(FrameError::Other(Error::Protocol(0x01)))
    ));
    assert!(matches!(
        Frame::check(&[0xfe, 0xfe, 0x01]),
        Err(FrameError::Other(Error::Protocol(0x01)))
    ));
    assert!(matches!(
        Frame::parse(&[0xfe, 0x01]),
        Err(FrameError::Other(Error::Protocol(0x01)))
    ));
}

#[test]
fn wrong_second_start_marker_is_a_protocol_error() {
    let mut bytes = frame_bytes();
    bytes[11] = 0x69;
    assert!(matches!(
        Frame::check(&bytes[..12]),
        Err(FrameError::Other(Error::Protocol(0x69)))
    ));
    assert!(matches!(
        Frame::parse(&bytes),
        Err(FrameError::Other(Error::Protocol(0x69)))
    ));
}

#[test]
fn frame_errors_convert() {
    assert!(matches!(Error::from(FrameError::Incomplete), Error::Incomplete));
    assert!(matches!(
        Error::from(FrameError::Other(Error::Protocol(3))),
        Error::Protocol(3)
    ));
    assert!(matches!(Error::from(TryFromError::INVALID), Error::InvalidFrame));
}
