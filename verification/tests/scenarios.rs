use packable::record::{Header, InvalidPercent, Percent, Sample};
use packable::variant::Message;
use packable::Packable;
use packable::SliceUnpacker;
use packable::UnknownTag;
use packable::UnpackError;

#[test]
fn message_value_packs_to_exact_five_bytes() {
    let mut sink: Vec<u8> = Vec::new();
    Message::Value(-5).pack(&mut sink).unwrap();
    assert_eq!(sink, vec![0x01, 0xFB, 0xFF, 0xFF, 0xFF]);
}

#[test]
fn message_value_five_bytes_decode_back_any_verify_setting() {
    let bytes = [0x01u8, 0xFB, 0xFF, 0xFF, 0xFF];
    for verify in [false, true] {
        let mut source = SliceUnpacker::new(&bytes);
        assert_eq!(Message::unpack(&mut source, verify).unwrap(), Message::Value(-5));
    }
}

#[test]
fn message_ping_packs_to_single_tag_byte() {
    let mut sink: Vec<u8> = Vec::new();
    Message::Ping.pack(&mut sink).unwrap();
    assert_eq!(sink, vec![0x00]);
    let mut source = SliceUnpacker::new(&sink);
    assert_eq!(Message::unpack(&mut source, true).unwrap(), Message::Ping);
}

#[test]
fn header_packs_to_exact_five_bytes() {
    let mut sink: Vec<u8> = Vec::new();
    Header { kind: 7, value: 300 }.pack(&mut sink).unwrap();
    assert_eq!(sink, vec![0x07, 0x2C, 0x01, 0x00, 0x00]);
}

#[test]
fn header_five_bytes_unpack_exactly() {
    let bytes = [0x07u8, 0x2C, 0x01, 0x00, 0x00];
    let mut source = SliceUnpacker::new(&bytes);
    let header = Header::unpack(&mut source, true).unwrap();
    assert_eq!(header, Header { kind: 7, value: 300 });
}

#[test]
fn unknown_tag_is_a_domain_error_carrying_the_value() {
    let bytes = [0x09u8, 0xFB, 0xFF, 0xFF, 0xFF];
    for verify in [false, true] {
        let mut source = SliceUnpacker::new(&bytes);
        let err = Message::unpack(&mut source, verify).unwrap_err();
        assert_eq!(err, UnpackError::Packable(UnknownTag { tag: 9, width: 1 }));
    }
}

#[test]
fn unverified_unpack_returns_value_the_hook_would_reject() {
    let bytes = [200u8];
    let mut source = SliceUnpacker::new(&bytes);
    let percent = Percent::unpack(&mut source, false).unwrap();
    assert_eq!(percent, Percent { value: 200 });
}

#[test]
fn verified_unpack_returns_the_hook_error() {
    let bytes = [200u8];
    let mut source = SliceUnpacker::new(&bytes);
    let err = Percent::unpack(&mut source, true).unwrap_err();
    assert_eq!(err, UnpackError::Packable(InvalidPercent { value: 200 }));
}

#[test]
fn verified_unpack_accepts_a_value_the_hook_allows() {
    let bytes = [100u8];
    let mut source = SliceUnpacker::new(&bytes);
    assert_eq!(Percent::unpack(&mut source, true).unwrap(), Percent { value: 100 });
}

#[test]
fn verify_flag_threads_into_record_fields() {
    let bytes = [0x0Du8, 0x00, 0x00, 0x00, 0xFA];
    let mut source = SliceUnpacker::new(&bytes);
    let sample = Sample::unpack(&mut source, false).unwrap();
    assert_eq!(sample, Sample { id: 13, level: Percent { value: 250 } });
    let mut source = SliceUnpacker::new(&bytes);
    let err = Sample::unpack(&mut source, true).unwrap_err();
    assert_eq!(err, UnpackError::Packable(InvalidPercent { value: 250 }));
}

#[test]
fn verification_hook_runs_alone() {
    assert_eq!(Percent::verify_value(100), Ok(()));
    assert_eq!(Percent::verify_value(101), Err(InvalidPercent { value: 101 }));
}

#[test]
fn short_source_is_a_transport_error() {
    let bytes = [0x2Cu8, 0x01];
    let mut source = SliceUnpacker::new(&bytes);
    let err = u32::unpack(&mut source, true).unwrap_err();
    match err {
        UnpackError::Unpacker(eof) => {
            assert_eq!(eof.requested, 4);
            assert_eq!(eof.available, 2);
        }
        UnpackError::Packable(_) => panic!("expected a transport error"),
    }
}

#[test]
fn short_payload_after_valid_tag_is_a_transport_error() {
    let bytes = [0x01u8, 0xFB, 0xFF];
    let mut source = SliceUnpacker::new(&bytes);
    let err = Message::unpack(&mut source, true).unwrap_err();
    assert!(matches!(err, UnpackError::Unpacker(_)));
}

#[test]
fn record_unpack_stops_at_first_missing_field() {
    let bytes = [0x07u8, 0x2C];
    let mut source = SliceUnpacker::new(&bytes);
    let err = Header::unpack(&mut source, true).unwrap_err();
    assert!(matches!(err, UnpackError::Unpacker(_)));
}
