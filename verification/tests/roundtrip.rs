use packable::record::{Header, Percent, Sample};
use packable::variant::Message;
use packable::Packable;
use packable::SliceUnpacker;

fn pack_to_vec<T: Packable>(value: &T) -> Vec<u8> {
    let mut sink: Vec<u8> = Vec::new();
    value.pack(&mut sink).unwrap();
    sink
}

fn unpack_from<T: Packable>(bytes: &[u8], verify: bool) -> T
where
    T::UnpackError: std::fmt::Debug,
{
    let mut source = SliceUnpacker::new(bytes);
    match T::unpack(&mut source, verify) {
        Ok(value) => value,
        Err(_) => panic!("unpack failed"),
    }
}

#[test]
fn roundtrip_u8() {
    for v in [0u8, 1, 7, 127, 128, 255] {
        let bytes = pack_to_vec(&v);
        assert_eq!(bytes.len(), 1);
        assert_eq!(unpack_from::<u8>(&bytes, true), v);
    }
}

#[test]
fn roundtrip_u16() {
    for v in [0u16, 1, 0x1234, u16::MAX] {
        let bytes = pack_to_vec(&v);
        assert_eq!(bytes.len(), 2);
        assert_eq!(unpack_from::<u16>(&bytes, true), v);
    }
}

#[test]
fn roundtrip_u32() {
    for v in [0u32, 300, 0xDEAD_BEEF, u32::MAX] {
        let bytes = pack_to_vec(&v);
        assert_eq!(bytes.len(), 4);
        assert_eq!(unpack_from::<u32>(&bytes, true), v);
    }
}

#[test]
fn roundtrip_u64() {
    for v in [0u64, 1, 0x0123_4567_89AB_CDEF, u64::MAX] {
        let bytes = pack_to_vec(&v);
        assert_eq!(bytes.len(), 8);
        assert_eq!(unpack_from::<u64>(&bytes, true), v);
    }
}

#[test]
fn roundtrip_u128() {
    for v in [0u128, 1, u64::MAX as u128 + 1, u128::MAX] {
        let bytes = pack_to_vec(&v);
        assert_eq!(bytes.len(), 16);
        assert_eq!(unpack_from::<u128>(&bytes, true), v);
    }
}

#[test]
fn roundtrip_i8() {
    for v in [i8::MIN, -5, -1, 0, 1, i8::MAX] {
        let bytes = pack_to_vec(&v);
        assert_eq!(bytes.len(), 1);
        assert_eq!(unpack_from::<i8>(&bytes, true), v);
    }
}

#[test]
fn roundtrip_i16() {
    for v in [i16::MIN, -300, -1, 0, 1, i16::MAX] {
        let bytes = pack_to_vec(&v);
        assert_eq!(bytes.len(), 2);
        assert_eq!(unpack_from::<i16>(&bytes, true), v);
    }
}

#[test]
fn roundtrip_i32() {
    for v in [i32::MIN, -5, -1, 0, 1, 300, i32::MAX] {
        let bytes = pack_to_vec(&v);
        assert_eq!(bytes.len(), 4);
        assert_eq!(unpack_from::<i32>(&bytes, true), v);
    }
}

#[test]
fn roundtrip_i64() {
    for v in [i64::MIN, -5_000_000_000, -1, 0, 1, i64::MAX] {
        let bytes = pack_to_vec(&v);
        assert_eq!(bytes.len(), 8);
        assert_eq!(unpack_from::<i64>(&bytes, true), v);
    }
}

#[test]
fn roundtrip_i128() {
    for v in [i128::MIN, i64::MIN as i128 - 1, -1, 0, 1, i128::MAX] {
        let bytes = pack_to_vec(&v);
        assert_eq!(bytes.len(), 16);
        assert_eq!(unpack_from::<i128>(&bytes, true), v);
    }
}

#[test]
fn negative_values_use_twos_complement() {
    let bytes = pack_to_vec(&-1i32);
    assert_eq!(bytes, vec![0xFF, 0xFF, 0xFF, 0xFF]);
    let bytes = pack_to_vec(&i16::MIN);
    assert_eq!(bytes, vec![0x00, 0x80]);
}

#[test]
fn roundtrip_header_record() {
    for header in [
        Header { kind: 0, value: 0 },
        Header { kind: 7, value: 300 },
        Header { kind: 255, value: u32::MAX },
    ] {
        let bytes = pack_to_vec(&header);
        assert_eq!(bytes.len(), 5);
        assert_eq!(unpack_from::<Header>(&bytes, true), header);
        assert_eq!(unpack_from::<Header>(&bytes, false), header);
    }
}

#[test]
fn roundtrip_sample_record() {
    let sample = Sample { id: 0xCAFE_F00D, level: Percent { value: 42 } };
    let bytes = pack_to_vec(&sample);
    assert_eq!(bytes.len(), 5);
    assert_eq!(unpack_from::<Sample>(&bytes, true), sample);
    assert_eq!(unpack_from::<Sample>(&bytes, false), sample);
}

#[test]
fn roundtrip_message_variants_any_verify_setting() {
    for message in [Message::Ping, Message::Value(0), Message::Value(-5), Message::Value(i32::MAX)]
    {
        let bytes = pack_to_vec(&message);
        for verify in [false, true] {
            assert_eq!(unpack_from::<Message>(&bytes, verify), message);
        }
    }
}

#[test]
fn unpack_leaves_trailing_bytes_unread() {
    let mut bytes = pack_to_vec(&Message::Value(-5));
    bytes.extend_from_slice(&[0xAA, 0xBB]);
    assert_eq!(unpack_from::<Message>(&bytes, true), Message::Value(-5));
}

#[test]
fn pack_appends_to_existing_sink_content() {
    let mut sink: Vec<u8> = vec![0xEE];
    Header { kind: 7, value: 300 }.pack(&mut sink).unwrap();
    assert_eq!(sink, vec![0xEE, 0x07, 0x2C, 0x01, 0x00, 0x00]);
}
