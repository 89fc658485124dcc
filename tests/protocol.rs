use ws6in1_proto::cursor::{Cursor, WriteCursor};
use ws6in1_proto::protocol::{
    AnyWs6in1Message, AnyWs6in1MessageHeapless, Ws6in1DataFrame, Ws6in1DataFrameHeapless,
    Ws6in1DataHeader, Ws6in1Footer, Ws6in1Payload, Ws6in1PayloadHeapless, Ws6in1Serde,
    Ws6in1SetDate, Ws6in1SetTime,
};
use ws6in1_proto::{BufferTooSmall, Error};

const CMD_LENGTH: usize = 8;

const FRAME_BYTES: &[u8; 64] = b"\xfe\0\0\0\x00163 2020-01-17 17:30 20.4 49 6.0 60 \
            0.0 0.0 0.0 0.0 129 \0\0\xfd";

const FRAME_TEXT: &[u8] = b"3 2020-01-17 17:30 20.4 49 6.0 60 \
                        0.0 0.0 0.0 0.0 129 ";

fn heapless_bytes(b: &[u8]) -> heapless::Vec<u8, 54> {
    heapless::Vec::from_slice(b).unwrap()
}

#[test]
fn test_serialize_footer() {
    let cmd = Ws6in1Footer {};
    let mut cursor = WriteCursor::new(vec![0u8; 3]);
    if let Err(e) = cmd.serialize(&mut cursor) {
        panic!("Ws6in1Footer serialization failed: {e:?}");
    }
    let expected = [0x00, 0x00, 0xFD];
    assert_eq!(Ws6in1Footer::LENGTH, cursor.position());
    assert_eq!(expected.to_vec(), cursor.into_inner());
}

#[test]
fn deserialize_footer() {
    let serialized = [0x10u8, 0x20, 0xfd];
    let expected = Ws6in1Footer {};
    let mut cursor = Cursor::new(&serialized[..]);
    match Ws6in1Footer::deserialize(&mut cursor) {
        Err(e) => panic!("Ws6in1Footer deserialization failed: {e:?}"),
        Ok(cmd) => {
            assert_eq!(expected, cmd);
            assert_eq!(Ws6in1Footer::LENGTH, cursor.position());
        }
    };
}

#[test]
fn test_serialize_set_date() {
    let cmd = Ws6in1SetDate { day: 17, month: 3, year: 25 };
    let mut cursor = WriteCursor::new(vec![0u8; 8]);
    if let Err(e) = cmd.serialize(&mut cursor) {
        panic!("Ws6in1SetDate serialization failed: {e:?}");
    }
    let expected = [0xFC, 0x08, 0x19, 0x03, 0x11, 0x00, 0x00, 0xFD];
    assert_eq!(CMD_LENGTH, cursor.position());
    assert_eq!(expected.to_vec(), cursor.into_inner());
}

#[test]
fn test_deserialize_set_date() {
    let serialized = [0xFC, 0x08, 0x19, 0x03, 0x11, 0x00, 0x00, 0xFD];
    let expected = Ws6in1SetDate { day: 17, month: 3, year: 25 };
    let mut cursor = Cursor::new(&serialized[..]);
    match Ws6in1SetDate::deserialize(&mut cursor) {
        Err(e) => panic!("Ws6in1SetDate deserialization failed: {e:?}"),
        Ok(cmd) => {
            assert_eq!(expected, cmd);
            assert_eq!(CMD_LENGTH, cursor.position());
        }
    };
}

#[test]
fn test_serialize_set_time() {
    let cmd = Ws6in1SetTime { hour: 17, min: 10, sec: 20 };
    let mut cursor = WriteCursor::new(vec![0u8; 8]);
    if let Err(e) = cmd.serialize(&mut cursor) {
        panic!("Ws6in1SetTime serialization failed: {e:?}");
    }
    let expected = [0xFC, 0x09, 0x11, 0x0A, 0x14, 0x00, 0x00, 0xFD];
    assert_eq!(CMD_LENGTH, cursor.position());
    assert_eq!(expected.to_vec(), cursor.into_inner());
}

#[test]
fn test_deserialize_set_time() {
    let serialized = [0xFC, 0x09, 0x11, 0x0A, 0x14, 0x00, 0x00, 0xFD];
    let expected = Ws6in1SetTime { hour: 17, min: 10, sec: 20 };
    let mut cursor = Cursor::new(&serialized[..]);
    match Ws6in1SetTime::deserialize(&mut cursor) {
        Err(e) => panic!("Ws6in1SetTime deserialization failed: {e:?}"),
        Ok(cmd) => {
            assert_eq!(expected, cmd);
            assert_eq!(CMD_LENGTH, cursor.position());
        }
    };
}

#[test]
fn test_serialize_data_header() {
    let cmd = Ws6in1DataHeader { item_cnt: 2, item_idx: 1, frag_cnt: 3, frag_idx: 1 };
    let mut cursor = WriteCursor::new(vec![0u8; 5]);
    if let Err(e) = cmd.serialize(&mut cursor) {
        panic!("Ws6in1DataHeader serialization failed: {e:?}");
    }
    let expected = [0x00, 0x02, 0x00, 0x01, 0x31];
    assert_eq!(5, cursor.position());
    assert_eq!(expected.to_vec(), cursor.into_inner());
}

#[test]
fn test_deserialize_data_header() {
    let serialized = [0x00, 0x02, 0x00, 0x01, 0x31];
    let expected = Ws6in1DataHeader { item_cnt: 2, item_idx: 1, frag_cnt: 3, frag_idx: 1 };
    let mut cursor = Cursor::new(&serialized[..]);
    match Ws6in1DataHeader::deserialize(&mut cursor) {
        Err(e) => panic!("Ws6in1DataHeader deserialization failed: {e:?}"),
        Ok(cmd) => {
            assert_eq!(expected, cmd);
            assert_eq!(Ws6in1DataHeader::LENGTH, cursor.position());
        }
    };
}

const PAYLOAD_BYTES: [u8; 55] = [
    0x04, 0x01, 0x02, 0x03, 0x04,
    0x00, 0x00, 0x00, 0x00, 0x00, 0x00, 0x00, 0x00, 0x00, 0x00,
    0x00, 0x00, 0x00, 0x00, 0x00, 0x00, 0x00, 0x00, 0x00, 0x00,
    0x00, 0x00, 0x00, 0x00, 0x00, 0x00, 0x00, 0x00, 0x00, 0x00,
    0x00, 0x00, 0x00, 0x00, 0x00, 0x00, 0x00, 0x00, 0x00, 0x00,
    0x00, 0x00, 0x00, 0x00, 0x00, 0x00, 0x00, 0x00, 0x00, 0x00,
];

#[test]
fn test_serialize_payload() {
    let cmd = Ws6in1PayloadHeapless { data: heapless_bytes(&[1, 2, 3, 4]) };
    let mut cursor = WriteCursor::new(vec![0u8; 55]);
    if let Err(e) = cmd.serialize(&mut cursor) {
        panic!("Ws6in1Payload serialization failed: {e:?}");
    }
    assert_eq!(55, cursor.position());
    assert_eq!(PAYLOAD_BYTES.to_vec(), cursor.into_inner());
}

#[test]
fn test_deserialize_payload() {
    let expected = Ws6in1PayloadHeapless { data: heapless_bytes(&[1, 2, 3, 4]) };
    let mut cursor = Cursor::new(&PAYLOAD_BYTES[..]);
    match Ws6in1PayloadHeapless::deserialize(&mut cursor) {
        Err(e) => panic!("Ws6in1Payload deserialization failed: {e:?}"),
        Ok(payload) => {
            assert_eq!(expected, payload);
            assert_eq!(Ws6in1Payload::LENGTH, cursor.position());
        }
    };
}

fn sample_frame() -> Ws6in1DataFrameHeapless {
    Ws6in1DataFrameHeapless {
        hdr: Ws6in1DataHeader { frag_cnt: 3, frag_idx: 1, ..Default::default() },
        payload: Ws6in1PayloadHeapless { data: heapless_bytes(FRAME_TEXT) },
    }
}

#[test]
fn test_serialize_data() {
    let cmd = sample_frame();
    let mut cursor = WriteCursor::new(vec![0u8; 64]);
    if let Err(e) = cmd.serialize(&mut cursor) {
        panic!("Ws6in1DataFrame serialization failed: {e:?}");
    }
    assert_eq!(64, cursor.position());
    assert_eq!(FRAME_BYTES.to_vec(), cursor.into_inner());
}

#[test]
fn test_deserialize_data() {
    let expected = sample_frame();
    let mut cursor = Cursor::new(&FRAME_BYTES[..]);
    match Ws6in1DataFrameHeapless::deserialize(&mut cursor) {
        Err(e) => panic!("Ws6in1DataFrame deserialization failed: {e:?}"),
        Ok(payload) => {
            assert_eq!(expected, payload);
            assert_eq!(Ws6in1DataFrame::LENGTH, cursor.position());
        }
    };
}

#[test]
fn test_any_set_time_deserialization() {
    let serialized = [0xFC, 0x09, 0x11, 0x0A, 0x14, 0x00, 0x00, 0xFD];
    let expected = AnyWs6in1MessageHeapless::SetTime(Ws6in1SetTime { hour: 17, min: 10, sec: 20 });
    let mut cursor = Cursor::new(&serialized[..]);
    match AnyWs6in1MessageHeapless::deserialize(&mut cursor) {
        Err(e) => panic!("AnyWs6in1Message deserialization failed: {e:?}"),
        Ok(message) => {
            assert_eq!(expected, message);
            assert_eq!(8, cursor.position());
        }
    }
}

#[test]
fn test_any_date_frame_deserialization() {
    let expected = AnyWs6in1MessageHeapless::DataFrame(sample_frame());
    let mut cursor = Cursor::new(&FRAME_BYTES[..]);
    match AnyWs6in1MessageHeapless::deserialize(&mut cursor) {
        Err(e) => panic!("AnyWs6in1Message deserialization failed: {e:?}"),
        Ok(message) => {
            assert_eq!(expected, message);
            assert_eq!(64, cursor.position());
        }
    }
}

#[test]
fn test_any_set_time_serialization() {
    let cmd = AnyWs6in1MessageHeapless::SetTime(Ws6in1SetTime { hour: 17, min: 10, sec: 20 });
    let mut cursor = WriteCursor::new(vec![0u8; 8]);
    if let Err(e) = cmd.serialize(&mut cursor) {
        panic!("AnyWs6in1Message serialization failed: {e:?}");
    }
    let expected = [0xFC, 0x09, 0x11, 0x0A, 0x14, 0x00, 0x00, 0xFD];
    assert_eq!(8, cursor.position());
    assert_eq!(expected.to_vec(), cursor.into_inner());
}

#[test]
fn reject_random_junk() {
    let serialized = [
        0xBA, 0x5B, 0x8C, 0xD9, 0x7A, 0xB5, 0x5D, 0x98, 0x87, 0x99, 0x90, 0xC3, 0x56, 0x51, 0xFA,
        0x16,
    ];
    let mut cursor = Cursor::new(&serialized[..]);
    if let Ok(x) = AnyWs6in1MessageHeapless::deserialize(&mut cursor) {
        panic!("Deserialized junk as {x:?}");
    }
}

#[test]
fn serialize_into_too_small_buffer() {
    let cmd = AnyWs6in1MessageHeapless::SetTime(Ws6in1SetTime { hour: 17, min: 10, sec: 20 });
    let mut cursor = WriteCursor::new(vec![0u8; 7]);
    if let Ok(x) = cmd.serialize(&mut cursor) {
        panic!("Serialized message into too small buffer {x:?}");
    }
}

// Further cases.

#[test]
fn payload_of_55_bytes_is_refused() {
    let cmd = Ws6in1Payload { data: vec![7u8; 55] };
    let mut cursor = WriteCursor::new(vec![0u8; 55]);
    assert_eq!(cmd.serialize(&mut cursor), Err(Error::PayloadTooLarge { len: 55 }));
    assert_eq!(cursor.position(), 0);
    assert_eq!(cursor.into_inner(), vec![0u8; 55]);
}

#[test]
fn frame_with_long_payload_writes_nothing() {
    let cmd = Ws6in1DataFrame {
        hdr: Ws6in1DataHeader { frag_cnt: 1, frag_idx: 1, ..Default::default() },
        payload: Ws6in1Payload { data: vec![1u8; 60] },
    };
    let mut cursor = WriteCursor::new(vec![9u8; 64]);
    assert_eq!(cmd.serialize(&mut cursor), Err(Error::PayloadTooLarge { len: 60 }));
    assert_eq!(cursor.into_inner(), vec![9u8; 64]);
}

#[test]
fn too_small_buffer_reports_sizes() {
    let cmd = Ws6in1SetTime { hour: 1, min: 2, sec: 3 };
    let mut cursor = WriteCursor::new(vec![0u8; 7]);
    assert_eq!(
        cmd.serialize(&mut cursor),
        Err(Error::BufferTooSmall(BufferTooSmall { size: 7, expected: 8 }))
    );
    let bytes = [0xFCu8, 0x09, 1, 2];
    let mut reader = Cursor::new(&bytes[..]);
    assert_eq!(
        Ws6in1SetTime::deserialize(&mut reader),
        Err(Error::BufferTooSmall(BufferTooSmall { size: 4, expected: 8 }))
    );
}

#[test]
fn decode_errors() {
    let bad_magic = [0xFC, 0x09, 0x11, 0x0A, 0x14, 0x00, 0x00, 0xFE];
    assert_eq!(
        Ws6in1SetTime::deserialize(&mut Cursor::new(&bad_magic[..])),
        Err(Error::InvalidMagic { magic: 0xFE })
    );
    let trailing = [0xFC, 0x09, 0x11, 0x0A, 0x14, 0x00, 0x00, 0xFD, 0x00, 0x00];
    assert_eq!(
        Ws6in1SetTime::deserialize(&mut Cursor::new(&trailing[..])),
        Err(Error::BufferNotConsumed { trailing: 2 })
    );
    let wrong_opcode = [0xFC, 0x08, 0x11, 0x0A, 0x14, 0x00, 0x00, 0xFD];
    assert_eq!(
        Ws6in1SetTime::deserialize(&mut Cursor::new(&wrong_opcode[..])),
        Err(Error::UnsupportedType { frame_type: 0xFC })
    );
    let unknown_opcode = [0xFC, 0x07, 0x11, 0x0A, 0x14, 0x00, 0x00, 0xFD];
    assert_eq!(
        AnyWs6in1Message::deserialize(&mut Cursor::new(&unknown_opcode[..])),
        Err(Error::UnsupportedOpcode { opcode: 0x07 })
    );
    let unknown_type = [0x12u8, 0x34];
    assert_eq!(
        AnyWs6in1Message::deserialize(&mut Cursor::new(&unknown_type[..])),
        Err(Error::UnsupportedType { frame_type: 0x12 })
    );
    let empty: [u8; 0] = [];
    assert_eq!(
        AnyWs6in1Message::deserialize(&mut Cursor::new(&empty[..])),
        Err(Error::BufferTooSmall(BufferTooSmall { size: 0, expected: 1 }))
    );
    let mut long_len = FRAME_BYTES.to_vec();
    long_len[6] = 55;
    assert_eq!(
        Ws6in1DataFrame::deserialize(&mut Cursor::new(&long_len[..])),
        Err(Error::PayloadTooLarge { len: 55 })
    );
}

#[test]
fn messages_round_trip() {
    let messages = vec![
        AnyWs6in1Message::SetDate(Ws6in1SetDate { day: 31, month: 12, year: 99 }),
        AnyWs6in1Message::SetTime(Ws6in1SetTime { hour: 23, min: 59, sec: 58 }),
        AnyWs6in1Message::DataFrame(Ws6in1DataFrame {
            hdr: Ws6in1DataHeader { item_cnt: 0x1234, item_idx: 0xABCD, frag_cnt: 15, frag_idx: 9 },
            payload: Ws6in1Payload { data: (0u8..54).collect() },
        }),
    ];
    for m in messages {
        let mut cursor = WriteCursor::new(vec![0u8; 64]);
        m.serialize(&mut cursor).unwrap();
        let len = cursor.position();
        let bytes = cursor.into_inner();
        let decoded = AnyWs6in1Message::deserialize(&mut Cursor::new(&bytes[..len])).unwrap();
        assert_eq!(decoded, m);
    }
}

#[test]
fn report_starts_with_report_id() {
    let m = AnyWs6in1Message::SetTime(Ws6in1SetTime { hour: 17, min: 10, sec: 20 });
    assert_eq!(
        m.to_report().unwrap(),
        vec![0x00, 0xFC, 0x09, 0x11, 0x0A, 0x14, 0x00, 0x00, 0xFD]
    );
}

#[test]
fn set_date_from_calendar_year() {
    assert_eq!(
        Ws6in1SetDate::from_calendar(2025, 3, 17),
        Ws6in1SetDate { day: 17, month: 3, year: 25 }
    );
    assert_eq!(Ws6in1SetDate::from_calendar(2003, 1, 1).year, 3);
}

fn encode_decode<T: Ws6in1Serde>(value: &T, room: usize) -> (Vec<u8>, Result<T, Error>) {
    let mut cursor = WriteCursor::new(vec![0u8; room]);
    value.serialize(&mut cursor).unwrap();
    let len = cursor.position();
    let bytes = cursor.into_inner()[..len].to_vec();
    let decoded = T::deserialize(&mut Cursor::new(&bytes[..]));
    (bytes, decoded)
}

#[test]
fn serde_trait_round_trip() {
    let date = Ws6in1SetDate { day: 1, month: 2, year: 3 };
    let (bytes, decoded) = encode_decode(&date, 8);
    assert_eq!(bytes, vec![0xFC, 0x08, 3, 2, 1, 0, 0, 0xFD]);
    assert_eq!(decoded, Ok(date));
    let hdr = Ws6in1DataHeader { item_cnt: 1, item_idx: 2, frag_cnt: 4, frag_idx: 3 };
    let (bytes, decoded) = encode_decode(&hdr, 5);
    assert_eq!(bytes, vec![0, 1, 0, 2, 0x43]);
    assert_eq!(decoded, Ok(hdr));
}
