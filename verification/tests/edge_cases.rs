use peak_codec::{Deserialize, DeserializeError, FilterConfig, MeasuredPeak, Message, Serialize, Status};

#[test]
fn status_round_trip() {
    let buffer = Status::Start.serialize();
    assert_eq!(Ok((Status::Start, 1)), Status::deserialize(&buffer));
    let buffer = Status::Stop.serialize();
    assert_eq!(Ok((Status::Stop, 1)), Status::deserialize(&buffer));
}

#[test]
fn status_invalid_discriminant() {
    assert_eq!(Err(DeserializeError::WrongValue), Status::deserialize(&[2]));
}

#[test]
fn status_empty_buffer() {
    assert_eq!(Err(DeserializeError::BufferToShort(1)), Status::deserialize(&[]));
}

#[test]
fn message_invalid_discriminant() {
    assert_eq!(Err(DeserializeError::WrongValue), Message::deserialize(&[3, 0, 0]));
}

#[test]
fn message_invalid_status_byte() {
    assert_eq!(Err(DeserializeError::WrongValue), Message::deserialize(&[1, 7]));
}

#[test]
fn message_empty_buffer() {
    assert_eq!(Err(DeserializeError::BufferToShort(1)), Message::deserialize(&[]));
}

#[test]
fn peak_truncated() {
    let peak = MeasuredPeak { timestamp: 1, peak_height: 2, speed: 3, cycle: 4 };
    let buffer = peak.serialize();
    assert_eq!(
        Err(DeserializeError::BufferToShort(8)),
        MeasuredPeak::deserialize(&buffer[..10])
    );
}

#[test]
fn config_truncated() {
    let config = FilterConfig { pthresh: 1, tdead: 2, k: 3, l: 4, m: 5 };
    let buffer = config.serialize();
    assert_eq!(
        Err(DeserializeError::BufferToShort(15)),
        FilterConfig::deserialize(&buffer[..25])
    );
}

#[test]
fn message_status_truncated() {
    assert_eq!(Err(DeserializeError::BufferToShort(1)), Message::deserialize(&[1]));
}

#[test]
fn message_config_truncated() {
    let config = FilterConfig { pthresh: 1, tdead: 2, k: 3, l: 4, m: 5 };
    let sermsg = Message::Config(config).serialize();
    assert_eq!(41, sermsg.len());
    assert_eq!(
        Err(DeserializeError::BufferToShort(21)),
        Message::deserialize(&sermsg[..20])
    );
}

#[test]
fn message_data_count_truncated() {
    // Four bytes under tag 0: the 8-byte count itself is short by 5.
    assert_eq!(Err(DeserializeError::BufferToShort(5)), Message::deserialize(&[0, 0, 0, 0]));
}

#[test]
fn record_lengths() {
    let peak = MeasuredPeak { timestamp: 1, peak_height: 2, speed: 3, cycle: 4 };
    assert_eq!(18, peak.serialize().len());
    let config = FilterConfig { pthresh: 1, tdead: 2, k: 3, l: 4, m: 5 };
    assert_eq!(40, config.serialize().len());
    assert_eq!(1, Status::Start.serialize().len());
    assert_eq!(1, Status::Stop.serialize().len());
}

#[test]
fn message_lengths() {
    assert_eq!(2, Message::Status(Status::Stop).serialize().len());
    let config = FilterConfig { pthresh: 1, tdead: 2, k: 3, l: 4, m: 5 };
    assert_eq!(41, Message::Config(config).serialize().len());
    assert_eq!(9, Message::Data(vec![]).serialize().len());
}

#[test]
fn message_data_empty_round_trip() {
    let message = Message::Data(vec![]);
    let sermsg = message.serialize();
    let (desermsg, size) = Message::deserialize(&sermsg).unwrap();
    assert_eq!(message, desermsg);
    assert_eq!(9, size);
}

#[test]
fn message_consumed_counts() {
    let peak = MeasuredPeak { timestamp: 10, peak_height: 20, speed: 30, cycle: 40 };
    let sermsg = Message::Data(vec![peak]).serialize();
    let (_, size) = Message::deserialize(&sermsg).unwrap();
    assert_eq!(27, size);
    let (_, size) = Message::deserialize(&Message::Status(Status::Start).serialize()).unwrap();
    assert_eq!(2, size);
    let config = FilterConfig { pthresh: 1, tdead: 2, k: 3, l: 4, m: 5 };
    let (_, size) = Message::deserialize(&Message::Config(config).serialize()).unwrap();
    assert_eq!(41, size);
}

#[test]
fn peak_decode_ignores_trailing_bytes() {
    let peak = MeasuredPeak { timestamp: 77, peak_height: 88, speed: 99, cycle: 111 };
    let mut buffer = peak.serialize();
    buffer.push(0xaa);
    buffer.push(0xbb);
    assert_eq!(Ok((peak, 18)), MeasuredPeak::deserialize(&buffer));
}

#[test]
fn messages_back_to_back() {
    let config = FilterConfig { pthresh: 6, tdead: 7, k: 8, l: 9, m: 10 };
    let mut stream = Message::Status(Status::Stop).serialize();
    stream.extend(Message::Config(config).serialize());
    let (first, consumed) = Message::deserialize(&stream).unwrap();
    assert_eq!(Message::Status(Status::Stop), first);
    assert_eq!(2, consumed);
    let (second, consumed) = Message::deserialize(&stream[2..]).unwrap();
    let config = FilterConfig { pthresh: 6, tdead: 7, k: 8, l: 9, m: 10 };
    assert_eq!(Message::Config(config), second);
    assert_eq!(41, consumed);
}

#[test]
fn peak_new_unpacks_bit_fields() {
    // timestamp 0x12A3456789 little-endian over bytes 0-4;
    // cycle 0x3CDEF: bytes 5-6 plus bits 0-1 of byte 7;
    // speed 0x3b3: bits 2-7 of byte 7 plus bits 0-3 of byte 8;
    // peak height 0xABCDEF1: bits 4-7 of byte 8 plus bytes 9-11.
    let raw: Vec<u8> = vec![
        0x89, 0x67, 0x45, 0xa3, 0x12, 0xef, 0xcd, 0xcf, 0x1e, 0xef, 0xcd, 0xab,
    ];
    let peak = MeasuredPeak::new(&raw);
    assert_eq!(0x12A3456789, peak.timestamp);
    assert_eq!(0x3CDEF, peak.cycle);
    assert_eq!(0x3b3, peak.speed);
    assert_eq!(0xABCDEF1, peak.peak_height);
}

#[test]
fn peak_new_all_zero() {
    let raw: Vec<u8> = vec![0; 12];
    let peak = MeasuredPeak::new(&raw);
    assert_eq!(0, peak.timestamp);
    assert_eq!(0, peak.cycle);
    assert_eq!(0, peak.speed);
    assert_eq!(0, peak.peak_height);
}

#[test]
fn peak_to_hex_string() {
    let peak =
        MeasuredPeak { timestamp: 59182041740, peak_height: 53950023, speed: 947, cycle: 40278 };
    assert_eq!("8c4a86c70d000000 47363703 569d0000 b303", peak.to_hex_string());
}
