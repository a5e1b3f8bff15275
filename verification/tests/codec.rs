use peak_codec::{Deserialize, DeserializeError, FilterConfig, MeasuredPeak, Message, Serialize, Status};

#[test]
fn filter_serialize() {
    let serialized_data: Vec<u8> = vec![
        0, 0, 0, 0, 0, 15, 66, 64, 0, 0, 0, 0, 0, 0, 0, 100, 0, 0, 0, 0, 0, 0, 0, 20, 0, 0, 0, 0,
        0, 0, 0, 50, 0, 0, 0, 0, 0, 30, 132, 128,
    ];
    let config = FilterConfig { pthresh: 1_000_000, tdead: 100, k: 20, l: 50, m: 2_000_000 };
    for (ser_byte, ref_byte) in config.serialize().iter().zip(serialized_data.iter()) {
        assert_eq!(ser_byte, ref_byte);
    }
}

#[test]
fn peak_serialize() {
    let serialized_data: Vec<u8> = vec![
        0, 0, 0, 0x0d, 0xc7, 0x86, 0x4a, 0x8c, 0x03, 0x37, 0x36, 0x47, 0x03, 0xb3, 0, 0, 0x9d,
        0x56,
    ];
    let peak =
        MeasuredPeak { timestamp: 59182041740, peak_height: 53950023, speed: 947, cycle: 40278 };
    for (ser_byte, ref_byte) in peak.serialize().iter().zip(serialized_data.iter()) {
        assert_eq!(ser_byte, ref_byte);
    }
}

#[test]
fn peak_serialize_deserialize() {
    let peak =
        MeasuredPeak { timestamp: 59182041740, peak_height: 53950023, speed: 947, cycle: 40278 };
    let buffer = peak.serialize();
    assert_eq!(Ok((peak, 18)), MeasuredPeak::deserialize(&buffer));
}

#[test]
fn filter_serialize_deserialize() {
    let config = FilterConfig { pthresh: 1_000_000, tdead: 100, k: 20, l: 50, m: 2_000_000 };
    let buffer = config.serialize();
    assert_eq!(Ok((config, 40)), FilterConfig::deserialize(&buffer));
}

#[test]
fn serialize_status() {
    let stat = Status::Start;
    let ser_data = stat.serialize();
    assert_eq!(ser_data[0], 0);
    let stat = Status::Stop;
    let ser_data = stat.serialize();
    assert_eq!(ser_data[0], 1);
}

#[test]
fn message_data_serialize_deserialize() {
    let peak =
        MeasuredPeak { timestamp: 59182041740, peak_height: 53950023, speed: 947, cycle: 40278 };
    let peak2 =
        MeasuredPeak { timestamp: 59182041740, peak_height: 53950023, speed: 947, cycle: 40278 };
    let message = Message::Data(vec![peak2, peak]);
    let sermsg = message.serialize();
    let (desermsg, _size) = Message::deserialize(&sermsg).unwrap();
    assert_eq!(message, desermsg);
}

#[test]
fn message_config_serialize_deserialize() {
    let config = FilterConfig { pthresh: 1_000_000, tdead: 100, k: 20, l: 50, m: 2_000_000 };
    let message = Message::Config(config);
    let sermsg = message.serialize();
    let (desermsg, _size) = Message::deserialize(&sermsg).unwrap();
    println!("{:?}, {}", sermsg, sermsg.len());
    assert_eq!(message, desermsg);
}

#[test]
fn message_status_serialize_deserialize() {
    let status = Status::Start;
    let msg = Message::Status(status);
    let sermsg = msg.serialize();
    let (desermsg, _size) = Message::deserialize(&sermsg).unwrap();
    assert_eq!(msg, desermsg);
}

#[test]
fn message_data_not_enough_bytes() {
    let peak =
        MeasuredPeak { timestamp: 59182041740, peak_height: 53950023, speed: 947, cycle: 40278 };
    let peak2 =
        MeasuredPeak { timestamp: 59182041740, peak_height: 53950023, speed: 947, cycle: 40278 };
    let message = Message::Data(vec![peak2, peak]);
    let sermsg = message.serialize();
    let deser_result = Message::deserialize(&sermsg[..10]);
    println!("{:?}", deser_result);
    println!("{:?}, {}", sermsg, sermsg.len());
    assert_eq!(45, sermsg.len());
    assert_eq!(Err(DeserializeError::BufferToShort(35)), deser_result);
}
