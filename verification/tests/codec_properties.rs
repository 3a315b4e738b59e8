//! Further cases: every error variant, the edges of each range, and the laws
//! of the codec on concrete values.

use z1_protocol::{
    device_inquiry_request, pack_7in8, parse_device_inquiry_reply, split14, u14, unpack_7in8,
    Bank, Channel, DecodeError, DumpScope, Group, Message, ParamId, ProgramNo, Value,
};

fn ch(n: u8) -> Channel {
    Channel::new(n).unwrap()
}

fn sample_messages() -> Vec<Message> {
    vec![
        Message::ParameterChange {
            group: Group::GlobalMidi,
            id: ParamId::new(0).unwrap(),
            value: Value::new(Value::MIN).unwrap(),
        },
        Message::ParameterChange {
            group: Group::Pattern,
            id: ParamId::new(0x3FFF).unwrap(),
            value: Value::new(Value::MAX).unwrap(),
        },
        Message::ParameterChange {
            group: Group::Multi,
            id: ParamId::new(0x2000).unwrap(),
            value: Value::new(-1).unwrap(),
        },
        Message::CurrentProgramDumpRequest,
        Message::ProgramDumpRequest(DumpScope::Single {
            bank: Bank::A,
            program: ProgramNo::new(0).unwrap(),
        }),
        Message::ProgramDumpRequest(DumpScope::Bank(Bank::B)),
        Message::ProgramWriteRequest {
            bank: Bank::B,
            program: ProgramNo::new(64).unwrap(),
        },
        Message::CurrentProgramDump(vec![]),
        Message::CurrentProgramDump(vec![0xFF, 0x00, 0x80, 0x7F, 0x01, 0xFE, 0x81, 0x40]),
        Message::DataFormatError,
        Message::DataLoadCompleted,
        Message::DataLoadError,
        Message::WriteCompleted,
        Message::WriteError,
    ]
}

#[test]
fn every_message_decodes_back_on_every_channel() {
    for msg in sample_messages() {
        for c in 0..16u8 {
            let bytes = msg.encode(ch(c));
            assert_eq!(Message::decode(&bytes), Ok((ch(c), msg.clone())));
        }
    }
}

#[test]
fn encoded_messages_are_framed_seven_bit_sysex() {
    for msg in sample_messages() {
        let bytes = msg.encode(ch(7));
        assert!(bytes.len() >= 6);
        assert_eq!(bytes[0], 0xF0);
        assert_eq!(bytes[bytes.len() - 1], 0xF7);
        assert!(bytes[1..bytes.len() - 1].iter().all(|b| *b < 0x80));
    }
}

#[test]
fn extreme_parameter_values_on_the_wire() {
    let msg = Message::ParameterChange {
        group: Group::Multi,
        id: ParamId::new(0x3FFF).unwrap(),
        value: Value::new(Value::MIN).unwrap(),
    };
    // -8192 is 0x2000 in 14 bits -> LSB 00, MSB 40.
    assert_eq!(
        msg.encode(ch(0)),
        [0xF0, 0x42, 0x30, 0x46, 0x41, 0x03, 0x7F, 0x7F, 0x00, 0x40, 0xF7]
    );
}

#[test]
fn truncated_z1_headers() {
    assert_eq!(
        Message::decode(&[0xF0, 0x42, 0x30, 0x46]),
        Err(DecodeError::Truncated)
    );
    assert_eq!(
        Message::decode(&[0xF0, 0x42, 0x30, 0x46, 0xF7]),
        Err(DecodeError::Truncated)
    );
    assert_eq!(
        Message::decode(&[0xF0, 0x42, 0x30, 0x46, 0x10, 0x00]),
        Err(DecodeError::Truncated)
    );
}

#[test]
fn other_headers_are_not_z1() {
    // Framed SysEx from another maker is SysEx, but no Z1 message.
    assert_eq!(Message::decode(&[0xF0, 0xF7]), Err(DecodeError::NotKorgZ1));
    assert_eq!(
        Message::decode(&[0xF0, 0x42, 0x30, 0x47, 0x10, 0x00, 0xF7]),
        Err(DecodeError::NotKorgZ1)
    );
    // The format byte's high nibble must be 3.
    assert_eq!(
        Message::decode(&[0xF0, 0x42, 0x20, 0x46, 0x10, 0x00, 0xF7]),
        Err(DecodeError::NotKorgZ1)
    );
    assert_eq!(
        Message::decode(&[0x42, 0x30, 0x46, 0x10, 0x00, 0xF7]),
        Err(DecodeError::NotSysEx)
    );
}

#[test]
fn unframed_strings_are_not_sysex() {
    // Without the closing F7 a string is no SysEx message at all.
    assert_eq!(Message::decode(&[0xF0]), Err(DecodeError::NotSysEx));
    assert_eq!(
        Message::decode(&[0xF0, 0x41, 0x30, 0x46, 0x10, 0x00]),
        Err(DecodeError::NotSysEx)
    );
    // A Z1 header without its EOX is truncated.
    assert_eq!(
        Message::decode(&[0xF0, 0x42, 0x30, 0x46, 0x10]),
        Err(DecodeError::Truncated)
    );
}

#[test]
fn malformed_payloads() {
    // Group 4 does not exist.
    assert_eq!(
        Message::decode(&[0xF0, 0x42, 0x30, 0x46, 0x41, 0x04, 0x00, 0x00, 0x00, 0x00, 0xF7]),
        Err(DecodeError::Malformed)
    );
    // Unit 3 does not exist.
    assert_eq!(
        Message::decode(&[0xF0, 0x42, 0x30, 0x46, 0x1C, 0x30, 0x00, 0x00, 0xF7]),
        Err(DecodeError::Malformed)
    );
    // A single program needs a slot number below 128.
    assert_eq!(
        Message::decode(&[0xF0, 0x42, 0x30, 0x46, 0x1C, 0x00, 0x80, 0x00, 0xF7]),
        Err(DecodeError::Malformed)
    );
    // Bank 2 does not exist.
    assert_eq!(
        Message::decode(&[0xF0, 0x42, 0x30, 0x46, 0x11, 0x02, 0x00, 0xF7]),
        Err(DecodeError::Malformed)
    );
    // A dump needs its 01 byte.
    assert_eq!(
        Message::decode(&[0xF0, 0x42, 0x30, 0x46, 0x40, 0xF7]),
        Err(DecodeError::Malformed)
    );
    assert_eq!(
        Message::decode(&[0xF0, 0x42, 0x30, 0x46, 0x10, 0x01, 0xF7]),
        Err(DecodeError::Malformed)
    );
}

#[test]
fn dump_with_high_bit_is_refused() {
    assert_eq!(
        Message::decode(&[0xF0, 0x42, 0x30, 0x46, 0x40, 0x01, 0x00, 0x80, 0xF7]),
        Err(DecodeError::HighBitInData)
    );
}

#[test]
fn dump_request_scope_byte_must_match_its_layout() {
    // Bits outside 00uu000b are refused.
    assert_eq!(
        Message::decode(&[0xF0, 0x42, 0x30, 0x46, 0x1C, 0x02, 0x05, 0x00, 0xF7]),
        Err(DecodeError::Malformed)
    );
    assert_eq!(
        Message::decode(&[0xF0, 0x42, 0x30, 0x46, 0x1C, 0x41, 0x00, 0x00, 0xF7]),
        Err(DecodeError::Malformed)
    );
    // The program byte of a bank request is not looked at.
    assert_eq!(
        Message::decode(&[0xF0, 0x42, 0x35, 0x46, 0x1C, 0x11, 0x05, 0x00, 0xF7]),
        Ok((ch(5), Message::ProgramDumpRequest(DumpScope::Bank(Bank::B))))
    );
}

#[test]
fn parameter_bytes_keep_only_seven_bits() {
    // The top bit of each id/value byte is ignored.
    assert_eq!(
        Message::decode(&[0xF0, 0x42, 0x30, 0x46, 0x41, 0x01, 0x87, 0x02, 0x32, 0x80, 0xF7]),
        Ok((
            ch(0),
            Message::ParameterChange {
                group: Group::Program,
                id: ParamId::new(263).unwrap(),
                value: Value::new(50).unwrap(),
            }
        ))
    );
}

#[test]
fn pack_groups_of_seven() {
    let data: Vec<u8> = (0..8u8).map(|i| 0x80 | i).collect();
    assert_eq!(
        pack_7in8(&data),
        [0x7F, 0x00, 0x01, 0x02, 0x03, 0x04, 0x05, 0x06, 0x01, 0x07]
    );
    assert!(pack_7in8(&[]).is_empty());
    assert_eq!(unpack_7in8(&[]), Ok(vec![]));
    // A lone lead byte carries no data.
    assert_eq!(unpack_7in8(&[0x7F]), Ok(vec![]));
}

#[test]
fn lead_byte_bits_follow_top_bits() {
    let data = [0x00, 0x80, 0x00, 0xFF, 0x00, 0x00, 0x81];
    let packed = pack_7in8(&data);
    assert_eq!(packed[0], 0b0100_1010);
}

#[test]
fn split_and_join_are_inverse() {
    for lsb in 0..0x80u8 {
        for msb in [0u8, 1, 0x40, 0x7F] {
            assert_eq!(split14(u14(lsb, msb)), (lsb, msb));
        }
    }
    // Only the low 14 bits travel.
    assert_eq!(split14(0xC107), (0x07, 0x02));
    assert_eq!(u14(0x87, 0x82), 0x107);
}

#[test]
fn raw14_round_trips_every_value() {
    for v in Value::MIN..=Value::MAX {
        let value = Value::new(v).unwrap();
        let raw = value.to_raw14();
        assert!(raw < 0x4000);
        assert_eq!(Value::from_raw14(raw), value);
    }
    assert_eq!(Value::from_raw14(0x2000).get(), -8192);
    assert_eq!(Value::from_raw14(0x1FFF).get(), 8191);
    // The top two bits of the raw pattern are ignored.
    assert_eq!(Value::from_raw14(0xFF9D).get(), -99);
}

#[test]
fn range_checked_types_keep_their_values() {
    assert_eq!(Channel::new(15).unwrap().get(), 15);
    assert_eq!(ParamId::new(0x3FFF).unwrap().get(), 0x3FFF);
    assert_eq!(ProgramNo::new(127).unwrap().get(), 127);
    assert!(Value::new(i16::MIN).is_none());
}

#[test]
fn device_inquiry_edges() {
    assert_eq!(
        device_inquiry_request(ch(15)),
        [0xF0, 0x7E, 0x0F, 0x06, 0x01, 0xF7]
    );
    let mut reply = vec![
        0xF0, 0x7E, 0x10, 0x06, 0x02, 0x42, 0x46, 0x00, 0x01, 0x00, 0x7F, 0x7F, 0x00, 0x01,
        0xF7,
    ];
    // Channel 16 is no channel.
    assert!(parse_device_inquiry_reply(&reply).is_none());
    reply[2] = 0x0F;
    let info = parse_device_inquiry_reply(&reply).unwrap();
    assert_eq!(info.channel, ch(15));
    assert_eq!(info.minor_version, 0x3FFF);
    assert_eq!(info.major_version, 0x80);
    reply.pop();
    assert!(parse_device_inquiry_reply(&reply).is_none());
}

#[test]
fn error_messages() {
    assert_eq!(DecodeError::NotSysEx.message(), "not a SysEx message");
    assert_eq!(
        DecodeError::NotKorgZ1.message(),
        "not a Korg Z1 exclusive message"
    );
    assert_eq!(DecodeError::Truncated.message(), "truncated Z1 message");
    assert_eq!(
        DecodeError::UnknownFunction(0x7F).message(),
        "unknown Z1 function 0x7f"
    );
    assert_eq!(
        DecodeError::UnknownFunction(0x0A).message(),
        "unknown Z1 function 0x0a"
    );
    assert_eq!(
        DecodeError::Malformed.message(),
        "payload does not match the spec layout"
    );
    assert_eq!(
        DecodeError::HighBitInData.message(),
        "dump data byte has the high bit set"
    );
}
