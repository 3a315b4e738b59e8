//! Byte fixtures built from the Z1's MIDI implementation tables.

use z1_protocol::{
    device_inquiry_request, pack_7in8, parse_device_inquiry_reply, split14, u14, unpack_7in8,
    Bank, Channel, DecodeError, DumpScope, Group, Message, ParamId, ProgramNo, Value,
};

fn ch(n: u8) -> Channel {
    Channel::new(n).unwrap()
}

#[test]
fn parameter_change_round_trip() {
    // F0 42 3g 46 41 <group> <idL> <idM> <valL> <valM> F7.
    // Filter1 Cutoff is program parameter 263 = 0x107 -> LSB 07, MSB 02.
    let msg = Message::ParameterChange {
        group: Group::Program,
        id: ParamId::new(263).unwrap(),
        value: Value::new(50).unwrap(),
    };
    let bytes = msg.encode(ch(0));
    assert_eq!(
        bytes,
        [0xF0, 0x42, 0x30, 0x46, 0x41, 0x01, 0x07, 0x02, 0x32, 0x00, 0xF7]
    );
    assert_eq!(Message::decode(&bytes).unwrap(), (ch(0), msg));
}

#[test]
fn negative_values_use_14_bit_twos_complement() {
    // -99 in 14-bit two's complement is 0x3F9D -> LSB 0x1D, MSB 0x7F.
    let msg = Message::ParameterChange {
        group: Group::Program,
        id: ParamId::new(31).unwrap(), // EG1 Start Level, -99..+99
        value: Value::new(-99).unwrap(),
    };
    let bytes = msg.encode(ch(3));
    assert_eq!(
        bytes,
        [0xF0, 0x42, 0x33, 0x46, 0x41, 0x01, 0x1F, 0x00, 0x1D, 0x7F, 0xF7]
    );
    let (channel, decoded) = Message::decode(&bytes).unwrap();
    assert_eq!(channel, ch(3));
    assert_eq!(decoded, msg);
}

#[test]
fn current_program_dump_request_layout() {
    // F0 42 3g 46 10 00 F7.
    let bytes = Message::CurrentProgramDumpRequest.encode(ch(0));
    assert_eq!(bytes, [0xF0, 0x42, 0x30, 0x46, 0x10, 0x00, 0xF7]);
    assert_eq!(
        Message::decode(&bytes).unwrap().1,
        Message::CurrentProgramDumpRequest
    );
}

#[test]
fn program_dump_request_scopes() {
    // F0 42 3g 46 1C <00uu000b> <prog> 00 F7.
    let single = Message::ProgramDumpRequest(DumpScope::Single {
        bank: Bank::B,
        program: ProgramNo::new(5).unwrap(),
    });
    assert_eq!(
        single.encode(ch(0)),
        [0xF0, 0x42, 0x30, 0x46, 0x1C, 0x01, 0x05, 0x00, 0xF7]
    );

    let bank = Message::ProgramDumpRequest(DumpScope::Bank(Bank::A));
    assert_eq!(
        bank.encode(ch(0)),
        [0xF0, 0x42, 0x30, 0x46, 0x1C, 0x10, 0x00, 0x00, 0xF7]
    );

    let all = Message::ProgramDumpRequest(DumpScope::All);
    assert_eq!(
        all.encode(ch(0)),
        [0xF0, 0x42, 0x30, 0x46, 0x1C, 0x20, 0x00, 0x00, 0xF7]
    );

    for msg in [single, bank, all] {
        let bytes = msg.encode(ch(9));
        assert_eq!(Message::decode(&bytes).unwrap(), (ch(9), msg));
    }
}

#[test]
fn program_write_request_layout() {
    // F0 42 3g 46 11 <bank> <prog> F7.
    let msg = Message::ProgramWriteRequest {
        bank: Bank::A,
        program: ProgramNo::new(127).unwrap(),
    };
    let bytes = msg.encode(ch(15));
    assert_eq!(bytes, [0xF0, 0x42, 0x3F, 0x46, 0x11, 0x00, 0x7F, 0xF7]);
    assert_eq!(Message::decode(&bytes).unwrap(), (ch(15), msg));
}

#[test]
fn acknowledgement_messages() {
    let cases: [(Message, &[u8]); 5] = [
        (Message::DataFormatError, &[0x26]),
        (Message::DataLoadCompleted, &[0x23]),
        (Message::DataLoadError, &[0x24, 0x00]),
        (Message::WriteCompleted, &[0x21]),
        (Message::WriteError, &[0x22, 0x00]),
    ];
    for (msg, tail) in cases {
        let mut expected = vec![0xF0, 0x42, 0x30, 0x46];
        expected.extend_from_slice(tail);
        expected.push(0xF7);
        assert_eq!(msg.encode(ch(0)), expected);
        assert_eq!(Message::decode(&expected).unwrap(), (ch(0), msg));
    }
}

#[test]
fn current_program_dump_round_trip() {
    // F0 42 3g 46 40 01 <7-in-8 packed data> F7.
    let payload: Vec<u8> = (0..=255u16).map(|b| (b % 256) as u8).collect();
    let msg = Message::CurrentProgramDump(payload.clone());
    let bytes = msg.encode(ch(1));
    assert_eq!(bytes[..6], [0xF0, 0x42, 0x31, 0x46, 0x40, 0x01]);
    assert!(bytes[6..bytes.len() - 1].iter().all(|b| b & 0x80 == 0));
    let (_, decoded) = Message::decode(&bytes).unwrap();
    assert_eq!(decoded, Message::CurrentProgramDump(payload));
}

#[test]
fn pack_7in8_lead_byte_carries_top_bits() {
    // Bit i of the lead byte is bit 7 of the i-th following byte.
    assert_eq!(pack_7in8(&[0x80]), [0x01, 0x00]);
    assert_eq!(pack_7in8(&[0x00, 0xFF]), [0x02, 0x00, 0x7F]);
    assert_eq!(
        pack_7in8(&[0xFF; 7]),
        [0x7F, 0x7F, 0x7F, 0x7F, 0x7F, 0x7F, 0x7F, 0x7F]
    );
    assert_eq!(unpack_7in8(&[0x01, 0x00]).unwrap(), [0x80]);
}

#[test]
fn pack_unpack_round_trips_all_lengths() {
    for len in 0..=32usize {
        let data: Vec<u8> = (0..len).map(|i| (i * 37 % 256) as u8).collect();
        assert_eq!(
            unpack_7in8(&pack_7in8(&data)).unwrap(),
            data,
            "length {len}"
        );
    }
}

#[test]
fn unpack_rejects_high_bits() {
    assert_eq!(unpack_7in8(&[0x80, 0x00]), Err(DecodeError::HighBitInData));
    assert_eq!(unpack_7in8(&[0x00, 0x80]), Err(DecodeError::HighBitInData));
}

#[test]
fn decode_rejects_foreign_messages() {
    assert_eq!(Message::decode(&[]), Err(DecodeError::NotSysEx));
    assert_eq!(
        Message::decode(&[0x90, 0x3C, 0x64]),
        Err(DecodeError::NotSysEx)
    );
    // Roland manufacturer ID.
    assert_eq!(
        Message::decode(&[0xF0, 0x41, 0x30, 0x46, 0x10, 0x00, 0xF7]),
        Err(DecodeError::NotKorgZ1)
    );
    assert_eq!(
        Message::decode(&[0xF0, 0x42, 0x30, 0x46, 0x7F, 0xF7]),
        Err(DecodeError::UnknownFunction(0x7F))
    );
    assert_eq!(
        Message::decode(&[0xF0, 0x42, 0x30, 0x46, 0x41, 0x01, 0xF7]),
        Err(DecodeError::Malformed)
    );
}

#[test]
fn device_inquiry() {
    // Request F0 7E 0g 06 01 F7; the reply identifies family 46 00, member
    // 01 00, then minor/major version pairs.
    assert_eq!(
        device_inquiry_request(ch(0)),
        [0xF0, 0x7E, 0x00, 0x06, 0x01, 0xF7]
    );
    let reply = [
        0xF0, 0x7E, 0x02, 0x06, 0x02, 0x42, 0x46, 0x00, 0x01, 0x00, 0x0A, 0x00, 0x01, 0x00,
        0xF7,
    ];
    let info = parse_device_inquiry_reply(&reply).unwrap();
    assert_eq!(info.channel, ch(2));
    assert_eq!(info.major_version, 1);
    assert_eq!(info.minor_version, 10);
    // A Yamaha reply must not match.
    let yamaha = [
        0xF0, 0x7E, 0x02, 0x06, 0x02, 0x43, 0x46, 0x00, 0x01, 0x00, 0x0A, 0x00, 0x01, 0x00,
        0xF7,
    ];
    assert!(parse_device_inquiry_reply(&yamaha).is_none());
}

#[test]
fn newtype_bounds() {
    assert!(Channel::new(16).is_none());
    assert!(ParamId::new(0x4000).is_none());
    assert!(ProgramNo::new(128).is_none());
    assert!(Value::new(0x2000).is_none());
    assert!(Value::new(-0x2001).is_none());
    assert_eq!(Value::new(Value::MIN).unwrap().get(), -8192);
    assert_eq!(Value::new(Value::MAX).unwrap().get(), 8191);
}

#[test]
fn wire_byte_helpers() {
    for v in [0u16, 1, 0x7F, 0x80, 263, 0x1FFF, 0x3FFF] {
        let (lsb, msb) = split14(v);
        assert!(lsb < 0x80 && msb < 0x80);
        assert_eq!(u14(lsb, msb), v, "value {v:#x}");
    }
    assert_eq!(Value::from_raw14(0x3F9D).get(), -99);
    assert_eq!(Value::new(-99).unwrap().to_raw14(), 0x3F9D);
}
