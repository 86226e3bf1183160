use robus::physical::{baudrate_register, timeout_reload};
use robus::{AssemblerState, BusEvent, Command, FrameAssembler, FramingError, Message, TargetMode};

fn sample() -> Message {
    let mut m = Message::new(TargetMode::Group, 0xBEEF, Command::Other(200), &[10, 20, 30]);
    m.header.source = 0x0102;
    m
}

#[test]
fn serialize_layout() {
    assert_eq!(sample().to_bytes(), vec![3, 0xEF, 0xBE, 0x02, 0x01, 200, 3, 10, 20, 30]);
}

#[test]
fn round_trip_keeps_source() {
    let m = sample();
    let back = Message::from_bytes(&m.to_bytes()).unwrap();
    assert_eq!(back, m);
    assert_eq!(back.header.source, 0x0102);
}

#[test]
fn round_trip_empty_and_largest_payload() {
    let empty = Message::broadcast(Command::Identify, &[]);
    assert_eq!(Message::from_bytes(&empty.to_bytes()).unwrap(), empty);
    let big: Vec<u8> = (0..255u32).map(|i| i as u8).collect();
    let m = Message::id(65535, Command::Ping, &big);
    let bytes = m.to_bytes();
    assert_eq!(bytes.len(), 7 + 255);
    assert_eq!(Message::from_bytes(&bytes).unwrap(), m);
}

#[test]
fn unknown_command_passes_through() {
    let bytes = [1u8, 5, 0, 6, 0, 99, 0];
    let m = Message::from_bytes(&bytes).unwrap();
    assert_eq!(m.header.command, Command::Other(99));
    assert_eq!(Command::from_code(2), Command::SetId);
    assert_eq!(Command::SetId.code(), 2);
}

#[test]
fn deserialize_errors() {
    assert_eq!(Message::from_bytes(&[1, 2, 3]), Err(FramingError::Truncated));
    assert_eq!(Message::from_bytes(&[1, 0, 0, 0, 0, 0, 2, 9]), Err(FramingError::SizeMismatch));
    assert_eq!(Message::from_bytes(&[9, 0, 0, 0, 0, 0, 0]), Err(FramingError::UnknownTargetMode));
}

#[test]
fn incremental_assembly() {
    let m = sample();
    let bytes = m.to_bytes();
    let mut fa = FrameAssembler::new();
    let mut got = Vec::new();
    for (i, b) in bytes.iter().enumerate() {
        let r = fa.push(*b);
        if i + 1 < bytes.len() {
            assert!(r.is_none());
            let expected = if i + 1 < 7 { AssemblerState::HeaderPartial } else { AssemblerState::PayloadPartial };
            assert_eq!(fa.state(), expected);
        }
        got.extend(r);
    }
    assert_eq!(got, vec![m]);
    assert_eq!(fa.state(), AssemblerState::Idle);
}

#[test]
fn zero_payload_completes_at_header() {
    let m = Message::id(4, Command::Ping, &[]);
    let mut fa = FrameAssembler::new();
    let evs: Vec<BusEvent> = m.to_bytes().into_iter().map(BusEvent::Byte).collect();
    let got = fa.feed(&evs);
    assert_eq!(got, vec![m]);
    assert_eq!(fa.state(), AssemblerState::Idle);
}

#[test]
fn timeout_drops_partial_frame() {
    let first = Message::id(1, Command::PublishState, &[1, 2, 3, 4]);
    let second = Message::broadcast(Command::SetId, &[5]);
    let mut evs: Vec<BusEvent> = first.to_bytes()[..9].iter().map(|b| BusEvent::Byte(*b)).collect();
    evs.push(BusEvent::Timeout);
    evs.extend(second.to_bytes().into_iter().map(BusEvent::Byte));
    let mut fa = FrameAssembler::new();
    let got = fa.feed(&evs);
    assert_eq!(got, vec![second]);
    assert_eq!(fa.state(), AssemblerState::Idle);
    assert_eq!(fa.recoveries(), 1);
}

#[test]
fn timeout_when_idle_counts_nothing() {
    let mut fa = FrameAssembler::new();
    assert!(fa.handle(BusEvent::Timeout).is_none());
    assert_eq!(fa.recoveries(), 0);
}

#[test]
fn bad_target_mode_frame_is_dropped() {
    let mut fa = FrameAssembler::new();
    let got = fa.feed(&[7, 0, 0, 0, 0, 0, 0].map(BusEvent::Byte));
    assert!(got.is_empty());
    assert_eq!(fa.state(), AssemblerState::Idle);
}

#[test]
fn target_mode_codes() {
    assert_eq!(TargetMode::from_code(1), Some(TargetMode::Id));
    assert_eq!(TargetMode::from_code(4), None);
    assert_eq!(TargetMode::Group.code(), 3);
}

#[test]
fn serial_timing_values() {
    // 48 MHz / (57600 / 2) = 1666
    assert_eq!(baudrate_register(57600), (2, 104));
    // (10 MHz / 57600) * 2 = 346
    assert_eq!(timeout_reload(57600), 346);
    // (10 MHz / 306) * 2 = 65358, the lowest rate that fits the timer
    assert_eq!(timeout_reload(306), 65358);
    // 48 MHz / (1500 / 2) = 64000: mantissa 4000, fraction 0
    assert_eq!(baudrate_register(1500), (0, 4000));
}
