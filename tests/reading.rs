use plant_sensor::reading::{command_frame, decode, decode_code, LocalTime, CODE_MAX, CONTROL_BYTE};

fn volts(code: u16) -> f32 {
    3.3 * code as f32 / 4096.0
}

#[test]
fn command_frame_opens_with_control_byte() {
    assert_eq!(command_frame(), [0x06, 0x00, 0x00]);
    assert_eq!(CONTROL_BYTE, 0x06);
}

#[test]
fn code_takes_low_nibble_of_second_byte() {
    assert_eq!(decode_code(&[0x06, 0x08, 0x00]), 2048);
    assert_eq!(decode_code(&[0x06, 0x04, 0x00]), 1024);
    assert_eq!(decode_code(&[0x00, 0xF8, 0x00]), 2048);
    assert_eq!(decode_code(&[0xFF, 0x0A, 0xBC]), 0xABC);
    assert_eq!(decode_code(&[0x06, 0x00, 0x01]), 1);
}

#[test]
fn code_matches_bit_formula_for_all_middle_and_last_bytes() {
    for b1 in 0u16..=255 {
        for b2 in 0u16..=255 {
            let reply = [0x06u8, b1 as u8, b2 as u8];
            let expected = ((b1 & 0x0F) << 8) | b2;
            let code = decode_code(&reply);
            assert_eq!(code, expected);
            assert_eq!(volts(code), 3.3 * expected as f32 / 4096.0);
        }
    }
}

#[test]
fn boundary_replies() {
    let low = decode_code(&[0x06, 0x00, 0x00]);
    assert_eq!(low, 0);
    assert_eq!(volts(low), 0.0);
    let high = decode_code(&[0x06, 0x0F, 0xFF]);
    assert_eq!(high, CODE_MAX);
    assert!((volts(high) - 3.2992).abs() < 0.0001);
}

#[test]
fn decode_keeps_timestamp() {
    let t = LocalTime { unix_nanos: 1_700_000_000_000_000_000, offset_seconds: 32400 };
    let r = decode(&[0x06, 0x08, 0x00], t);
    assert_eq!(r.code, 2048);
    assert_eq!(r.taken_at, t);
    assert_eq!(volts(r.code), 1.65);
}
