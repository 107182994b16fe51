use motion_desk::position::{
    target_raw, bounds_in_target_range, le_bytes, parse_height, Height, PositionError, BASE_HEIGHT,
    MAX_HEIGHT, MIN_HEIGHT,
};

#[test]
fn parse_height_reads_position_and_speed() {
    let h = parse_height(&[0x34, 0x12, 0x05, 0x00]).unwrap();
    assert_eq!(h, Height { raw: 0x1234, speed: 5 });
}

#[test]
fn parse_height_negative_speed() {
    let h = parse_height(&[0x00, 0x00, 0xFF, 0xFF]).unwrap();
    assert_eq!(h.speed, -1);
    let h = parse_height(&[0x00, 0x00, 0x00, 0x80]).unwrap();
    assert_eq!(h.speed, i16::MIN);
}

#[test]
fn parse_height_ignores_trailing_bytes() {
    let h = parse_height(&[0x10, 0x00, 0x00, 0x00, 0xAA, 0xBB]).unwrap();
    assert_eq!(h, Height { raw: 16, speed: 0 });
}

#[test]
fn parse_height_too_short() {
    assert_eq!(parse_height(&[1, 2, 3]), Err(PositionError::TooShort));
    assert_eq!(parse_height(&[]), Err(PositionError::TooShort));
}

#[test]
fn height_is_base_plus_raw() {
    // raw 1500 = 150 mm above the 630 mm base: 78 cm.
    let h = Height { raw: 1500, speed: 0 };
    assert_eq!(h.height(), 7800);
    assert_eq!(Height { raw: 0, speed: 0 }.height(), BASE_HEIGHT);
}

#[test]
fn target_raw_formula() {
    // 110 cm: (1100 - 630) * 10 = 4700.
    assert_eq!(target_raw(11000), 4700);
    assert_eq!(target_raw(7500), 1200);
}

#[test]
fn target_raw_clamps() {
    assert_eq!(target_raw(0), 0);
    assert_eq!(target_raw(-5), 0);
    assert_eq!(target_raw(6299), 0);
    assert_eq!(target_raw(12801), 6500);
    assert_eq!(target_raw(i64::MAX), 6500);
    assert_eq!(target_raw(MAX_HEIGHT as i64), 6500);
}

#[test]
fn target_of_reading_round_trip() {
    for raw in [0u16, 1, 1234, 6500] {
        let h = Height { raw, speed: 0 };
        assert_eq!(target_raw(h.height() as i64), raw);
    }
}

#[test]
fn le_bytes_of_values() {
    assert_eq!(le_bytes(0x1234), [0x34, 0x12]);
    assert_eq!(le_bytes(4700), 4700u16.to_le_bytes());
    assert_eq!(le_bytes(0x00FE), [0xFE, 0x00]);
}

#[test]
fn bounds_range_check() {
    // 62.996 cm lies between 6299 and 6300 tenths of a millimetre: refused.
    assert!(!bounds_in_target_range(6299, 6300));
    assert!(bounds_in_target_range(6300, 6300));
    assert!(bounds_in_target_range(12799, 12800));
    // 128.004 cm: refused.
    assert!(!bounds_in_target_range(12800, 12801));
}
