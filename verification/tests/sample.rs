use weather_station::sample::{
    assemble_raw, read_address, read_frame, settings_frame, write_address, RawSample, CTRL_MEAS,
    PRESS_MSB, TEMP_MSB,
};

#[test]
fn packing_matches_shift_and_or() {
    for (msb, lsb, xlsb) in [
        (0u8, 0u8, 0u8),
        (0xff, 0xff, 0xff),
        (0x80, 0x00, 0x00),
        (0x12, 0x34, 0x56),
        (0x00, 0x00, 0x0f),
        (0x00, 0x00, 0x10),
        (0x65, 0x5a, 0xc0),
    ] {
        let expected = ((msb as u32) << 12) | ((lsb as u32) << 4) | ((xlsb as u32) >> 4);
        assert_eq!(assemble_raw(msb, lsb, xlsb), expected);
    }
}

#[test]
fn packing_keeps_only_the_top_bits_of_the_last_byte() {
    assert_eq!(assemble_raw(0, 0, 0x0f), 0);
    assert_eq!(assemble_raw(0, 0, 0x10), 1);
    assert_eq!(assemble_raw(0, 0, 0xff), 0x0f);
    assert_eq!(assemble_raw(0xff, 0xff, 0xff), 0xfffff);
    assert_eq!(assemble_raw(0x12, 0x34, 0x56), 0x12345);
}

#[test]
fn frames_skip_their_first_byte() {
    let sample = RawSample::from_frames([0xaa, 0x65, 0x5a, 0xc0], [0xbb, 0x7e, 0xed, 0x0f]);
    assert_eq!(sample, RawSample { pressure_raw: 0x655ac, temperature_raw: 0x7eed0 });
}

#[test]
fn addresses_set_or_clear_the_top_bit() {
    assert_eq!(write_address(CTRL_MEAS), 0x74);
    assert_eq!(write_address(0x74), 0x74);
    assert_eq!(read_address(PRESS_MSB), 0xf7);
    assert_eq!(read_address(TEMP_MSB), 0xfa);
    assert_eq!(read_address(0x7a), 0xfa);
}

#[test]
fn frames_are_as_the_sensor_expects() {
    assert_eq!(settings_frame(), [0x74, 0b0010_0111]);
    assert_eq!(read_frame(PRESS_MSB), [0xf7, 0, 0, 0]);
    assert_eq!(read_frame(TEMP_MSB), [0xfa, 0, 0, 0]);
}
