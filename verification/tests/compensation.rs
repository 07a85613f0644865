use weather_station::compensation::{
    compensate, compensate_pressure, compensate_temperature, scale_pressure, scale_temperature,
    CompensatedReading,
};
use weather_station::sample::{assemble_raw, RawSample};

#[test]
fn mid_scale_temperature_bytes_give_the_exact_fine_value() {
    let raw = assemble_raw(0x80, 0x00, 0x00);
    assert_eq!(raw, 0x80000);
    // (524288/8 - 55008) * 12 - (524288/16 - 27504) * 1
    assert_eq!(compensate_temperature(raw), 121072);
    assert_eq!(scale_temperature(121072), 23);
}

#[test]
fn temperature_is_the_same_on_every_call() {
    for raw in [0u32, 1, 0x7eed0, 0x80000, 0xfffff, 0x8000_0000, u32::MAX] {
        assert_eq!(compensate_temperature(raw), compensate_temperature(raw));
    }
}

#[test]
fn temperature_at_the_ends_of_the_range() {
    assert_eq!(compensate_temperature(0), -852624);
    assert_eq!(compensate_temperature(0xfffff), 570477);
    assert_eq!(compensate_temperature(0x7eed0), 114747);
}

#[test]
fn temperature_outside_the_range_wraps() {
    assert_eq!(compensate_temperature(u32::MAX), -852643);
    assert_eq!(compensate_temperature(0x8000_0000), -767885968);
    assert_eq!(compensate_temperature(0x7fff_ffff), 766213469);
}

#[test]
fn pressure_of_known_samples() {
    assert_eq!(compensate_pressure(121072, 0x80000), 208111);
    assert_eq!(compensate_pressure(-852624, 0), 247170);
    assert_eq!(compensate_pressure(570477, 0xfffff), 258569);
    assert_eq!(compensate_pressure(114747, 415148), 250829);
}

#[test]
fn pressure_with_extreme_arguments() {
    assert_eq!(compensate_pressure(0, 0), 212727);
    assert_eq!(compensate_pressure(-1, 0x80000), 215561);
    assert_eq!(compensate_pressure(i32::MAX, 0xfffff), 259772);
    assert_eq!(compensate_pressure(i32::MIN, u32::MAX), 212727);
    assert_eq!(compensate_pressure(-852643, u32::MAX), 227183);
    assert_eq!(compensate_pressure(-767885968, 0x12345678), 210651);
    assert_eq!(compensate_pressure(766213469, 1048576), 206492);
}

#[test]
fn pressure_depends_on_the_fine_temperature_it_is_given() {
    assert_eq!(compensate_pressure(121072, 0x80000), 208111);
    assert_eq!(compensate_pressure(128000, 0x80000), 231370);
    assert_eq!(compensate_pressure(-500000, 0x80000), 209389);
}

#[test]
fn scaling_rounds_toward_zero() {
    assert_eq!(scale_temperature(0), 0);
    assert_eq!(scale_temperature(-1), 0);
    assert_eq!(scale_temperature(-852624), -166);
    assert_eq!(scale_temperature(570477), 111);
    assert_eq!(scale_temperature(i32::MAX), -83886);
    assert_eq!(scale_temperature(i32::MIN), -83886);
    assert_eq!(scale_temperature(766213469), -18121);
    assert_eq!(scale_pressure(208111), 812);
    assert_eq!(scale_pressure(255), 0);
    assert_eq!(scale_pressure(-255), 0);
    assert_eq!(scale_pressure(-256), -1);
    assert_eq!(scale_pressure(-257), -1);
}

#[test]
fn a_sample_is_compensated_with_its_own_fine_temperature() {
    let sample = RawSample { pressure_raw: 300000, temperature_raw: 600000 };
    let reading = compensate(&sample);
    assert_eq!(reading, CompensatedReading { fine_temperature: 219912, pressure: 219657 });
    assert_eq!(reading.pressure, compensate_pressure(reading.fine_temperature, 300000));
    assert_eq!(reading.degrees(), 42);
    assert_eq!(reading.kilopascals(), 858);
}

#[test]
fn pressure_is_positive_across_a_sweep_of_fine_temperatures() {
    let mut t_fine = i32::MIN as i64;
    while t_fine <= i32::MAX as i64 {
        for raw in [0u32, 0x80000, 0xfffff, u32::MAX] {
            let pressure = compensate_pressure(t_fine as i32, raw);
            assert!(pressure > 0 && pressure < 0x2000_0000);
        }
        t_fine += 4_293_889;
    }
}

#[test]
fn in_range_temperature_is_the_plain_formula() {
    for raw in [0u32, 1, 15, 16, 4095, 4096, 0x6b700, 0x7eed0, 0x80000, 0xffff0, 0xfffff] {
        let raw = raw as i64;
        let offset = raw / 16 - 27504;
        let expected = (raw / 8 - 55008) * 12 - offset * offset.div_euclid(4096);
        assert_eq!(compensate_temperature(raw as u32) as i64, expected);
    }
}
