use weather_station::telemetry::{
    build_packet, destination, TelemetryPacket, LOCAL_PORT, RETRY_INTERVAL_MS,
};

#[test]
fn packet_holds_the_low_bytes() {
    assert_eq!(build_packet(23, 0x80000), TelemetryPacket { temperature: 23, pressure: 0 });
    assert_eq!(build_packet(23, 0x655ac), TelemetryPacket { temperature: 23, pressure: 0xac });
    assert_eq!(build_packet(255, 255), TelemetryPacket { temperature: 255, pressure: 255 });
    assert_eq!(build_packet(256, 256), TelemetryPacket { temperature: 0, pressure: 0 });
    assert_eq!(build_packet(300, u32::MAX), TelemetryPacket { temperature: 44, pressure: 255 });
}

#[test]
fn a_negative_temperature_is_cut_to_its_low_byte() {
    assert_eq!(build_packet(-1, 0).temperature, 255);
    assert_eq!(build_packet(-166, 0).temperature, 90);
    assert_eq!(build_packet(-256, 0).temperature, 0);
    assert_eq!(build_packet(i32::MIN, 0).temperature, 0);
    assert_eq!(build_packet(i32::MAX, 0).temperature, 255);
}

#[test]
fn bytes_go_out_temperature_first() {
    assert_eq!(build_packet(23, 0x655ac).to_bytes(), [23, 0xac]);
}

#[test]
fn the_destination_is_fixed() {
    let endpoint = destination();
    assert_eq!(endpoint.address, [192, 168, 255, 70]);
    assert_eq!(endpoint.port, 1234);
    assert_eq!(LOCAL_PORT, 1234);
    assert_eq!(RETRY_INTERVAL_MS, 1000);
}
