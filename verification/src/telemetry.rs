//! The telemetry packet and where it is sent.

use vstd::prelude::*;

verus! {

/// Milliseconds between two attempts to send the packet.
pub const RETRY_INTERVAL_MS: u64 = 1000;

/// The port the socket is bound to.
pub const LOCAL_PORT: u16 = 1234;

/// An IPv4 address and a port.
#[derive(Clone, Copy, Debug, PartialEq, Eq)]
pub struct Endpoint {
    /// The four bytes of the address, first byte first.
    pub address: [u8; 4],
    /// The port.
    pub port: u16,
}

/// The two bytes that are broadcast.
#[derive(Clone, Copy, Debug, PartialEq, Eq, Structural)]
pub struct TelemetryPacket {
    /// The low byte of the temperature in whole degrees.
    pub temperature: u8,
    /// The low byte of the raw pressure word.
    pub pressure: u8,
}

/// The low eight bits of `value`, as an unsigned byte.
pub open spec fn low_byte(value: int) -> int {
    value % 256
}

/// The packet for a temperature in whole degrees and a raw pressure word.
pub open spec fn packet_of(degrees: int, pressure_raw: int) -> TelemetryPacket {
    TelemetryPacket {
        temperature: low_byte(degrees) as u8,
        pressure: low_byte(pressure_raw) as u8,
    }
}

/// Builds the packet: each value is cut down to its low byte.
pub fn build_packet(degrees: i32, pressure_raw: u32) -> (packet: TelemetryPacket)
    ensures
        packet == packet_of(degrees as int, pressure_raw as int),
        packet.temperature == low_byte(degrees as int),
        packet.pressure == low_byte(pressure_raw as int),
{
    let temperature: u8 = #[verifier::truncate] (degrees as u8);
    let pressure: u8 = #[verifier::truncate] (pressure_raw as u8);
    proof {
        assert(pressure_raw as u8 == pressure_raw % 256) by (bit_vector);
        assert(degrees as u8 == (degrees as u32) % 256) by (bit_vector);
        assert(degrees >= 0 ==> degrees as u32 == degrees) by (bit_vector);
        assert(degrees < 0 ==> degrees as u32 == degrees + 0x1_0000_0000) by (bit_vector);
    }
    TelemetryPacket { temperature, pressure }
}

impl TelemetryPacket {
    /// The bytes in the order in which they are sent.
    pub fn to_bytes(&self) -> (bytes: [u8; 2])
        ensures
            bytes[0] == self.temperature,
            bytes[1] == self.pressure,
    {
        [self.temperature, self.pressure]
    }
}

/// Where the packet is sent: 192.168.255.70, port 1234.
pub fn destination() -> (endpoint: Endpoint)
    ensures
        endpoint.address[0] == 192,
        endpoint.address[1] == 168,
        endpoint.address[2] == 255,
        endpoint.address[3] == 70,
        endpoint.port == 1234,
{
    Endpoint { address: [192, 168, 255, 70], port: 1234 }
}

} // verus!
