//! Raw sensor samples and how they are packed from register bytes.

use vstd::prelude::*;

verus! {

/// Register that holds the measurement settings.
pub const CTRL_MEAS: u8 = 0xf4;

/// First of the three pressure registers.
pub const PRESS_MSB: u8 = 0xf7;

/// First of the three temperature registers.
pub const TEMP_MSB: u8 = 0xfa;

/// The settings written before every read: both oversamplings at their
/// lowest, the converter running.
pub const MEASUREMENT_SETTINGS: u8 = 0b001_001_11;

/// The address byte that writes `register`: its top bit is cleared.
pub fn write_address(register: u8) -> (address: u8)
    ensures
        address == register & 0x7f,
        address < 0x80,
{
    assert(register & 0x7f == !(1u8 << 7) & register && register & 0x7f < 0x80) by (bit_vector);
    !(1u8 << 7) & register
}

/// The address byte that reads from `register` on: its top bit is set.
pub fn read_address(register: u8) -> (address: u8)
    ensures
        address == register | 0x80,
        address >= 0x80,
{
    assert(register | 0x80 == (1u8 << 7) | register && register | 0x80 >= 0x80) by (bit_vector);
    (1u8 << 7) | register
}

/// The two bytes that open every transaction: the settings register
/// addressed for writing, and the settings.
pub fn settings_frame() -> (frame: [u8; 2])
    ensures
        frame[0] == 0x74,
        frame[1] == 0x27,
{
    assert(CTRL_MEAS & 0x7f == 0x74) by (bit_vector);
    [write_address(CTRL_MEAS), MEASUREMENT_SETTINGS]
}

/// The four bytes that read the three registers from `register` on: the
/// address for reading, then one zero for each byte to clock in.
pub fn read_frame(register: u8) -> (frame: [u8; 4])
    ensures
        frame[0] == register | 0x80,
        frame[1] == 0,
        frame[2] == 0,
        frame[3] == 0,
{
    [read_address(register), 0x00, 0x00, 0x00]
}

/// The 20-bit value held by three consecutive register bytes: all of `msb`,
/// all of `lsb`, and the top four bits of `xlsb`.
pub open spec fn packed_raw(msb: u8, lsb: u8, xlsb: u8) -> int {
    msb as int * 4096 + lsb as int * 16 + xlsb as int / 16
}

/// The packing written with shifts and bit-or agrees with `packed_raw`.
pub proof fn lemma_packed_raw_bits(msb: u8, lsb: u8, xlsb: u8)
    ensures
        packed_raw(msb, lsb, xlsb) == ((msb as u32) << 12) | ((lsb as u32) << 4) | ((xlsb as u32)
            >> 4),
        0 <= packed_raw(msb, lsb, xlsb) < 0x10_0000,
{
    let m = msb as u32;
    let l = lsb as u32;
    let x = xlsb as u32;
    assert((m << 12) | (l << 4) | (x >> 4) == m * 4096 + l * 16 + x / 16) by (bit_vector)
        requires
            m < 256,
            l < 256,
            x < 256,
    ;
}

/// Packs one register triple into a raw value.
pub fn assemble_raw(msb: u8, lsb: u8, xlsb: u8) -> (raw: u32)
    ensures
        raw == packed_raw(msb, lsb, xlsb),
        raw == ((msb as u32) << 12) | ((lsb as u32) << 4) | ((xlsb as u32) >> 4),
        raw < 0x10_0000,
{
    let m: u32 = msb as u32;
    let l: u32 = lsb as u32;
    let x: u32 = xlsb as u32;
    proof {
        lemma_packed_raw_bits(msb, lsb, xlsb);
        assert(m << 12 == m * 4096 && l << 4 == l * 16 && x >> 4 == x / 16) by (bit_vector)
            requires
                m < 256,
                l < 256,
                x < 256,
        ;
    }
    (m << 12) + (l << 4) + (x >> 4)
}

/// The two raw words of one acquisition.
#[derive(Clone, Copy, Debug, PartialEq, Eq, Structural)]
pub struct RawSample {
    /// Raw pressure word.
    pub pressure_raw: u32,
    /// Raw temperature word.
    pub temperature_raw: u32,
}

impl RawSample {
    /// Both words fit in 20 bits.
    pub open spec fn in_range(&self) -> bool {
        self.pressure_raw < 0x10_0000 && self.temperature_raw < 0x10_0000
    }

    /// The sample held by two register frames. The first byte of a frame
    /// answers the address byte and carries nothing; the three that follow
    /// are the most significant, the less significant and the least
    /// significant byte.
    pub open spec fn of_frames(pressure: [u8; 4], temperature: [u8; 4]) -> RawSample {
        RawSample {
            pressure_raw: packed_raw(pressure[1], pressure[2], pressure[3]) as u32,
            temperature_raw: packed_raw(temperature[1], temperature[2], temperature[3]) as u32,
        }
    }

    /// Assembles the sample from the pressure frame and the temperature frame
    /// of one acquisition.
    pub fn from_frames(pressure: [u8; 4], temperature: [u8; 4]) -> (sample: RawSample)
        ensures
            sample == RawSample::of_frames(pressure, temperature),
            sample.pressure_raw == packed_raw(pressure[1], pressure[2], pressure[3]),
            sample.temperature_raw == packed_raw(temperature[1], temperature[2], temperature[3]),
            sample.in_range(),
    {
        RawSample {
            pressure_raw: assemble_raw(pressure[1], pressure[2], pressure[3]),
            temperature_raw: assemble_raw(temperature[1], temperature[2], temperature[3]),
        }
    }
}

} // verus!
