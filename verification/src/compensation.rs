//! Fixed-point compensation of raw converter values.
//!
//! The calibration is fixed: every unit is compensated with the same
//! constants. All arithmetic is on 32-bit words and wraps.

use crate::fixed::{
    lemma_shift_left_one_signed, lemma_shift_right_signed, lemma_shift_right_unsigned,
    lemma_signed_view, lemma_unsigned_view, lemma_wrap_i32_add, lemma_wrap_i32_congruent,
    lemma_wrap_i32_fits, lemma_wrap_i32_mul, lemma_wrap_u32_fits, lemma_wrap_u32_mul,
    lemma_wrap_u32_sub, lemma_wrapping_add_signed, lemma_wrapping_mul_signed,
    lemma_wrapping_mul_unsigned, lemma_wrapping_sub_unsigned, div_toward_zero, wrap_i32,
    wrap_u32,
};
use crate::sample::RawSample;
use vstd::prelude::*;

verus! {

/// First temperature calibration constant.
pub const T1: i32 = 27504;

/// Second temperature calibration constant.
pub const T2: i32 = 26435;

/// Third temperature calibration constant.
pub const T3: i32 = -1000;

/// Scale of the pressure divisor.
pub const PRESSURE_SCALE: i32 = 36477;

/// Weight of the centre in the pressure divisor.
pub const PRESSURE_TILT: i32 = -10685;

/// Weight of the square of the centre in the pressure divisor.
pub const PRESSURE_CURVE: i32 = 3024;

/// Base of the pressure offset, in units of 65536.
pub const OFFSET_BASE: i32 = 2855;

/// Weight of the centre in the pressure offset.
pub const OFFSET_SLOPE: i32 = 140;

/// Weight of the square of the centre in the pressure offset.
pub const OFFSET_CURVE: i32 = -7;

/// Base of the final correction.
pub const CORRECTION_BASE: i32 = 15500;

/// Weight of the quotient in the final correction.
pub const CORRECTION_SLOPE: i32 = -14600;

/// Weight of the square of the quotient in the final correction.
pub const CORRECTION_CURVE: u32 = 6000;

/// The fine temperature of a raw temperature word.
///
/// With `adc` the raw word read as signed, it is the signed word of
/// `(adc/8 - 2*T1) * (T2/2048) + (adc/16 - T1) * ((adc/16 - T1)/4096) * (T3/16384)`,
/// every division rounding down.
pub open spec fn temperature_fine(raw: int) -> int {
    let adc = wrap_i32(raw);
    let offset = adc / 16 - T1;
    wrap_i32((adc / 8 - 2 * T1) * (T2 / 2048) + offset * (offset / 4096) * (T3 / 16384))
}

/// Fine temperature of a raw temperature word. It depends on the raw word
/// and the fixed constants alone: the same word always gives the same value.
pub fn compensate_temperature(raw: u32) -> (t_fine: i32)
    ensures
        t_fine == temperature_fine(raw as int),
{
    let adc: i32 = #[verifier::truncate] (raw as i32);
    assert(adc == wrap_i32(raw as int)) by {
        lemma_signed_view(raw);
    }
    assert(adc >> 3 == adc / 8 && adc >> 4 == adc / 16) by {
        lemma_shift_right_signed(adc);
    }
    assert(T2 >> 11 == T2 / 2048) by {
        lemma_shift_right_signed(T2);
    }
    assert(T3 >> 14 == T3 / 16384) by {
        lemma_shift_right_signed(T3);
    }
    assert(T1 << 1 == 2 * T1) by (bit_vector);
    let slope: i32 = T2 >> 11;
    let bend: i32 = T3 >> 14;
    let offset: i32 = (adc >> 4) - T1;
    assert(offset >> 12 == offset / 4096) by {
        lemma_shift_right_signed(offset);
    }
    let var1: i32 = ((adc >> 3) - (T1 << 1)).wrapping_mul(slope);
    let var2: i32 = offset.wrapping_mul(offset >> 12).wrapping_mul(bend);
    let t_fine: i32 = var1.wrapping_add(var2);
    proof {
        let a = (adc / 8 - 2 * T1) * (T2 / 2048);
        let b = offset * (offset / 4096);
        assert(var1 == wrap_i32(a)) by {
            lemma_wrapping_mul_signed(((adc >> 3) - (T1 << 1)) as i32, slope);
        }
        assert(var2 == wrap_i32(b * (T3 / 16384))) by {
            lemma_wrapping_mul_signed(offset, offset >> 12);
            lemma_wrapping_mul_signed(offset.wrapping_mul(offset >> 12), bend);
            lemma_wrap_i32_mul(b, T3 as int / 16384);
        }
        assert(t_fine == wrap_i32(a + b * (T3 / 16384))) by {
            lemma_wrapping_add_signed(var1, var2);
            lemma_wrap_i32_add(a, b * (T3 / 16384));
        }
    }
    t_fine
}

/// For a raw word of at most 20 bits nothing wraps: the fine temperature is
/// the plain value of the formula.
pub proof fn lemma_temperature_fine_in_range(raw: int)
    requires
        0 <= raw < 0x10_0000,
    ensures
        temperature_fine(raw) == (raw / 8 - 55008) * 12 - (raw / 16 - 27504) * ((raw / 16
            - 27504) / 4096),
        -1002375 <= temperature_fine(raw) <= 912756,
{
    lemma_wrap_i32_fits(raw);
    let offset = raw / 16 - 27504;
    let step = offset / 4096;
    assert(-7 <= step <= 9);
    assert(0 <= offset * step <= 342279) by (nonlinear_arith)
        requires
            -27504 <= offset <= 38031,
            step == offset / 4096,
            -7 <= step <= 9,
    ;
    assert(offset * step * (-1) == -(offset * step));
    lemma_wrap_i32_fits((raw / 8 - 55008) * 12 - offset * step);
}

/// The fine temperature halved and centred, from which both pressure
/// intermediates start.
pub open spec fn pressure_centre(t_fine: int) -> int {
    t_fine / 2 - 64000
}

/// The signed word of the square of a quarter of the centre.
pub open spec fn pressure_square(t_fine: int) -> int {
    let quarter = pressure_centre(t_fine) / 4;
    wrap_i32(quarter * quarter)
}

/// The offset intermediate of the pressure computation.
pub open spec fn pressure_offset(t_fine: int) -> int {
    let centre = pressure_centre(t_fine);
    let mixed = (pressure_square(t_fine) / 2048) * OFFSET_CURVE + centre * OFFSET_SLOPE * 2;
    wrap_i32(mixed) / 4 + OFFSET_BASE * 65536
}

/// The divisor intermediate of the pressure computation: the value whose
/// being zero makes a reading invalid.
pub open spec fn pressure_divisor(t_fine: int) -> int {
    let centre = pressure_centre(t_fine);
    let curve = (PRESSURE_CURVE * (pressure_square(t_fine) / 8192)) / 8;
    let blend = wrap_i32(curve * (PRESSURE_TILT * centre)) / 524288;
    ((32768 + blend) * PRESSURE_SCALE) / 32768
}

/// The unsigned word that is divided by the divisor.
pub open spec fn pressure_dividend(t_fine: int, raw: int) -> int {
    wrap_u32(1048576 - raw - (pressure_offset(t_fine) / 4096) * 3125)
}

/// The dividend doubled and divided. A dividend with its top bit set is
/// divided first and doubled afterwards.
pub open spec fn pressure_quotient(dividend: int, divisor: int) -> int {
    if dividend < 0x8000_0000 {
        (dividend * 2) / divisor
    } else {
        (dividend / divisor) * 2
    }
}

/// The quotient with its two correction terms applied. Their sum is read as
/// an unsigned word before it is divided by 16.
pub open spec fn pressure_corrected(quotient: int) -> int {
    let first = (CORRECTION_CURVE * (((quotient / 8) * (quotient / 8)) / 8192)) / 4096;
    let second = ((quotient / 4) * CORRECTION_SLOPE) / 8192;
    quotient + wrap_u32(first + second + CORRECTION_BASE) / 16
}

/// The compensated pressure of a raw pressure word, given the fine
/// temperature of the same sample. Zero where the divisor is zero.
pub open spec fn pressure_value(t_fine: int, raw: int) -> int {
    let divisor = pressure_divisor(t_fine);
    if divisor == 0 {
        0
    } else {
        pressure_corrected(pressure_quotient(pressure_dividend(t_fine, raw), divisor))
    }
}

/// With the fixed calibration the divisor stays well away from zero, whatever
/// the fine temperature.
pub proof fn lemma_pressure_divisor_bounds(t_fine: int)
    ensures
        31917 <= pressure_divisor(t_fine) <= 41035,
{
    let centre = pressure_centre(t_fine);
    let curve = (PRESSURE_CURVE * (pressure_square(t_fine) / 8192)) / 8;
    lemma_wrap_i32_congruent(curve * (PRESSURE_TILT * centre));
}

/// The offset intermediate, from the centre and the wrapped square.
fn offset_intermediate(centre: i32, square: i32) -> (offset: i32)
    ensures
        offset == wrap_i32((square / 2048) * OFFSET_CURVE + centre * OFFSET_SLOPE * 2) / 4
            + OFFSET_BASE * 65536,
{
    assert(square >> 11 == square / 2048 && -1048576 <= square >> 11 < 1048576) by {
        lemma_shift_right_signed(square);
    }
    let curve: i32 = (square >> 11) * OFFSET_CURVE;
    let scaled: i32 = centre.wrapping_mul(OFFSET_SLOPE);
    let doubled: i32 = scaled << 1;
    let mixed: i32 = curve.wrapping_add(doubled);
    proof {
        let slope = centre * OFFSET_SLOPE * 2;
        assert(doubled == wrap_i32(slope)) by {
            lemma_wrapping_mul_signed(centre, OFFSET_SLOPE);
            lemma_shift_left_one_signed(scaled);
            lemma_wrap_i32_mul(centre * OFFSET_SLOPE, 2);
            assert(2 * scaled == scaled * 2);
        }
        assert(mixed == wrap_i32(curve + slope)) by {
            lemma_wrapping_add_signed(curve, doubled);
            lemma_wrap_i32_add(curve as int, slope);
        }
        assert(mixed >> 2 == mixed / 4 && -536870912 <= mixed >> 2 < 536870912) by {
            lemma_shift_right_signed(mixed);
        }
        assert(OFFSET_BASE << 16 == OFFSET_BASE * 65536) by (bit_vector);
    }
    (mixed >> 2) + (OFFSET_BASE << 16)
}

/// The divisor intermediate, from the centre and the wrapped square.
fn divisor_intermediate(centre: i32, square: i32) -> (divisor: i32)
    ensures
        divisor == ((32768 + wrap_i32(
            ((PRESSURE_CURVE * (square / 8192)) / 8) * (PRESSURE_TILT * centre),
        ) / 524288) * PRESSURE_SCALE) / 32768,
        31917 <= divisor <= 41035,
{
    assert(square >> 13 == square / 8192 && -262144 <= square >> 13 < 262144) by {
        lemma_shift_right_signed(square);
    }
    let weighted: i32 = PRESSURE_CURVE * (square >> 13);
    assert(weighted >> 3 == weighted / 8) by {
        lemma_shift_right_signed(weighted);
    }
    let curve: i32 = weighted >> 3;
    let tilt: i32 = PRESSURE_TILT.wrapping_mul(centre);
    let product: i32 = curve.wrapping_mul(tilt);
    assert(product == wrap_i32(curve * (PRESSURE_TILT * centre))) by {
        lemma_wrapping_mul_signed(PRESSURE_TILT, centre);
        lemma_wrapping_mul_signed(curve, tilt);
        lemma_wrap_i32_mul(curve as int, PRESSURE_TILT * centre);
    }
    assert((product >> 1) >> 18 == product / 524288 && -4096 <= (product >> 1) >> 18 < 4096) by {
        lemma_shift_right_signed(product);
    }
    let blend: i32 = (product >> 1) >> 18;
    let blended: i32 = (32768 + blend) * PRESSURE_SCALE;
    assert(blended >> 15 == blended / 32768) by {
        lemma_shift_right_signed(blended);
    }
    blended >> 15
}

/// The unsigned word to divide, from the offset intermediate and the raw
/// pressure word.
fn dividend(offset: i32, raw: u32) -> (p: u32)
    ensures
        p == wrap_u32(1048576 - raw - (offset / 4096) * 3125),
{
    assert(offset >> 12 == offset / 4096) by {
        lemma_shift_right_signed(offset);
    }
    assert((offset >> 12) as u32 == wrap_u32(offset as int / 4096)) by {
        lemma_unsigned_view(offset >> 12);
    }
    let high: u32 = #[verifier::truncate] ((offset >> 12) as u32);
    let drop: u32 = high.wrapping_mul(3125);
    let room: u32 = 1048576u32.wrapping_sub(raw);
    let p: u32 = room.wrapping_sub(drop);
    proof {
        let fall = (offset / 4096) * 3125;
        assert(drop == wrap_u32(fall)) by {
            lemma_wrapping_mul_unsigned(high, 3125);
            lemma_wrap_u32_fits(3125);
            lemma_wrap_u32_mul(offset as int / 4096, 3125);
        }
        assert(room == wrap_u32(1048576 - raw)) by {
            lemma_wrapping_sub_unsigned(1048576u32, raw);
        }
        assert(p == wrap_u32(1048576 - raw - fall)) by {
            lemma_wrapping_sub_unsigned(room, drop);
            lemma_wrap_u32_sub(1048576 - raw, fall);
        }
    }
    p
}

/// Doubles and divides, in the order that loses no bit.
fn quotient(p: u32, divisor: u32) -> (q: u32)
    requires
        31917 <= divisor <= 41035,
    ensures
        q == pressure_quotient(p as int, divisor as int),
        q <= 269134,
{
    assert(p < 0x8000_0000 ==> p << 1 == p * 2) by {
        lemma_shift_right_unsigned(p);
    }
    assert(forall|x: int| 0 <= x <= u32::MAX ==> #[trigger] (x / (divisor as int)) <= 134567)
        by (nonlinear_arith)
        requires
            31917 <= divisor,
    ;
    if p < 0x8000_0000 {
        (p << 1) / divisor
    } else {
        (p / divisor) * 2
    }
}

/// Applies the two correction terms.
fn corrected(p: u32) -> (pressure: i32)
    requires
        p <= 269134,
    ensures
        pressure == pressure_corrected(p as int),
        0 < pressure < 0x2000_0000,
{
    assert(p >> 3 == p / 8 && p >> 2 == p / 4) by {
        lemma_shift_right_unsigned(p);
    }
    let eighth: u32 = p >> 3;
    assert(eighth * eighth <= 33641 * 33641) by (nonlinear_arith)
        requires
            eighth <= 33641,
    ;
    let squared: u32 = eighth * eighth;
    assert(squared >> 13 == squared / 8192) by {
        lemma_shift_right_unsigned(squared);
    }
    let spread: u32 = CORRECTION_CURVE * (squared >> 13);
    assert(spread >> 12 == spread / 4096) by {
        lemma_shift_right_unsigned(spread);
    }
    let first: i32 = (spread >> 12) as i32;
    let slope: i32 = (p >> 2) as i32 * CORRECTION_SLOPE;
    assert(slope >> 13 == slope / 8192) by {
        lemma_shift_right_signed(slope);
    }
    let second: i32 = slope >> 13;
    let total: i32 = first + second + CORRECTION_BASE;
    let sum: u32 = #[verifier::truncate] (total as u32);
    assert(sum == wrap_u32(total as int)) by {
        lemma_unsigned_view(total);
    }
    assert(sum >> 4 == sum / 16) by {
        lemma_shift_right_unsigned(sum);
    }
    let refined: u32 = p + (sum >> 4);
    refined as i32
}

/// Compensated pressure of a raw pressure word, given the fine temperature
/// of the same sample. A zero divisor gives zero instead of a division; any
/// other divisor gives a positive value below `2^29`.
pub fn compensate_pressure(t_fine: i32, raw: u32) -> (pressure: i32)
    ensures
        pressure == pressure_value(t_fine as int, raw as int),
        pressure_divisor(t_fine as int) == 0 ==> pressure == 0,
        pressure_divisor(t_fine as int) != 0 ==> 0 < pressure < 0x2000_0000,
{
    assert(t_fine >> 1 == t_fine / 2) by {
        lemma_shift_right_signed(t_fine);
    }
    let centre: i32 = (t_fine >> 1) - 64000;
    assert(centre >> 2 == centre / 4) by {
        lemma_shift_right_signed(centre);
    }
    let quarter: i32 = centre >> 2;
    let square: i32 = quarter.wrapping_mul(quarter);
    assert(square == pressure_square(t_fine as int)) by {
        lemma_wrapping_mul_signed(quarter, quarter);
    }
    let var2: i32 = offset_intermediate(centre, square);
    let var1: i32 = divisor_intermediate(centre, square);
    if var1 == 0 {
        return 0;
    }
    let p: u32 = dividend(var2, raw);
    let p: u32 = quotient(p, var1 as u32);
    corrected(p)
}

/// The compensated values of one sample: the fine temperature and the
/// pressure computed with that same fine temperature.
#[derive(Clone, Copy, Debug, PartialEq, Eq, Structural)]
pub struct CompensatedReading {
    /// Fine temperature.
    pub fine_temperature: i32,
    /// Pressure in compensated units.
    pub pressure: i32,
}

/// Whole degrees of a fine temperature: five times the fine temperature plus
/// 128, as a signed word, divided by 256 rounding down and then by 100
/// rounding toward zero.
pub open spec fn whole_degrees(t_fine: int) -> int {
    div_toward_zero(wrap_i32(t_fine * 5 + 128) / 256, 100)
}

/// A compensated pressure on the displayed scale: divided by 256, rounding
/// toward zero.
pub open spec fn displayed_pressure(pressure: int) -> int {
    div_toward_zero(pressure, 256)
}

/// The reading that a sample compensates to: its fine temperature, and the
/// pressure computed with that fine temperature.
#[verifier::opaque]
pub open spec fn reading_of(sample: RawSample) -> CompensatedReading {
    let t_fine = temperature_fine(sample.temperature_raw as int);
    CompensatedReading {
        fine_temperature: t_fine as i32,
        pressure: pressure_value(t_fine, sample.pressure_raw as int) as i32,
    }
}

/// Scales a fine temperature to whole degrees.
pub fn scale_temperature(t_fine: i32) -> (degrees: i32)
    ensures
        degrees == whole_degrees(t_fine as int),
{
    let scaled: i32 = t_fine.wrapping_mul(5).wrapping_add(128);
    proof {
        assert(scaled == wrap_i32(t_fine * 5 + 128)) by {
            lemma_wrapping_mul_signed(t_fine, 5);
            lemma_wrapping_add_signed(t_fine.wrapping_mul(5), 128);
            lemma_wrap_i32_add(t_fine * 5, 128);
            lemma_wrap_i32_fits(128);
        }
        assert(scaled >> 8 == scaled / 256) by {
            lemma_shift_right_signed(scaled);
        }
    }
    (scaled >> 8) / 100
}

/// Scales a compensated pressure to the displayed scale.
pub fn scale_pressure(pressure: i32) -> (scaled: i32)
    ensures
        scaled == displayed_pressure(pressure as int),
{
    pressure / 256
}

/// Compensates one sample. The pressure is computed with the fine temperature
/// of this sample and no other.
pub fn compensate(sample: &RawSample) -> (reading: CompensatedReading)
    ensures
        reading == reading_of(*sample),
        reading.fine_temperature == temperature_fine(sample.temperature_raw as int),
        reading.pressure == pressure_value(
            reading.fine_temperature as int,
            sample.pressure_raw as int,
        ),
{
    let t_fine: i32 = compensate_temperature(sample.temperature_raw);
    let pressure: i32 = compensate_pressure(t_fine, sample.pressure_raw);
    proof {
        reveal(reading_of);
    }
    CompensatedReading { fine_temperature: t_fine, pressure }
}

impl CompensatedReading {
    /// Temperature in whole degrees.
    pub fn degrees(&self) -> (degrees: i32)
        ensures
            degrees == whole_degrees(self.fine_temperature as int),
    {
        scale_temperature(self.fine_temperature)
    }

    /// Pressure on the displayed scale.
    pub fn kilopascals(&self) -> (scaled: i32)
        ensures
            scaled == displayed_pressure(self.pressure as int),
    {
        scale_pressure(self.pressure)
    }
}

} // verus!
