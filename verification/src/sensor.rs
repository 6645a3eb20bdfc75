//! What the driver knows of the device between bus operations, the changes
//! that operations make to it, and the values that reads hand back.

use vstd::prelude::*;
use crate::settings::{AccSensitivity, AccStates, GyroSensitivity, GyroStates, MagStates};

verus! {

/// The driver's record of the device: which sensors are powered, whether
/// the data-ready interrupt is enabled, and the scales of raw samples.
#[derive(Clone, Copy, Debug, PartialEq, Eq, Structural)]
pub struct Sensors {
    pub acc_en: AccStates,
    pub gyro_en: GyroStates,
    pub mag_en: MagStates,
    /// Counts per g of accelerometer samples.
    pub accel_sen: u16,
    /// Range of the gyroscope, which fixes the counts per degree per second.
    pub gyro_sen: GyroSensitivity,
    pub int_enabled: bool,
}

/// A change that a completed step of an operation makes to the record.
#[derive(Clone, Copy, Debug, PartialEq, Eq, Structural)]
pub enum Effect {
    Acc(AccStates),
    Gyro(GyroStates),
    Int(bool),
    AccScale(AccSensitivity),
    GyroScale(GyroSensitivity),
}

/// Which scale a raw sample is to be divided by.
#[derive(Clone, Copy, Debug, PartialEq, Eq, Structural)]
pub enum ScaleSource {
    Accel,
    Gyro,
}

/// The divisor of a raw sample, as it stood when the sample was taken.
#[derive(Clone, Copy, Debug, PartialEq, Eq, Structural)]
pub enum Scale {
    /// Counts per g (or per unit, for samples that are scaled by it).
    Counts(u16),
    /// The gyroscope's range; its divisor is a tenth of `tenths()`.
    Gyro(GyroSensitivity),
}

/// A value that an operation hands back.
#[derive(Clone, Copy, Debug, PartialEq, Eq, Structural)]
pub enum Reading {
    /// The content of `WHO_AM_I`.
    Id(u8),
    /// A raw sample and the scale it is to be divided by.
    Sample { raw: i16, scale: Scale },
}

impl Sensors {
    /// The record right after power-up configuration: both sensors on, the
    /// magnetometer off, interrupt disabled, the most sensitive ranges.
    pub open spec fn spec_powered_up() -> Sensors {
        Sensors {
            acc_en: AccStates::AccOn,
            gyro_en: GyroStates::GyroOn,
            mag_en: MagStates::MagOff,
            accel_sen: 16_384,
            gyro_sen: GyroSensitivity::Sen250dps,
            int_enabled: false,
        }
    }

    /// The record right after power-up configuration.
    pub fn powered_up() -> (s: Sensors)
        ensures
            s == Sensors::spec_powered_up(),
    {
        Sensors {
            acc_en: AccStates::AccOn,
            gyro_en: GyroStates::GyroOn,
            mag_en: MagStates::MagOff,
            accel_sen: 16_384,
            gyro_sen: GyroSensitivity::Sen250dps,
            int_enabled: false,
        }
    }

    /// The record after `effect`.
    pub open spec fn spec_apply(self, effect: Effect) -> Sensors {
        match effect {
            Effect::Acc(a) => Sensors { acc_en: a, ..self },
            Effect::Gyro(g) => Sensors { gyro_en: g, ..self },
            Effect::Int(i) => Sensors { int_enabled: i, ..self },
            Effect::AccScale(s) => Sensors { accel_sen: s.spec_value(), ..self },
            Effect::GyroScale(s) => Sensors { gyro_sen: s, ..self },
        }
    }

    /// Applies `effect` to the record.
    pub fn apply(&mut self, effect: Effect)
        ensures
            *final(self) == old(self).spec_apply(effect),
    {
        match effect {
            Effect::Acc(a) => self.acc_en = a,
            Effect::Gyro(g) => self.gyro_en = g,
            Effect::Int(i) => self.int_enabled = i,
            Effect::AccScale(s) => self.accel_sen = s.value(),
            Effect::GyroScale(s) => self.gyro_sen = s,
        }
    }

    /// The scale named by `source`, as the record holds it.
    pub open spec fn spec_scale(self, source: ScaleSource) -> Scale {
        match source {
            ScaleSource::Accel => Scale::Counts(self.accel_sen),
            ScaleSource::Gyro => Scale::Gyro(self.gyro_sen),
        }
    }

    /// The scale named by `source`, as the record holds it.
    pub fn scale(&self, source: ScaleSource) -> (s: Scale)
        ensures
            s == self.spec_scale(source),
    {
        match source {
            ScaleSource::Accel => Scale::Counts(self.accel_sen),
            ScaleSource::Gyro => Scale::Gyro(self.gyro_sen),
        }
    }

    pub fn int_on(&self) -> (on: bool)
        ensures
            on == self.int_enabled,
    {
        self.int_enabled
    }

    pub fn acc_on(&self) -> (on: bool)
        ensures
            on == (self.acc_en == AccStates::AccOn),
    {
        self.acc_en == AccStates::AccOn
    }

    pub fn gyro_on(&self) -> (on: bool)
        ensures
            on == (self.gyro_en == GyroStates::GyroOn),
    {
        self.gyro_en == GyroStates::GyroOn
    }

    pub fn mag_on(&self) -> (on: bool)
        ensures
            on == (self.mag_en == MagStates::MagOn),
    {
        self.mag_en == MagStates::MagOn
    }
}

/// The signed value of a big-endian two's-complement pair of bytes.
pub open spec fn spec_raw_sample(hi: u8, lo: u8) -> int {
    let word = hi * 256 + lo;
    if word >= 0x8000 {
        word - 0x1_0000
    } else {
        word
    }
}

/// Joins the two bytes of a sample register pair, high byte first, into the
/// signed sample they encode.
pub fn raw_sample(hi: u8, lo: u8) -> (raw: i16)
    ensures
        raw as int == spec_raw_sample(hi, lo),
{
    let raw: i16 = ((hi as i16) << 8) | (lo as i16);
    assert(raw as int == spec_raw_sample(hi, lo)) by (bit_vector)
        requires
            raw == ((hi as i16) << 8) | (lo as i16),
    ;
    raw
}

/// The accelerometer's sample-rate divider for a requested rate in Hz, as
/// the driver computes it from the 1125 Hz base rate.
pub open spec fn acc_rate_divider(rate: u16) -> int {
    1125int / (rate as int) - 1
}

/// The high byte of the accelerometer's divider, written to `ACCEL_SMPLRT_DIV_1`.
pub open spec fn acc_divider_high(rate: u16) -> u8 {
    (acc_rate_divider(rate) / 256) as u8
}

/// The low byte of the accelerometer's divider, written to `ACCEL_SMPLRT_DIV_2`.
pub open spec fn acc_divider_low(rate: u16) -> u8 {
    (acc_rate_divider(rate) % 256) as u8
}

/// The gyroscope's sample-rate divider for a requested rate in Hz, as the
/// driver computes it from the 1100 Hz base rate.
pub open spec fn gyro_rate_divider(rate: u16) -> int {
    1100int / (rate as int) - 1
}

/// The accelerometer's divider for a rate below 1125 Hz, split into the high
/// and the low byte of its two registers.
pub fn acc_divider_bytes(rate: u16) -> (bytes: (u8, u8))
    requires
        0 < rate < 1125,
    ensures
        bytes == (acc_divider_high(rate), acc_divider_low(rate)),
        bytes.0 * 256 + bytes.1 == acc_rate_divider(rate),
{
    assert(1125int / (rate as int) >= 1) by (nonlinear_arith)
        requires
            0 < rate < 1125,
    ;
    assert(1125int / (rate as int) <= 1125) by (nonlinear_arith)
        requires
            0 < rate < 1125,
    ;
    let div: u16 = 1_125 / rate - 1;
    ((div / 256) as u8, (div % 256) as u8)
}

/// The gyroscope's divider for a rate of 5 to 1100 Hz.
pub fn gyro_divider(rate: u16) -> (div: u8)
    requires
        4 < rate <= 1100,
    ensures
        div == gyro_rate_divider(rate),
{
    assert(1 <= 1100int / (rate as int) <= 220) by (nonlinear_arith)
        requires
            4 < rate <= 1100,
    ;
    (1_100 / rate - 1) as u8
}

} // verus!
