//! The settings the driver offers, and how each of them is laid out in the
//! bits of the device's configuration registers.

use vstd::prelude::*;

verus! {

/// Whether the accelerometer is powered.
#[derive(Clone, Copy, Debug, PartialEq, Eq, Structural)]
pub enum AccStates {
    AccOn,
    AccOff,
}

/// Whether the gyroscope is powered.
#[derive(Clone, Copy, Debug, PartialEq, Eq, Structural)]
pub enum GyroStates {
    GyroOn,
    GyroOff,
}

/// Whether the magnetometer is powered.
#[derive(Clone, Copy, Debug, PartialEq, Eq, Structural)]
pub enum MagStates {
    MagOn,
    MagOff,
}

/// Full-scale range of the accelerometer.
#[derive(Clone, Copy, Debug, PartialEq, Eq, Structural)]
pub enum AccSensitivity {
    Sen2g,
    Sen4g,
    Sen8g,
    Sen16g,
}

/// Full-scale range of the gyroscope.
#[derive(Clone, Copy, Debug, PartialEq, Eq, Structural)]
pub enum GyroSensitivity {
    Sen250dps,
    Sen500dps,
    Sen1000dps,
    Sen2000dps,
}

/// Bandwidth of the accelerometer's low-pass filter.
#[derive(Clone, Copy, Debug, PartialEq, Eq, Structural)]
pub enum AccLPF {
    BW246,
    BW111,
    BW50,
    BW24,
    BW11,
    BW6,
    Bw473,
}

/// Bandwidth of the gyroscope's low-pass filter.
#[derive(Clone, Copy, Debug, PartialEq, Eq, Structural)]
pub enum GyroLPF {
    BW197,
    BW152,
    BW119,
    BW51,
    BW24,
    BW12,
    BW6,
    BW361,
}

/// Bits 2:1 of `ACCEL_CONFIG` and `GYRO_CONFIG_1`: the full-scale select.
pub const FS_SEL_MASK: u8 = 0x06;
/// Bits 5:3 of `ACCEL_CONFIG` and `GYRO_CONFIG_1`: the low-pass filter setting.
pub const DLPF_CFG_MASK: u8 = 0x38;
/// Bit 0 of `ACCEL_CONFIG` and `GYRO_CONFIG_1`: the low-pass filter enable.
pub const FCHOICE_BIT: u8 = 0x01;
/// Bits 5:3 of `PWR_MGMT_2`: one disable bit per accelerometer axis.
pub const DISABLE_ACCEL_MASK: u8 = 0x38;
/// Bits 2:0 of `PWR_MGMT_2`: one disable bit per gyroscope axis.
pub const DISABLE_GYRO_MASK: u8 = 0x07;

/// A read-modify-write of one register: the new value keeps the bits of the
/// old one that are set in `keep` and then sets the bits of `set`.
#[derive(Clone, Copy, Debug, PartialEq, Eq, Structural)]
pub struct FieldUpdate {
    pub keep: u8,
    pub set: u8,
}

impl FieldUpdate {
    /// The register value that this update writes over `old`.
    pub open spec fn spec_apply(self, old: u8) -> u8 {
        (old & self.keep) | self.set
    }

    /// Computes the register value that this update writes over `old`.
    pub fn apply(&self, old: u8) -> (new: u8)
        ensures
            new == self.spec_apply(old),
    {
        (old & self.keep) | self.set
    }
}

/// The value that a register holds after its bits under `mask` were replaced
/// by those of `bits` and all other bits were kept.
pub open spec fn with_field(old: u8, mask: u8, bits: u8) -> u8 {
    (old & !mask) | (bits & mask)
}

impl AccSensitivity {
    /// The sensitivity in counts per g, the divisor of raw samples.
    pub open spec fn spec_value(self) -> u16 {
        match self {
            AccSensitivity::Sen2g => 16_384,
            AccSensitivity::Sen4g => 8_192,
            AccSensitivity::Sen8g => 4_096,
            AccSensitivity::Sen16g => 2_048,
        }
    }

    /// The sensitivity in counts per g, the divisor of raw samples.
    pub fn value(&self) -> (counts: u16)
        ensures
            counts == self.spec_value(),
    {
        match *self {
            AccSensitivity::Sen2g => 16_384,
            AccSensitivity::Sen4g => 8_192,
            AccSensitivity::Sen8g => 4_096,
            AccSensitivity::Sen16g => 2_048,
        }
    }

    /// The `ACCEL_FS_SEL` code of this range.
    pub open spec fn fs_code(self) -> u8 {
        match self {
            AccSensitivity::Sen2g => 0,
            AccSensitivity::Sen4g => 1,
            AccSensitivity::Sen8g => 2,
            AccSensitivity::Sen16g => 3,
        }
    }

    /// The update of `ACCEL_CONFIG` that selects this range.
    pub fn field_update(&self) -> (u: FieldUpdate)
        ensures
            u == fs_update(self.fs_code()),
    {
        match *self {
            AccSensitivity::Sen2g => FieldUpdate { keep: 0xF9, set: 0x00 },
            AccSensitivity::Sen4g => FieldUpdate { keep: 0xFB, set: 0x02 },
            AccSensitivity::Sen8g => FieldUpdate { keep: 0xFD, set: 0x04 },
            AccSensitivity::Sen16g => FieldUpdate { keep: 0xFF, set: 0x06 },
        }
    }
}

impl GyroSensitivity {
    /// The sensitivity in tenths of a count per degree per second; the
    /// divisor of raw samples is a tenth of it.
    pub open spec fn spec_tenths(self) -> u16 {
        match self {
            GyroSensitivity::Sen250dps => 1310,
            GyroSensitivity::Sen500dps => 655,
            GyroSensitivity::Sen1000dps => 328,
            GyroSensitivity::Sen2000dps => 164,
        }
    }

    /// The sensitivity in tenths of a count per degree per second.
    pub fn tenths(&self) -> (t: u16)
        ensures
            t == self.spec_tenths(),
    {
        match *self {
            GyroSensitivity::Sen250dps => 1310,
            GyroSensitivity::Sen500dps => 655,
            GyroSensitivity::Sen1000dps => 328,
            GyroSensitivity::Sen2000dps => 164,
        }
    }

    /// The `GYRO_FS_SEL` code of this range.
    pub open spec fn fs_code(self) -> u8 {
        match self {
            GyroSensitivity::Sen250dps => 0,
            GyroSensitivity::Sen500dps => 1,
            GyroSensitivity::Sen1000dps => 2,
            GyroSensitivity::Sen2000dps => 3,
        }
    }

    /// The update of `GYRO_CONFIG_1` that selects this range.
    pub fn field_update(&self) -> (u: FieldUpdate)
        ensures
            u == fs_update(self.fs_code()),
    {
        match *self {
            GyroSensitivity::Sen250dps => FieldUpdate { keep: 0xF9, set: 0x00 },
            GyroSensitivity::Sen500dps => FieldUpdate { keep: 0xFB, set: 0x02 },
            GyroSensitivity::Sen1000dps => FieldUpdate { keep: 0xFD, set: 0x04 },
            GyroSensitivity::Sen2000dps => FieldUpdate { keep: 0xFF, set: 0x06 },
        }
    }
}

/// The masks by which the driver selects full-scale code `code`.
pub open spec fn fs_update(code: u8) -> FieldUpdate {
    if code == 0 {
        FieldUpdate { keep: 0xF9, set: 0x00 }
    } else if code == 1 {
        FieldUpdate { keep: 0xFB, set: 0x02 }
    } else if code == 2 {
        FieldUpdate { keep: 0xFD, set: 0x04 }
    } else {
        FieldUpdate { keep: 0xFF, set: 0x06 }
    }
}

/// Selecting a full-scale range writes its code into bits 2:1 and leaves
/// every other bit of the configuration register as it was.
pub proof fn lemma_fs_update(code: u8, old: u8)
    requires
        code < 4,
    ensures
        fs_update(code).spec_apply(old) == with_field(old, FS_SEL_MASK, (code << 1u8)),
        (fs_update(code).spec_apply(old) & FS_SEL_MASK) >> 1u8 == code,
{
    if code == 0 {
        assert((old & 0xF9u8) | 0x00u8 == (old & !0x06u8) | ((0u8 << 1u8) & 0x06u8)) by (bit_vector);
        assert((((old & 0xF9u8) | 0x00u8) & 0x06u8) >> 1u8 == 0u8) by (bit_vector);
    } else if code == 1 {
        assert((old & 0xFBu8) | 0x02u8 == (old & !0x06u8) | ((1u8 << 1u8) & 0x06u8)) by (bit_vector);
        assert((((old & 0xFBu8) | 0x02u8) & 0x06u8) >> 1u8 == 1u8) by (bit_vector);
    } else if code == 2 {
        assert((old & 0xFDu8) | 0x04u8 == (old & !0x06u8) | ((2u8 << 1u8) & 0x06u8)) by (bit_vector);
        assert((((old & 0xFDu8) | 0x04u8) & 0x06u8) >> 1u8 == 2u8) by (bit_vector);
    } else {
        assert((old & 0xFFu8) | 0x06u8 == (old & !0x06u8) | ((3u8 << 1u8) & 0x06u8)) by (bit_vector);
        assert((((old & 0xFFu8) | 0x06u8) & 0x06u8) >> 1u8 == 3u8) by (bit_vector);
    }
}

impl AccLPF {
    /// The `ACCEL_DLPFCFG` code of this bandwidth.
    pub open spec fn dlpf_code(self) -> u8 {
        match self {
            AccLPF::BW246 => 0,
            AccLPF::BW111 => 2,
            AccLPF::BW50 => 3,
            AccLPF::BW24 => 4,
            AccLPF::BW11 => 5,
            AccLPF::BW6 => 6,
            AccLPF::Bw473 => 7,
        }
    }

    /// The update of `ACCEL_CONFIG` that enables the filter with this bandwidth.
    pub fn field_update(&self) -> (u: FieldUpdate)
        ensures
            u == lpf_update(self.dlpf_code()),
    {
        let code: u8 = match *self {
            AccLPF::BW6 => 6,
            AccLPF::BW11 => 5,
            AccLPF::BW24 => 4,
            AccLPF::BW50 => 3,
            AccLPF::BW111 => 2,
            AccLPF::BW246 => 0,
            AccLPF::Bw473 => 7,
        };
        lpf_field_update(code)
    }
}

impl GyroLPF {
    /// The `GYRO_DLPFCFG` code of this bandwidth.
    pub open spec fn dlpf_code(self) -> u8 {
        match self {
            GyroLPF::BW197 => 0,
            GyroLPF::BW152 => 1,
            GyroLPF::BW119 => 2,
            GyroLPF::BW51 => 3,
            GyroLPF::BW24 => 4,
            GyroLPF::BW12 => 5,
            GyroLPF::BW6 => 6,
            GyroLPF::BW361 => 7,
        }
    }

    /// The update of `GYRO_CONFIG_1` that enables the filter with this bandwidth.
    pub fn field_update(&self) -> (u: FieldUpdate)
        ensures
            u == lpf_update(self.dlpf_code()),
    {
        let code: u8 = match *self {
            GyroLPF::BW6 => 6,
            GyroLPF::BW12 => 5,
            GyroLPF::BW24 => 4,
            GyroLPF::BW51 => 3,
            GyroLPF::BW119 => 2,
            GyroLPF::BW152 => 1,
            GyroLPF::BW197 => 0,
            GyroLPF::BW361 => 7,
        };
        lpf_field_update(code)
    }
}

/// The masks by which the driver enables the low-pass filter with setting
/// `code`: the setting goes into bits 5:3 and the enable bit is set.
pub open spec fn lpf_update(code: u8) -> FieldUpdate {
    FieldUpdate { keep: !DLPF_CFG_MASK, set: ((code << 3u8) & DLPF_CFG_MASK) | FCHOICE_BIT }
}

fn lpf_field_update(code: u8) -> (u: FieldUpdate)
    ensures
        u == lpf_update(code),
{
    FieldUpdate { keep: !DLPF_CFG_MASK, set: ((code << 3) & DLPF_CFG_MASK) | FCHOICE_BIT }
}

/// Enabling the low-pass filter with setting `code` writes the setting into
/// bits 5:3, sets the enable bit 0, and leaves bits 7:6 and 2:1 unchanged.
pub proof fn lemma_lpf_update(code: u8, old: u8)
    requires
        code < 8,
    ensures
        lpf_update(code).spec_apply(old) == with_field(old, DLPF_CFG_MASK, (code << 3u8)) | FCHOICE_BIT,
        (lpf_update(code).spec_apply(old) & DLPF_CFG_MASK) >> 3u8 == code,
        lpf_update(code).spec_apply(old) & FCHOICE_BIT == FCHOICE_BIT,
        lpf_update(code).spec_apply(old) & 0xC6u8 == old & 0xC6u8,
{
    assert(((old & !0x38u8) | (((code << 3u8) & 0x38u8) | 0x01u8)) == ((old & !0x38u8) | ((code << 3u8) & 0x38u8)) | 0x01u8) by (bit_vector);
    assert((((old & !0x38u8) | (((code << 3u8) & 0x38u8) | 0x01u8)) & 0x38u8) >> 3u8 == code) by (bit_vector)
        requires
            code < 8u8,
    ;
    assert(((old & !0x38u8) | (((code << 3u8) & 0x38u8) | 0x01u8)) & 0x01u8 == 0x01u8) by (bit_vector);
    assert(((old & !0x38u8) | (((code << 3u8) & 0x38u8) | 0x01u8)) & 0xC6u8 == old & 0xC6u8) by (bit_vector);
}

/// The update by which the driver switches the low-pass filter off.
pub open spec fn lpf_off_update() -> FieldUpdate {
    FieldUpdate { keep: 0xFE, set: 0x00 }
}

/// Switching the low-pass filter off clears the enable bit 0 and nothing else.
pub proof fn lemma_lpf_off_update(old: u8)
    ensures
        lpf_off_update().spec_apply(old) == with_field(old, FCHOICE_BIT, 0),
        lpf_off_update().spec_apply(old) & FCHOICE_BIT == 0,
        lpf_off_update().spec_apply(old) & 0xFEu8 == old & 0xFEu8,
{
    assert((old & 0xFEu8) | 0x00u8 == (old & !0x01u8) | (0u8 & 0x01u8)) by (bit_vector);
    assert(((old & 0xFEu8) | 0x00u8) & 0x01u8 == 0u8) by (bit_vector);
    assert(((old & 0xFEu8) | 0x00u8) & 0xFEu8 == old & 0xFEu8) by (bit_vector);
}

/// The update of `PWR_MGMT_2` by which the driver powers the accelerometer:
/// the gyroscope's disable bits are kept, all others are cleared.
pub open spec fn acc_on_update() -> FieldUpdate {
    FieldUpdate { keep: DISABLE_GYRO_MASK, set: 0x00 }
}

/// The update of `PWR_MGMT_2` by which the driver powers the accelerometer down.
pub open spec fn acc_off_update() -> FieldUpdate {
    FieldUpdate { keep: 0xFF, set: DISABLE_ACCEL_MASK }
}

/// The update of `PWR_MGMT_2` by which the driver powers the gyroscope:
/// the accelerometer's disable bits are kept, all others are cleared.
pub open spec fn gyro_on_update() -> FieldUpdate {
    FieldUpdate { keep: DISABLE_ACCEL_MASK, set: 0x00 }
}

/// The update of `PWR_MGMT_2` by which the driver powers the gyroscope down.
pub open spec fn gyro_off_update() -> FieldUpdate {
    FieldUpdate { keep: 0xFF, set: DISABLE_GYRO_MASK }
}

/// Each power update clears or sets the disable bits of its own sensor and
/// keeps those of the other sensor.
pub proof fn lemma_power_updates(old: u8)
    ensures
        acc_on_update().spec_apply(old) & DISABLE_ACCEL_MASK == 0,
        acc_on_update().spec_apply(old) & DISABLE_GYRO_MASK == old & DISABLE_GYRO_MASK,
        acc_off_update().spec_apply(old) & DISABLE_ACCEL_MASK == DISABLE_ACCEL_MASK,
        acc_off_update().spec_apply(old) & !DISABLE_ACCEL_MASK == old & !DISABLE_ACCEL_MASK,
        gyro_on_update().spec_apply(old) & DISABLE_GYRO_MASK == 0,
        gyro_on_update().spec_apply(old) & DISABLE_ACCEL_MASK == old & DISABLE_ACCEL_MASK,
        gyro_off_update().spec_apply(old) & DISABLE_GYRO_MASK == DISABLE_GYRO_MASK,
        gyro_off_update().spec_apply(old) & !DISABLE_GYRO_MASK == old & !DISABLE_GYRO_MASK,
{
    assert(((old & 0x07u8) | 0u8) & 0x38u8 == 0u8) by (bit_vector);
    assert(((old & 0x07u8) | 0u8) & 0x07u8 == old & 0x07u8) by (bit_vector);
    assert(((old & 0xFFu8) | 0x38u8) & 0x38u8 == 0x38u8) by (bit_vector);
    assert(((old & 0xFFu8) | 0x38u8) & !0x38u8 == old & !0x38u8) by (bit_vector);
    assert(((old & 0x38u8) | 0u8) & 0x07u8 == 0u8) by (bit_vector);
    assert(((old & 0x38u8) | 0u8) & 0x38u8 == old & 0x38u8) by (bit_vector);
    assert(((old & 0xFFu8) | 0x07u8) & 0x07u8 == 0x07u8) by (bit_vector);
    assert(((old & 0xFFu8) | 0x07u8) & !0x07u8 == old & !0x07u8) by (bit_vector);
}

impl AccLPF {
    /// The filter's 3 dB bandwidth in tenths of a hertz, as the datasheet
    /// gives it for each setting.
    pub open spec fn bandwidth_dhz(self) -> int {
        match self {
            AccLPF::BW246 => 2460,
            AccLPF::BW111 => 1114,
            AccLPF::BW50 => 504,
            AccLPF::BW24 => 239,
            AccLPF::BW11 => 115,
            AccLPF::BW6 => 57,
            AccLPF::Bw473 => 4730,
        }
    }
}

impl GyroLPF {
    /// The filter's 3 dB bandwidth in tenths of a hertz, as the datasheet
    /// gives it for each setting.
    pub open spec fn bandwidth_dhz(self) -> int {
        match self {
            GyroLPF::BW197 => 1966,
            GyroLPF::BW152 => 1518,
            GyroLPF::BW119 => 1195,
            GyroLPF::BW51 => 512,
            GyroLPF::BW24 => 239,
            GyroLPF::BW12 => 116,
            GyroLPF::BW6 => 57,
            GyroLPF::BW361 => 3614,
        }
    }
}

/// The filter setting that an update leaves in bits 5:3 of the register.
pub open spec fn written_dlpf(u: FieldUpdate, old: u8) -> u8 {
    (u.spec_apply(old) & DLPF_CFG_MASK) >> 3u8
}

/// The accelerometer's filter settings: distinct bandwidths get distinct
/// codes; among the filtering settings, the narrower the bandwidth, the
/// larger the code written into bits 5:3; code 7 is the 473 Hz filter.
pub proof fn lemma_acc_lpf_codes(a: AccLPF, b: AccLPF, old: u8)
    ensures
        a.dlpf_code() < 8,
        written_dlpf(lpf_update(a.dlpf_code()), old) == a.dlpf_code(),
        a != b ==> written_dlpf(lpf_update(a.dlpf_code()), old) != written_dlpf(lpf_update(b.dlpf_code()), old),
        a != AccLPF::Bw473 && b != AccLPF::Bw473 ==> (a.bandwidth_dhz() > b.bandwidth_dhz() <==> written_dlpf(
            lpf_update(a.dlpf_code()),
            old,
        ) < written_dlpf(lpf_update(b.dlpf_code()), old)),
        (a == AccLPF::Bw473) == (written_dlpf(lpf_update(a.dlpf_code()), old) == 7),
{
    lemma_lpf_update(a.dlpf_code(), old);
    lemma_lpf_update(b.dlpf_code(), old);
}

/// The gyroscope's filter settings: distinct bandwidths get distinct codes;
/// among the filtering settings, the narrower the bandwidth, the larger the
/// code written into bits 5:3; code 7 is the 361.4 Hz filter.
pub proof fn lemma_gyro_lpf_codes(a: GyroLPF, b: GyroLPF, old: u8)
    ensures
        a.dlpf_code() < 8,
        written_dlpf(lpf_update(a.dlpf_code()), old) == a.dlpf_code(),
        a != b ==> written_dlpf(lpf_update(a.dlpf_code()), old) != written_dlpf(lpf_update(b.dlpf_code()), old),
        a != GyroLPF::BW361 && b != GyroLPF::BW361 ==> (a.bandwidth_dhz() > b.bandwidth_dhz() <==> written_dlpf(
            lpf_update(a.dlpf_code()),
            old,
        ) < written_dlpf(lpf_update(b.dlpf_code()), old)),
        (a == GyroLPF::BW361) == (written_dlpf(lpf_update(a.dlpf_code()), old) == 7),
{
    lemma_lpf_update(a.dlpf_code(), old);
    lemma_lpf_update(b.dlpf_code(), old);
}

/// The accelerometer's full-scale code: the counts per g halve with each
/// step of the code, from 16384 at code 0 (the +-2 g range); distinct
/// ranges get distinct codes.
pub proof fn lemma_acc_fs_codes(a: AccSensitivity, b: AccSensitivity)
    ensures
        a.fs_code() < 4,
        a.spec_value() == 0x4000u16 >> a.fs_code(),
        a != b ==> a.fs_code() != b.fs_code(),
{
    assert(0x4000u16 >> 0u8 == 0x4000u16) by (bit_vector);
    assert(0x4000u16 >> 1u8 == 0x2000u16) by (bit_vector);
    assert(0x4000u16 >> 2u8 == 0x1000u16) by (bit_vector);
    assert(0x4000u16 >> 3u8 == 0x0800u16) by (bit_vector);
}

/// The gyroscope's full-scale code: distinct ranges get distinct codes, and
/// the counts per degree per second halve with each step of it, from 131 at
/// code 0 (the +-250 dps range), rounded to a tenth.
pub proof fn lemma_gyro_fs_codes(a: GyroSensitivity, b: GyroSensitivity)
    ensures
        a.fs_code() < 4,
        a != b ==> a.fs_code() != b.fs_code(),
        a.fs_code() < b.fs_code() ==> a.spec_tenths() > b.spec_tenths(),
        a.spec_tenths() == ((2620u16 >> a.fs_code()) + 1) / 2,
{
    assert(2620u16 >> 0u8 == 2620u16) by (bit_vector);
    assert(2620u16 >> 1u8 == 1310u16) by (bit_vector);
    assert(2620u16 >> 2u8 == 655u16) by (bit_vector);
    assert(2620u16 >> 3u8 == 327u16) by (bit_vector);
}

/// Enabling the low-pass filter with setting `code` replaces bits 5:3 and
/// 0 of the register by the setting and the enable bit, and keeps the rest.
pub proof fn lemma_lpf_update_field(code: u8, old: u8)
    requires
        code < 8,
    ensures
        lpf_update(code).spec_apply(old) == with_field(old, DLPF_CFG_MASK | FCHOICE_BIT, (code << 3u8) | FCHOICE_BIT),
{
    assert(((old & !0x38u8) | (((code << 3u8) & 0x38u8) | 0x01u8)) == (old & !(0x38u8 | 0x01u8)) | (((code << 3u8)
        | 0x01u8) & (0x38u8 | 0x01u8))) by (bit_vector)
        requires
            code < 8u8,
    ;
}

} // verus!
