use icm20948::error::IcmError;
use icm20948::registers::{RegistersBank0, RegistersBank2, READ_REG, WRITE_REG};
use icm20948::sensor::{acc_divider_bytes, gyro_divider, raw_sample};
use icm20948::settings::{AccLPF, AccSensitivity, FieldUpdate, GyroLPF, GyroSensitivity};

#[test]
fn bank0_addresses_follow_the_register_map() {
    assert_eq!(RegistersBank0::Wai.get_addr(WRITE_REG), 0x00);
    assert_eq!(RegistersBank0::Wai.get_addr(READ_REG), 0x80);
    assert_eq!(RegistersBank0::PwrMgmt2.get_addr(READ_REG), 0x87);
    assert_eq!(RegistersBank0::AccelXOutH.get_addr(READ_REG), 0xAD);
    assert_eq!(RegistersBank0::GyroZOutL.get_addr(WRITE_REG), 0x38);
    assert_eq!(RegistersBank0::RegBankSel.get_addr(WRITE_REG), 0x7F);
    assert_eq!(RegistersBank0::RegBankSel.get_addr(READ_REG), 0xFF);
}

#[test]
fn bank2_addresses_follow_the_register_map() {
    assert_eq!(RegistersBank2::GyroSmplrtDiv.get_addr(READ_REG), 0x80);
    assert_eq!(RegistersBank2::GyroConfig1.get_addr(WRITE_REG), 0x01);
    assert_eq!(RegistersBank2::AccelSmplrtDiv1.get_addr(WRITE_REG), 0x10);
    assert_eq!(RegistersBank2::AccelSmplrtDiv2.get_addr(READ_REG), 0x91);
    assert_eq!(RegistersBank2::AccelConfig.get_addr(READ_REG), 0x94);
}

#[test]
fn read_form_is_write_form_plus_0x80() {
    let all = [
        RegistersBank0::Wai,
        RegistersBank0::PwrMgmt1,
        RegistersBank0::IntEnable1,
        RegistersBank0::AccelYOutL,
        RegistersBank0::GyroXOutH,
        RegistersBank0::RegBankSel,
    ];
    for r in all.iter() {
        assert_eq!(r.get_addr(READ_REG), r.get_addr(WRITE_REG) + 0x80);
    }
}

#[test]
fn full_scale_updates_set_fs_bits_only() {
    let cases = [
        (AccSensitivity::Sen2g, GyroSensitivity::Sen250dps, 0u8),
        (AccSensitivity::Sen4g, GyroSensitivity::Sen500dps, 1),
        (AccSensitivity::Sen8g, GyroSensitivity::Sen1000dps, 2),
        (AccSensitivity::Sen16g, GyroSensitivity::Sen2000dps, 3),
    ];
    for old in [0x00u8, 0xFF, 0xA5, 0x5A] {
        for (a, g, code) in cases.iter() {
            let expect = (old & !0x06) | (*code << 1);
            assert_eq!(a.field_update().apply(old), expect);
            assert_eq!(g.field_update().apply(old), expect);
        }
    }
}

#[test]
fn accel_sensitivities_are_counts_per_g() {
    assert_eq!(AccSensitivity::Sen2g.value(), 16_384);
    assert_eq!(AccSensitivity::Sen4g.value(), 8_192);
    assert_eq!(AccSensitivity::Sen8g.value(), 4_096);
    assert_eq!(AccSensitivity::Sen16g.value(), 2_048);
}

#[test]
fn gyro_sensitivities_in_tenths() {
    assert_eq!(GyroSensitivity::Sen250dps.tenths() as f32 / 10.0, 131.0);
    assert_eq!(GyroSensitivity::Sen500dps.tenths() as f32 / 10.0, 65.5);
    assert_eq!(GyroSensitivity::Sen1000dps.tenths() as f32 / 10.0, 32.8);
    assert_eq!(GyroSensitivity::Sen2000dps.tenths() as f32 / 10.0, 16.4);
}

#[test]
fn lpf_updates_write_code_and_enable_bit() {
    assert_eq!(AccLPF::BW246.field_update(), FieldUpdate { keep: 0xC7, set: 0x01 });
    assert_eq!(AccLPF::BW111.field_update().apply(0xFF), 0xC7 | (2 << 3) | 1);
    assert_eq!(AccLPF::Bw473.field_update().apply(0x00), 0x39);
    assert_eq!(GyroLPF::BW152.field_update().apply(0x06), 0x06 | (1 << 3) | 1);
    assert_eq!(GyroLPF::BW6.field_update().apply(0x38), (6 << 3) | 1);
}

#[test]
fn raw_samples_are_big_endian_twos_complement() {
    assert_eq!(raw_sample(0x00, 0x00), 0);
    assert_eq!(raw_sample(0x7F, 0xFF), i16::MAX);
    assert_eq!(raw_sample(0x80, 0x00), i16::MIN);
    assert_eq!(raw_sample(0xFF, 0xFF), -1);
    assert_eq!(raw_sample(0x01, 0x02), 258);
}

#[test]
fn accel_divider_bytes() {
    assert_eq!(acc_divider_bytes(1), (0x04, 0x64));
    assert_eq!(acc_divider_bytes(100), (0, 10));
    assert_eq!(acc_divider_bytes(1124), (0, 0));
    assert_eq!(acc_divider_bytes(562), (0, 1));
}

#[test]
fn gyro_divider_values() {
    assert_eq!(gyro_divider(5), 219);
    assert_eq!(gyro_divider(100), 10);
    assert_eq!(gyro_divider(1100), 0);
}

#[test]
fn error_from_bus_error() {
    let e: IcmError<u32> = IcmError::from(7u32);
    assert!(matches!(e, IcmError::BusError(7)));
}
