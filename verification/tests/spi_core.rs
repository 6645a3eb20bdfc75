use icm20948::error::IcmError;
use icm20948::sensor::{Reading, Scale};
use icm20948::settings::{AccLPF, AccSensitivity, GyroLPF, GyroSensitivity};
use icm20948::spi::{IcmImu, SpiAction, SpiEvent};

/// A register-level model of the device on SPI: the first byte of a frame
/// is an address, with bit 7 set for reads; reads and writes then run over
/// consecutive registers of the selected bank.
struct Device {
    banks: [[u8; 128]; 4],
    bank: usize,
    selected: bool,
    frames: Vec<Vec<u8>>,
    fail_on: Option<usize>,
}

impl Device {
    fn new() -> Device {
        let mut banks = [[0u8; 128]; 4];
        banks[0][0x00] = 0xEA;
        Device { banks, bank: 0, selected: false, frames: Vec::new(), fail_on: None }
    }

    fn transfer(&mut self, frame: &mut Vec<u8>) -> Result<(), ()> {
        assert!(self.selected, "transfer with chip select high");
        self.frames.push(frame.clone());
        if self.fail_on == Some(self.frames.len()) {
            return Err(());
        }
        if frame.is_empty() {
            return Ok(());
        }
        let first = frame[0];
        let reg = (first & 0x7F) as usize;
        if first & 0x80 != 0 {
            frame[0] = 0;
            for i in 1..frame.len() {
                frame[i] = self.banks[self.bank][(reg + i - 1) & 0x7F];
            }
        } else {
            for i in 1..frame.len() {
                let r = (reg + i - 1) & 0x7F;
                if r == 0x7F {
                    self.bank = (frame[i] >> 4) as usize & 3;
                }
                self.banks[self.bank][r] = frame[i];
            }
            for b in frame.iter_mut() {
                *b = 0;
            }
        }
        Ok(())
    }
}

fn run(imu: &mut IcmImu, dev: &mut Device) -> Result<Vec<Reading>, ()> {
    let mut event = SpiEvent::Proceed;
    loop {
        match imu.step(event) {
            SpiAction::Select => {
                dev.selected = true;
                event = SpiEvent::Proceed;
            }
            SpiAction::Deselect => {
                dev.selected = false;
                event = SpiEvent::Proceed;
            }
            SpiAction::Transfer(mut bytes) => {
                event = match dev.transfer(&mut bytes) {
                    Ok(()) => SpiEvent::Exchanged(bytes),
                    Err(()) => SpiEvent::Failed(bytes),
                };
            }
            SpiAction::Done(readings) => return Ok(readings),
            SpiAction::Aborted => return Err(()),
        }
    }
}

fn ready() -> (IcmImu, Device) {
    let mut imu = IcmImu::new();
    let mut dev = Device::new();
    assert_eq!(run(&mut imu, &mut dev), Ok(vec![]));
    dev.frames.clear();
    (imu, dev)
}

#[test]
fn new_wakes_device_and_records_power_up_state() {
    let mut imu = IcmImu::new();
    let mut dev = Device::new();
    assert_eq!(run(&mut imu, &mut dev), Ok(vec![]));
    assert_eq!(dev.frames, vec![vec![0x06, 0x01]]);
    assert_eq!(dev.banks[0][0x06], 0x01);
    assert!(!dev.selected);
    assert!(imu.acc_on());
    assert!(imu.gyro_on());
    assert!(!imu.mag_on());
    assert!(!imu.int_on());
    assert_eq!(imu.sensors().accel_sen, 16_384);
    assert_eq!(imu.sensors().gyro_sen, GyroSensitivity::Sen250dps);
}

#[test]
fn wai_reads_who_am_i() {
    let (mut imu, mut dev) = ready();
    imu.wai();
    assert_eq!(run(&mut imu, &mut dev), Ok(vec![Reading::Id(0xEA)]));
    assert_eq!(dev.frames, vec![vec![0x80, 0x00]]);
}

#[test]
fn interrupt_enable_and_disable() {
    let (mut imu, mut dev) = ready();
    imu.enable_int();
    assert_eq!(run(&mut imu, &mut dev), Ok(vec![]));
    assert!(imu.int_on());
    assert_eq!(dev.banks[0][0x11], 0x01);
    imu.disable_int();
    assert_eq!(run(&mut imu, &mut dev), Ok(vec![]));
    assert!(!imu.int_on());
    assert_eq!(dev.banks[0][0x11], 0x00);
    assert_eq!(dev.frames, vec![vec![0x11, 0x01], vec![0x11, 0x00]]);
}

#[test]
fn power_operations_send_address_only_frames() {
    let (mut imu, mut dev) = ready();
    imu.disable_acc();
    assert_eq!(run(&mut imu, &mut dev), Ok(vec![]));
    assert!(!imu.acc_on());
    imu.enable_acc();
    assert_eq!(run(&mut imu, &mut dev), Ok(vec![]));
    assert!(imu.acc_on());
    imu.disable_gyro();
    assert_eq!(run(&mut imu, &mut dev), Ok(vec![]));
    assert!(!imu.gyro_on());
    imu.enable_gyro();
    assert_eq!(run(&mut imu, &mut dev), Ok(vec![]));
    assert!(imu.gyro_on());
    let expected: Vec<Vec<u8>> = (0..4).flat_map(|_| vec![vec![], vec![0x07]]).collect();
    assert_eq!(dev.frames, expected);
}

#[test]
fn read_acc_x_returns_signed_sample_and_scale() {
    let (mut imu, mut dev) = ready();
    dev.banks[0][0x2D] = 0x12;
    dev.banks[0][0x2E] = 0x34;
    imu.read_acc_x();
    assert_eq!(
        run(&mut imu, &mut dev),
        Ok(vec![Reading::Sample { raw: 0x1234, scale: Scale::Counts(16_384) }])
    );
    assert_eq!(dev.frames, vec![vec![0xAD, 0xAE, 0x00]]);
}

#[test]
fn read_acc_powers_accelerometer_first_when_off() {
    let (mut imu, mut dev) = ready();
    imu.disable_acc();
    run(&mut imu, &mut dev).unwrap();
    dev.frames.clear();
    dev.banks[0][0x2F] = 0xFF;
    dev.banks[0][0x30] = 0x00;
    imu.read_acc_y();
    assert_eq!(
        run(&mut imu, &mut dev),
        Ok(vec![Reading::Sample { raw: -256, scale: Scale::Counts(16_384) }])
    );
    assert!(imu.acc_on());
    assert_eq!(dev.frames[0], Vec::<u8>::new());
    assert_eq!(dev.frames[1], vec![0x07]);
    assert_eq!(dev.frames.len(), 3);
}

#[test]
fn read_acc_returns_three_axes_in_order() {
    let (mut imu, mut dev) = ready();
    for (i, r) in (0x2D..=0x32).enumerate() {
        dev.banks[0][r] = i as u8;
    }
    imu.read_acc();
    let samples = run(&mut imu, &mut dev).unwrap();
    assert_eq!(
        samples,
        vec![
            Reading::Sample { raw: 0x0001, scale: Scale::Counts(16_384) },
            Reading::Sample { raw: 0x0203, scale: Scale::Counts(16_384) },
            Reading::Sample { raw: 0x0405, scale: Scale::Counts(16_384) },
        ]
    );
}

#[test]
fn read_gyro_is_scaled_by_gyro_range() {
    let (mut imu, mut dev) = ready();
    dev.banks[0][0x33] = 0x80;
    dev.banks[0][0x34] = 0x00;
    imu.read_gyro_x();
    assert_eq!(
        run(&mut imu, &mut dev),
        Ok(vec![Reading::Sample { raw: i16::MIN, scale: Scale::Gyro(GyroSensitivity::Sen250dps) }])
    );
    assert_eq!(GyroSensitivity::Sen250dps.tenths(), 1310);
}

#[test]
fn read_gyro_with_gyro_off_powers_the_accelerometer() {
    let (mut imu, mut dev) = ready();
    imu.disable_gyro();
    run(&mut imu, &mut dev).unwrap();
    imu.disable_acc();
    run(&mut imu, &mut dev).unwrap();
    dev.frames.clear();
    imu.read_gyro();
    let samples = run(&mut imu, &mut dev).unwrap();
    assert_eq!(samples.len(), 3);
    assert!(imu.acc_on());
    assert!(!imu.gyro_on());
    // each axis is preceded by the two power frames
    assert_eq!(dev.frames.len(), 9);
}

#[test]
fn set_acc_sen_writes_fs_bits_and_returns_to_bank_0() {
    let (mut imu, mut dev) = ready();
    dev.banks[2][0x14] = 0b1100_0001;
    imu.set_acc_sen(AccSensitivity::Sen8g);
    assert_eq!(run(&mut imu, &mut dev), Ok(vec![]));
    assert_eq!(dev.banks[2][0x14], 0b1100_0101);
    assert_eq!(dev.bank, 0);
    assert_eq!(imu.sensors().accel_sen, 4_096);
    assert_eq!(dev.frames[0], vec![0x7F, 0x20]);
    assert_eq!(dev.frames[1], vec![0x94, 0x00]);
    assert_eq!(dev.frames[3], vec![0x7F, 0x00]);
}

#[test]
fn set_gyro_sen_writes_fs_bits() {
    let (mut imu, mut dev) = ready();
    dev.banks[2][0x01] = 0xFF;
    imu.set_gyro_sen(GyroSensitivity::Sen500dps);
    assert_eq!(run(&mut imu, &mut dev), Ok(vec![]));
    assert_eq!(dev.banks[2][0x01], 0xFB);
    assert_eq!(imu.sensors().gyro_sen, GyroSensitivity::Sen500dps);
    assert_eq!(dev.bank, 0);
}

#[test]
fn lpf_configuration_sets_and_clears_filter_bits() {
    let (mut imu, mut dev) = ready();
    dev.banks[2][0x14] = 0b1100_0110;
    imu.config_acc_lpf(AccLPF::BW50);
    run(&mut imu, &mut dev).unwrap();
    assert_eq!(dev.banks[2][0x14], 0b1101_1111);
    imu.disable_acc_lpf();
    run(&mut imu, &mut dev).unwrap();
    assert_eq!(dev.banks[2][0x14], 0b1101_1110);
    dev.banks[2][0x01] = 0x00;
    imu.config_gyro_lpf(GyroLPF::BW361);
    run(&mut imu, &mut dev).unwrap();
    assert_eq!(dev.banks[2][0x01], 0x39);
    imu.disable_gyro_lpf();
    run(&mut imu, &mut dev).unwrap();
    assert_eq!(dev.banks[2][0x01], 0x38);
    assert_eq!(dev.bank, 0);
}

#[test]
fn acc_rate_writes_divider_big_endian() {
    let (mut imu, mut dev) = ready();
    let r: Result<(), IcmError<()>> = imu.config_acc_rate(1);
    assert!(r.is_ok());
    run(&mut imu, &mut dev).unwrap();
    assert_eq!(dev.frames[1], vec![0x10, 0x04, 0x11, 0x64]);
    assert_eq!(dev.banks[2][0x10], 0x04);
    assert_eq!(dev.bank, 0);
}

#[test]
fn acc_rate_at_or_above_base_is_invalid() {
    let (mut imu, mut dev) = ready();
    let r: Result<(), IcmError<()>> = imu.config_acc_rate(1125);
    assert!(matches!(r, Err(IcmError::InvalidInput)));
    assert_eq!(run(&mut imu, &mut dev), Ok(vec![]));
    assert!(dev.frames.is_empty());
}

#[test]
fn gyro_rate_writes_divider() {
    let (mut imu, mut dev) = ready();
    let r: Result<(), IcmError<()>> = imu.config_gyro_rate(100);
    assert!(r.is_ok());
    run(&mut imu, &mut dev).unwrap();
    assert_eq!(dev.banks[2][0x00], 10);
    let r: Result<(), IcmError<()>> = imu.config_gyro_rate(4);
    assert!(matches!(r, Err(IcmError::InvalidInput)));
}

#[test]
fn failed_transfer_aborts_and_keeps_record() {
    let (mut imu, mut dev) = ready();
    dev.fail_on = Some(1);
    imu.enable_int();
    assert_eq!(run(&mut imu, &mut dev), Err(()));
    assert!(!imu.int_on());
    // the core is idle again
    assert_eq!(run(&mut imu, &mut dev), Ok(vec![]));
}

#[test]
fn failure_after_power_step_keeps_completed_effects() {
    let (mut imu, mut dev) = ready();
    imu.disable_acc();
    run(&mut imu, &mut dev).unwrap();
    dev.frames.clear();
    dev.fail_on = Some(3);
    imu.read_acc_x();
    assert_eq!(run(&mut imu, &mut dev), Err(()));
    assert!(imu.acc_on());
}
