use icm20948::error::IcmError;
use icm20948::i2c::{I2cAction, I2cEvent, IcmImu};
use icm20948::sensor::{Reading, Scale};
use icm20948::settings::{AccLPF, AccSensitivity, GyroLPF, GyroSensitivity};

const ADDR: u8 = 0x68;

#[derive(Debug, PartialEq)]
enum Op {
    Write(u8, Vec<u8>),
    WriteRead(u8, Vec<u8>, usize),
}

/// A register-level model of the device on I2C: the first written byte
/// sets the register pointer, further bytes are written to consecutive
/// registers, and reads run from the pointer.
struct Device {
    banks: [[u8; 128]; 4],
    bank: usize,
    ops: Vec<Op>,
    fail_on: Option<usize>,
}

impl Device {
    fn new() -> Device {
        let mut banks = [[0u8; 128]; 4];
        banks[0][0x00] = 0xEA;
        Device { banks, bank: 0, ops: Vec::new(), fail_on: None }
    }

    fn write_regs(&mut self, bytes: &[u8]) -> usize {
        let mut ptr = bytes[0] as usize & 0x7F;
        for b in &bytes[1..] {
            if ptr == 0x7F {
                self.bank = (*b >> 4) as usize & 3;
            }
            self.banks[self.bank][ptr] = *b;
            ptr = (ptr + 1) & 0x7F;
        }
        ptr
    }

    fn write(&mut self, addr: u8, bytes: &[u8]) -> Result<(), ()> {
        self.ops.push(Op::Write(addr, bytes.to_vec()));
        if self.fail_on == Some(self.ops.len()) {
            return Err(());
        }
        self.write_regs(bytes);
        Ok(())
    }

    fn write_read(&mut self, addr: u8, bytes: &[u8], len: usize) -> Result<Vec<u8>, ()> {
        self.ops.push(Op::WriteRead(addr, bytes.to_vec(), len));
        if self.fail_on == Some(self.ops.len()) {
            return Err(());
        }
        let ptr = self.write_regs(bytes);
        Ok((0..len).map(|i| self.banks[self.bank][(ptr + i) & 0x7F]).collect())
    }
}

fn run(imu: &mut IcmImu, dev: &mut Device) -> Result<Vec<Reading>, ()> {
    let mut event = I2cEvent::Proceed;
    loop {
        match imu.step(event) {
            I2cAction::Write { addr, bytes } => {
                event = match dev.write(addr, &bytes) {
                    Ok(()) => I2cEvent::Proceed,
                    Err(()) => I2cEvent::Failed,
                };
            }
            I2cAction::WriteRead { addr, bytes, len } => {
                event = match dev.write_read(addr, &bytes, len) {
                    Ok(read) => I2cEvent::Read(read),
                    Err(()) => I2cEvent::Failed,
                };
            }
            I2cAction::Done(readings) => return Ok(readings),
            I2cAction::Aborted => return Err(()),
        }
    }
}

fn ready() -> (IcmImu, Device) {
    let mut imu = IcmImu::new(ADDR);
    let mut dev = Device::new();
    assert_eq!(run(&mut imu, &mut dev), Ok(vec![]));
    dev.ops.clear();
    (imu, dev)
}

#[test]
fn i2c_new_wakes_device() {
    let mut imu = IcmImu::new(ADDR);
    let mut dev = Device::new();
    assert_eq!(run(&mut imu, &mut dev), Ok(vec![]));
    assert_eq!(dev.ops, vec![Op::Write(ADDR, vec![0x06, 0x01])]);
    assert_eq!(dev.banks[0][0x06], 0x01);
    assert!(imu.acc_on() && imu.gyro_on() && !imu.mag_on() && !imu.int_on());
}

#[test]
fn i2c_wai_reads_who_am_i() {
    let (mut imu, mut dev) = ready();
    imu.wai();
    assert_eq!(run(&mut imu, &mut dev), Ok(vec![Reading::Id(0xEA)]));
    assert_eq!(dev.ops, vec![Op::WriteRead(ADDR, vec![0x00], 1)]);
}

#[test]
fn i2c_accelerometer_power_keeps_gyro_bits() {
    let (mut imu, mut dev) = ready();
    dev.banks[0][0x07] = 0b1100_0101;
    imu.disable_acc();
    run(&mut imu, &mut dev).unwrap();
    assert_eq!(dev.banks[0][0x07], 0b1111_1101);
    assert!(!imu.acc_on());
    imu.enable_acc();
    run(&mut imu, &mut dev).unwrap();
    assert_eq!(dev.banks[0][0x07], 0b0000_0101);
    assert!(imu.acc_on());
}

#[test]
fn i2c_gyro_power_writes_two_bytes_before_reading() {
    let (mut imu, mut dev) = ready();
    imu.disable_gyro();
    run(&mut imu, &mut dev).unwrap();
    assert!(!imu.gyro_on());
    assert_eq!(dev.ops[0], Op::WriteRead(ADDR, vec![0x07, 0x00], 1));
    imu.enable_gyro();
    run(&mut imu, &mut dev).unwrap();
    assert!(imu.gyro_on());
    assert_eq!(dev.ops[2], Op::WriteRead(ADDR, vec![0x07, 0x07], 1));
}

#[test]
fn i2c_interrupt_flags() {
    let (mut imu, mut dev) = ready();
    imu.enable_int();
    run(&mut imu, &mut dev).unwrap();
    assert!(imu.int_on());
    assert_eq!(dev.banks[0][0x11], 1);
    imu.disable_int();
    run(&mut imu, &mut dev).unwrap();
    assert!(!imu.int_on());
    assert_eq!(dev.banks[0][0x11], 0);
}

#[test]
fn i2c_read_acc_z_reads_high_then_low() {
    let (mut imu, mut dev) = ready();
    dev.banks[0][0x31] = 0xFE;
    dev.banks[0][0x32] = 0x0C;
    imu.read_acc_z();
    assert_eq!(
        run(&mut imu, &mut dev),
        Ok(vec![Reading::Sample { raw: -500, scale: Scale::Counts(16_384) }])
    );
    assert_eq!(
        dev.ops,
        vec![Op::WriteRead(ADDR, vec![0x31], 1), Op::WriteRead(ADDR, vec![0x32], 1)]
    );
}

#[test]
fn i2c_read_gyro_wakes_gyro_and_uses_accel_scale() {
    let (mut imu, mut dev) = ready();
    imu.disable_gyro();
    run(&mut imu, &mut dev).unwrap();
    imu.set_acc_sen(AccSensitivity::Sen4g);
    run(&mut imu, &mut dev).unwrap();
    dev.ops.clear();
    dev.banks[0][0x33] = 0x00;
    dev.banks[0][0x34] = 0x10;
    imu.read_gyro();
    let samples = run(&mut imu, &mut dev).unwrap();
    assert_eq!(samples[0], Reading::Sample { raw: 16, scale: Scale::Counts(8_192) });
    assert_eq!(samples.len(), 3);
    assert!(imu.gyro_on());
    // the gyroscope is powered once, then the six sample registers are read
    assert_eq!(dev.ops.len(), 2 + 6);
}

#[test]
fn i2c_read_acc_x_and_y() {
    let (mut imu, mut dev) = ready();
    dev.banks[0][0x2D] = 0x01;
    dev.banks[0][0x2E] = 0x00;
    dev.banks[0][0x2F] = 0x00;
    dev.banks[0][0x30] = 0x02;
    imu.read_acc_x();
    assert_eq!(
        run(&mut imu, &mut dev),
        Ok(vec![Reading::Sample { raw: 256, scale: Scale::Counts(16_384) }])
    );
    imu.read_acc_y();
    assert_eq!(
        run(&mut imu, &mut dev),
        Ok(vec![Reading::Sample { raw: 2, scale: Scale::Counts(16_384) }])
    );
}

#[test]
fn i2c_read_acc_three_axes() {
    let (mut imu, mut dev) = ready();
    imu.read_acc();
    assert_eq!(run(&mut imu, &mut dev).unwrap().len(), 3);
    imu.read_gyro_x();
    assert_eq!(run(&mut imu, &mut dev).unwrap().len(), 1);
    imu.read_gyro_y();
    assert_eq!(run(&mut imu, &mut dev).unwrap().len(), 1);
    imu.read_gyro_z();
    assert_eq!(run(&mut imu, &mut dev).unwrap().len(), 1);
}

#[test]
fn i2c_set_gyro_sen_and_return_to_bank_0() {
    let (mut imu, mut dev) = ready();
    dev.banks[2][0x01] = 0x39;
    imu.set_gyro_sen(GyroSensitivity::Sen2000dps);
    run(&mut imu, &mut dev).unwrap();
    assert_eq!(dev.banks[2][0x01], 0x3F);
    assert_eq!(dev.bank, 0);
    assert_eq!(imu.sensors().gyro_sen, GyroSensitivity::Sen2000dps);
    assert_eq!(dev.ops[0], Op::Write(ADDR, vec![0x7F, 0x20]));
    assert_eq!(dev.ops[3], Op::Write(ADDR, vec![0x7F, 0x00]));
}

#[test]
fn i2c_lpf_settings() {
    let (mut imu, mut dev) = ready();
    dev.banks[2][0x14] = 0x06;
    imu.config_acc_lpf(AccLPF::BW6);
    run(&mut imu, &mut dev).unwrap();
    assert_eq!(dev.banks[2][0x14], 0x37);
    imu.disable_acc_lpf();
    run(&mut imu, &mut dev).unwrap();
    assert_eq!(dev.banks[2][0x14], 0x36);
    imu.config_gyro_lpf(GyroLPF::BW24);
    run(&mut imu, &mut dev).unwrap();
    imu.disable_gyro_lpf();
    run(&mut imu, &mut dev).unwrap();
    assert_eq!(dev.bank, 0);
}

#[test]
fn i2c_rates() {
    let (mut imu, mut dev) = ready();
    let r: Result<(), IcmError<()>> = imu.config_acc_rate(225);
    assert!(r.is_ok());
    run(&mut imu, &mut dev).unwrap();
    assert_eq!(dev.ops[1], Op::Write(ADDR, vec![0x10, 0x00, 0x11, 0x04]));
    let r: Result<(), IcmError<()>> = imu.config_acc_rate(5000);
    assert!(matches!(r, Err(IcmError::InvalidInput)));
    let r: Result<(), IcmError<()>> = imu.config_gyro_rate(1100);
    assert!(r.is_ok());
    run(&mut imu, &mut dev).unwrap();
    assert_eq!(dev.banks[2][0x00], 0);
    let r: Result<(), IcmError<()>> = imu.config_gyro_rate(0);
    assert!(matches!(r, Err(IcmError::InvalidInput)));
}

#[test]
fn i2c_failure_aborts() {
    let (mut imu, mut dev) = ready();
    dev.fail_on = Some(2);
    imu.set_acc_sen(AccSensitivity::Sen16g);
    assert_eq!(run(&mut imu, &mut dev), Err(()));
    assert_eq!(imu.sensors().accel_sen, 16_384);
    assert_eq!(dev.bank, 2);
}
