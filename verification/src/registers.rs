//! The register map of the ICM-20948 as far as the driver uses it.

use vstd::prelude::*;

verus! {

/// Set in the first byte of an SPI frame to ask the device for a read.
pub const READ_FLAG: u8 = 0x80;

/// Bank selection values written to `REG_BANK_SEL`.
pub const REG_BANK_0: u8 = 0x00;
pub const REG_BANK_2: u8 = 0x20;

/// Argument of `get_addr` that asks for the read form of an address.
pub const READ_REG: bool = true;
/// Argument of `get_addr` that asks for the write form of an address.
pub const WRITE_REG: bool = false;

/// The registers of user bank 0 that the driver touches.
#[derive(Clone, Copy, Debug, PartialEq, Eq, Structural)]
pub enum RegistersBank0 {
    Wai,
    PwrMgmt1,
    PwrMgmt2,
    IntEnable1,
    AccelXOutH,
    AccelXOutL,
    AccelYOutH,
    AccelYOutL,
    AccelZOutH,
    AccelZOutL,
    GyroXOutH,
    GyroXOutL,
    GyroYOutH,
    GyroYOutL,
    GyroZOutH,
    GyroZOutL,
    RegBankSel,
}

/// The registers of user bank 2 that the driver touches.
#[derive(Clone, Copy, Debug, PartialEq, Eq, Structural)]
pub enum RegistersBank2 {
    GyroConfig1,
    AccelConfig,
    AccelSmplrtDiv1,
    AccelSmplrtDiv2,
    GyroSmplrtDiv,
}

/// The address byte that goes on the wire: the register's offset, with the
/// read flag set when the register is to be read.
pub open spec fn wire_addr(offset: u8, is_read: bool) -> u8 {
    if is_read { offset | READ_FLAG } else { offset }
}

impl RegistersBank0 {
    /// Offset of the register inside bank 0, as the datasheet lists it.
    pub open spec fn offset(self) -> u8 {
        match self {
            RegistersBank0::Wai => 0x00,
            RegistersBank0::PwrMgmt1 => 0x06,
            RegistersBank0::PwrMgmt2 => 0x07,
            RegistersBank0::IntEnable1 => 0x11,
            RegistersBank0::AccelXOutH => 0x2D,
            RegistersBank0::AccelXOutL => 0x2E,
            RegistersBank0::AccelYOutH => 0x2F,
            RegistersBank0::AccelYOutL => 0x30,
            RegistersBank0::AccelZOutH => 0x31,
            RegistersBank0::AccelZOutL => 0x32,
            RegistersBank0::GyroXOutH => 0x33,
            RegistersBank0::GyroXOutL => 0x34,
            RegistersBank0::GyroYOutH => 0x35,
            RegistersBank0::GyroYOutL => 0x36,
            RegistersBank0::GyroZOutH => 0x37,
            RegistersBank0::GyroZOutL => 0x38,
            RegistersBank0::RegBankSel => 0x7F,
        }
    }

    /// The address byte for this register, in its read or write form.
    pub fn get_addr(&self, is_read: bool) -> (addr: u8)
        ensures
            addr == wire_addr(self.offset(), is_read),
    {
        let offset: u8 = match *self {
            RegistersBank0::Wai => 0x00,
            RegistersBank0::PwrMgmt1 => 0x06,
            RegistersBank0::PwrMgmt2 => 0x07,
            RegistersBank0::IntEnable1 => 0x11,
            RegistersBank0::AccelXOutH => 0x2D,
            RegistersBank0::AccelXOutL => 0x2E,
            RegistersBank0::AccelYOutH => 0x2F,
            RegistersBank0::AccelYOutL => 0x30,
            RegistersBank0::AccelZOutH => 0x31,
            RegistersBank0::AccelZOutL => 0x32,
            RegistersBank0::GyroXOutH => 0x33,
            RegistersBank0::GyroXOutL => 0x34,
            RegistersBank0::GyroYOutH => 0x35,
            RegistersBank0::GyroYOutL => 0x36,
            RegistersBank0::GyroZOutH => 0x37,
            RegistersBank0::GyroZOutL => 0x38,
            RegistersBank0::RegBankSel => 0x7F,
        };
        if is_read {
            offset | READ_FLAG
        } else {
            offset
        }
    }
}

impl RegistersBank2 {
    /// Offset of the register inside bank 2, as the datasheet lists it.
    pub open spec fn offset(self) -> u8 {
        match self {
            RegistersBank2::GyroSmplrtDiv => 0x00,
            RegistersBank2::GyroConfig1 => 0x01,
            RegistersBank2::AccelSmplrtDiv1 => 0x10,
            RegistersBank2::AccelSmplrtDiv2 => 0x11,
            RegistersBank2::AccelConfig => 0x14,
        }
    }

    /// The address byte for this register, in its read or write form.
    pub fn get_addr(&self, is_read: bool) -> (addr: u8)
        ensures
            addr == wire_addr(self.offset(), is_read),
    {
        let offset: u8 = match *self {
            RegistersBank2::GyroSmplrtDiv => 0x00,
            RegistersBank2::GyroConfig1 => 0x01,
            RegistersBank2::AccelSmplrtDiv1 => 0x10,
            RegistersBank2::AccelSmplrtDiv2 => 0x11,
            RegistersBank2::AccelConfig => 0x14,
        };
        if is_read {
            offset | READ_FLAG
        } else {
            offset
        }
    }
}

/// An offset below `0x80` keeps the read flag free: the read form of its
/// address is the write form plus `0x80`, and the write form has bit 7 clear.
pub proof fn lemma_read_flag_free(offset: u8)
    requires
        offset < 0x80,
    ensures
        wire_addr(offset, true) == offset + 0x80,
        wire_addr(offset, false) < 0x80,
        wire_addr(offset, true) & READ_FLAG == READ_FLAG,
        wire_addr(offset, false) & READ_FLAG == 0,
{
    assert(offset | 0x80u8 == offset + 0x80) by (bit_vector)
        requires
            offset < 0x80u8,
    ;
    assert((offset | 0x80u8) & 0x80u8 == 0x80u8) by (bit_vector);
    assert(offset & 0x80u8 == 0u8) by (bit_vector)
        requires
            offset < 0x80u8,
    ;
}

/// Every register of bank 0 has an offset below `0x80`, and no two of them
/// share one: each address names exactly one register, in both forms.
pub proof fn lemma_bank0_addresses(a: RegistersBank0, b: RegistersBank0, is_read: bool)
    ensures
        a.offset() < 0x80,
        wire_addr(a.offset(), true) == a.offset() + 0x80,
        wire_addr(a.offset(), is_read) == wire_addr(b.offset(), is_read) <==> a == b,
{
    lemma_read_flag_free(a.offset());
    lemma_read_flag_free(b.offset());
}

/// Every register of bank 2 has an offset below `0x80`, and no two of them
/// share one: each address names exactly one register, in both forms.
pub proof fn lemma_bank2_addresses(a: RegistersBank2, b: RegistersBank2, is_read: bool)
    ensures
        a.offset() < 0x80,
        wire_addr(a.offset(), true) == a.offset() + 0x80,
        wire_addr(a.offset(), is_read) == wire_addr(b.offset(), is_read) <==> a == b,
{
    lemma_read_flag_free(a.offset());
    lemma_read_flag_free(b.offset());
}

/// The sample register pairs, high byte first, in the order of the
/// register map: accelerometer x, y, z, then gyroscope x, y, z.
pub open spec fn data_pair(axis: int) -> (RegistersBank0, RegistersBank0) {
    if axis == 0 {
        (RegistersBank0::AccelXOutH, RegistersBank0::AccelXOutL)
    } else if axis == 1 {
        (RegistersBank0::AccelYOutH, RegistersBank0::AccelYOutL)
    } else if axis == 2 {
        (RegistersBank0::AccelZOutH, RegistersBank0::AccelZOutL)
    } else if axis == 3 {
        (RegistersBank0::GyroXOutH, RegistersBank0::GyroXOutL)
    } else if axis == 4 {
        (RegistersBank0::GyroYOutH, RegistersBank0::GyroYOutL)
    } else {
        (RegistersBank0::GyroZOutH, RegistersBank0::GyroZOutL)
    }
}

/// The twelve sample registers sit back to back from `ACCEL_XOUT_H` at
/// `0x2D`: each axis takes two addresses, its high byte at the lower one.
pub proof fn lemma_data_registers_consecutive(axis: int)
    requires
        0 <= axis < 6,
    ensures
        data_pair(axis).0.offset() == 0x2D + 2 * axis,
        data_pair(axis).1.offset() == data_pair(axis).0.offset() + 1,
        wire_addr(data_pair(axis).0.offset(), READ_REG) == 0xAD + 2 * axis,
        wire_addr(data_pair(axis).1.offset(), READ_REG) == 0xAE + 2 * axis,
{
    lemma_read_flag_free(data_pair(axis).0.offset());
    lemma_read_flag_free(data_pair(axis).1.offset());
}

} // verus!
