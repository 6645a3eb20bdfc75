//! The driver core for a device on an I2C bus at a fixed address.
//!
//! An operation loads a bus script into the core; the caller then calls
//! `step` until it answers `Done` or `Aborted`, performing each action the
//! core asks for on the device's address: a plain write (`Write`) or a write
//! followed by a read (`WriteRead`), whose read bytes it hands back.

use vstd::prelude::*;
use crate::registers::{data_pair, wire_addr, RegistersBank0, RegistersBank2, REG_BANK_0, REG_BANK_2, WRITE_REG};
use crate::settings::{
    acc_off_update, acc_on_update, gyro_off_update, gyro_on_update, lpf_off_update, lpf_update,
    fs_update, with_field, FS_SEL_MASK, DLPF_CFG_MASK, FCHOICE_BIT, AccLPF, AccSensitivity, AccStates, FieldUpdate, GyroLPF, GyroSensitivity,
    GyroStates, MagStates, DISABLE_ACCEL_MASK, DISABLE_GYRO_MASK,
};
use crate::sensor::{
    acc_divider_bytes, acc_divider_high, acc_divider_low, gyro_divider, gyro_rate_divider,
    raw_sample, spec_raw_sample, Effect, Reading, ScaleSource, Sensors,
};
use crate::error::IcmError;

verus! {

/// One step of a bus script.  `Write`, `Frame` and `WriteRead` are
/// performed by the caller; the others act on the core alone.
#[derive(Clone, Copy, Debug, PartialEq, Eq, Structural)]
pub enum I2cStep {
    /// `databuf[at] = byte`.
    Put { at: usize, byte: u8 },
    /// `databuf[at] = update` applied to `rx[from]`.
    Update { at: usize, from: usize, update: FieldUpdate },
    /// Write `databuf[lo..hi]`.
    Write { lo: usize, hi: usize },
    /// Write the two bytes given.
    Frame { first: u8, second: u8 },
    /// Write `databuf[lo..hi]`, then read into `rx[rx_lo..rx_hi]`.
    WriteRead { lo: usize, hi: usize, rx_lo: usize, rx_hi: usize },
    /// Record the sample held big-endian in `rx[hi]`, `rx[lo]`.
    Sample { hi: usize, lo: usize, source: ScaleSource },
    /// Record `rx[at]` as the device's identity.
    Id { at: usize },
    /// Change the driver's record of the device.
    Effect(Effect),
}

/// What the core asks the caller to do next.
pub enum I2cAction {
    /// Write `bytes` to the device at `addr`.
    Write { addr: u8, bytes: Vec<u8> },
    /// Write `bytes` to the device at `addr`, then read `len` bytes from it
    /// and hand them back.
    WriteRead { addr: u8, bytes: Vec<u8>, len: usize },
    /// The operation completed; these are the values it read.
    Done(Vec<Reading>),
    /// The operation was given up after a bus error.
    Aborted,
}

/// What the caller reports after performing an action.
pub enum I2cEvent {
    /// The action was performed (or no action is outstanding).
    Proceed,
    /// The write and read succeeded; these bytes were read.
    Read(Vec<u8>),
    /// The bus reported an error.
    Failed,
}

impl I2cEvent {
    pub open spec fn reply(&self) -> Option<Seq<u8>> {
        match self {
            I2cEvent::Read(bytes) => Some(bytes@),
            _ => None,
        }
    }

    pub open spec fn failed(&self) -> bool {
        match self {
            I2cEvent::Failed => true,
            _ => false,
        }
    }
}

/// The length of the driver's scratch buffer.
pub const DATABUF_LEN: usize = 5;
/// The length of the buffer that reads land in.
pub const RX_LEN: usize = 2;

/// The indices a step refers to lie inside the buffers.
pub open spec fn step_wf(step: I2cStep) -> bool {
    match step {
        I2cStep::Put { at, .. } => at < DATABUF_LEN,
        I2cStep::Update { at, from, .. } => at < DATABUF_LEN && from < RX_LEN,
        I2cStep::Write { lo, hi } => lo <= hi <= DATABUF_LEN,
        I2cStep::WriteRead { lo, hi, rx_lo, rx_hi } => lo <= hi <= DATABUF_LEN && rx_lo <= rx_hi <= RX_LEN,
        I2cStep::Sample { hi, lo, .. } => hi < RX_LEN && lo < RX_LEN,
        I2cStep::Id { at } => at < RX_LEN,
        _ => true,
    }
}

pub open spec fn script_wf(script: Seq<I2cStep>) -> bool {
    forall|i: int| 0 <= i < script.len() ==> #[trigger] step_wf(script[i])
}

/// Steps that the caller performs.
pub open spec fn is_bus_step(step: I2cStep) -> bool {
    match step {
        I2cStep::Write { .. } | I2cStep::Frame { .. } | I2cStep::WriteRead { .. } => true,
        _ => false,
    }
}

/// The abstract state of the core.
pub struct I2cState {
    pub sensors: Sensors,
    /// The device's bus address.
    pub addr: u8,
    pub databuf: Seq<u8>,
    pub rx: Seq<u8>,
    pub script: Seq<I2cStep>,
    /// Index of the next step of `script`.
    pub pc: int,
    /// The range of `rx` whose read is outstanding.
    pub awaiting: Option<(int, int)>,
    /// The values read so far by the running operation.
    pub captured: Seq<Reading>,
}

impl I2cState {
    pub open spec fn wf(self) -> bool {
        &&& 0 <= self.pc <= self.script.len()
        &&& self.databuf.len() == DATABUF_LEN
        &&& self.rx.len() == RX_LEN
        &&& script_wf(self.script)
        &&& self.awaiting matches Some((lo, hi)) ==> 0 <= lo <= hi <= RX_LEN
    }

    /// The state after a step that the core performs alone.
    pub open spec fn exec_internal(self, step: I2cStep) -> I2cState {
        match step {
            I2cStep::Put { at, byte } => I2cState { databuf: self.databuf.update(at as int, byte), ..self },
            I2cStep::Update { at, from, update } => I2cState {
                databuf: self.databuf.update(at as int, update.spec_apply(self.rx[from as int])),
                ..self
            },
            I2cStep::Sample { hi, lo, source } => I2cState {
                captured: self.captured.push(
                    Reading::Sample {
                        raw: spec_raw_sample(self.rx[hi as int], self.rx[lo as int]) as i16,
                        scale: self.sensors.spec_scale(source),
                    },
                ),
                ..self
            },
            I2cStep::Id { at } => I2cState { captured: self.captured.push(Reading::Id(self.rx[at as int])), ..self },
            I2cStep::Effect(e) => I2cState { sensors: self.sensors.spec_apply(e), ..self },
            _ => self,
        }
    }

    /// The state after the core has performed every step up to the next bus
    /// step or the end of the script.
    pub open spec fn settle(self) -> I2cState
        decreases self.script.len() - self.pc,
    {
        if 0 <= self.pc < self.script.len() && !is_bus_step(self.script[self.pc]) {
            I2cState { pc: self.pc + 1, ..self.exec_internal(self.script[self.pc]) }.settle()
        } else {
            self
        }
    }

    /// The state after the bytes of the outstanding read, if any, have been
    /// stored.  They are stored only when there are as many as were asked for.
    pub open spec fn absorb(self, reply: Option<Seq<u8>>) -> I2cState {
        let rx = match (self.awaiting, reply) {
            (Some((lo, hi)), Some(bytes)) => if bytes.len() == hi - lo {
                self.rx.subrange(0, lo) + bytes + self.rx.subrange(hi, self.rx.len() as int)
            } else {
                self.rx
            },
            _ => self.rx,
        };
        I2cState { rx, awaiting: None, ..self }
    }

    /// The state after the bus step at `pc` has been handed to the caller.
    pub open spec fn issue(self) -> I2cState {
        let awaiting = match self.script[self.pc] {
            I2cStep::WriteRead { rx_lo, rx_hi, .. } => Some((rx_lo as int, rx_hi as int)),
            _ => None,
        };
        I2cState { pc: self.pc + 1, awaiting, ..self }
    }

    /// The idle state: no script, nothing outstanding, nothing captured.
    pub open spec fn cleared(self) -> I2cState {
        I2cState { script: Seq::empty(), pc: 0, awaiting: None, captured: Seq::empty(), ..self }
    }

    /// The state with `script` loaded and ready to run, with a zeroed read buffer.
    pub open spec fn loaded(self, script: Seq<I2cStep>) -> I2cState {
        I2cState { script, pc: 0, awaiting: None, captured: Seq::empty(), rx: seq![0u8, 0u8], ..self }
    }

    /// The state after the caller's report `reply`, `failed`.
    pub open spec fn after(self, reply: Option<Seq<u8>>, failed: bool) -> I2cState {
        let a = self.absorb(reply);
        if failed {
            a.cleared()
        } else {
            let s = a.settle();
            if s.pc < s.script.len() {
                s.issue()
            } else {
                s.cleared()
            }
        }
    }
}

/// Settling keeps the script, only moves forward, and stops at a bus step or
/// at the end of the script.
pub proof fn lemma_settle(v: I2cState)
    requires
        v.wf(),
    ensures
        v.settle().wf(),
        v.settle().script == v.script,
        v.settle().awaiting == v.awaiting,
        v.settle().addr == v.addr,
        v.pc <= v.settle().pc,
        v.settle().pc < v.settle().script.len() ==> is_bus_step(v.settle().script[v.settle().pc]),
    decreases v.script.len() - v.pc,
{
    if 0 <= v.pc < v.script.len() && !is_bus_step(v.script[v.pc]) {
        let next = I2cState { pc: v.pc + 1, ..v.exec_internal(v.script[v.pc]) };
        assert(step_wf(v.script[v.pc]));
        lemma_settle(next);
    }
}

/// `action` is what the core asks for in the settled state `s`.
pub open spec fn action_for(s: I2cState, action: I2cAction) -> bool {
    if s.pc < s.script.len() {
        match s.script[s.pc] {
            I2cStep::Write { lo, hi } => action matches I2cAction::Write { addr, bytes } && addr == s.addr
                && bytes@ == s.databuf.subrange(lo as int, hi as int),
            I2cStep::Frame { first, second } => action matches I2cAction::Write { addr, bytes } && addr
                == s.addr && bytes@ == seq![first, second],
            I2cStep::WriteRead { lo, hi, rx_lo, rx_hi } => action matches I2cAction::WriteRead {
                addr,
                bytes,
                len,
            } && addr == s.addr && bytes@ == s.databuf.subrange(lo as int, hi as int) && len == rx_hi - rx_lo,
            _ => false,
        }
    } else {
        action matches I2cAction::Done(readings) && readings@ == s.captured
    }
}

/// The driver core of an ICM-20948 on I2C.
pub struct IcmImu {
    sensors: Sensors,
    databuf: [u8; 5],
    rx: [u8; 2],
    script: Vec<I2cStep>,
    pc: usize,
    awaiting: Option<(usize, usize)>,
    captured: Vec<Reading>,
    addr: u8,
}

impl View for IcmImu {
    type V = I2cState;

    closed spec fn view(&self) -> I2cState {
        I2cState {
            sensors: self.sensors,
            addr: self.addr,
            databuf: self.databuf@,
            rx: self.rx@,
            script: self.script@,
            pc: self.pc as int,
            awaiting: match self.awaiting {
                Some((lo, hi)) => Some((lo as int, hi as int)),
                None => None,
            },
            captured: self.captured@,
        }
    }
}

impl IcmImu {
    /// The core's indices lie inside its buffers; every operation keeps it so.
    pub closed spec fn wf(&self) -> bool {
        self@.wf()
    }

    /// Stores the bytes of the outstanding read, if there are as many as
    /// were asked for, and clears the outstanding read.
    fn store_reply(&mut self, reply: &Vec<u8>)
        requires
            old(self).wf(),
        ensures
            final(self).wf(),
            final(self)@ == old(self)@.absorb(Some(reply@)),
    {
        if let Some((lo, hi)) = self.awaiting {
            if reply.len() == hi - lo {
                let mut buf = self.rx;
                let ghost start = buf@;
                let mut i: usize = 0;
                while i < reply.len()
                    invariant
                        lo <= hi <= 2,
                        reply.len() == hi - lo,
                        i <= reply.len(),
                        start.len() == 2,
                        buf@ =~= start.subrange(0, lo as int) + reply@.subrange(0, i as int)
                            + start.subrange(lo + i, 2),
                    decreases reply.len() - i,
                {
                    buf[lo + i] = reply[i];
                    i = i + 1;
                    assert(buf@ =~= start.subrange(0, lo as int) + reply@.subrange(0, i as int)
                        + start.subrange(lo + i, 2));
                }
                assert(reply@.subrange(0, i as int) =~= reply@);
                self.rx = buf;
            }
        }
        self.awaiting = None;
    }

    /// Performs a step that the core performs alone.
    fn exec_internal(&mut self, step: I2cStep)
        requires
            old(self).wf(),
            step_wf(step),
        ensures
            final(self).wf(),
            final(self)@ == old(self)@.exec_internal(step),
    {
        match step {
            I2cStep::Put { at, byte } => {
                self.databuf[at] = byte;
            },
            I2cStep::Update { at, from, update } => {
                let value = update.apply(self.rx[from]);
                self.databuf[at] = value;
            },
            I2cStep::Sample { hi, lo, source } => {
                let raw = raw_sample(self.rx[hi], self.rx[lo]);
                let scale = self.sensors.scale(source);
                self.captured.push(Reading::Sample { raw, scale });
            },
            I2cStep::Id { at } => {
                let id = self.rx[at];
                self.captured.push(Reading::Id(id));
            },
            I2cStep::Effect(e) => {
                self.sensors.apply(e);
            },
            _ => {},
        }
    }

    /// Performs the steps up to the next bus step or the end of the script.
    fn settle(&mut self)
        requires
            old(self).wf(),
        ensures
            final(self).wf(),
            final(self)@ == old(self)@.settle(),
    {
        while self.pc < self.script.len() && !self.script[self.pc].is_bus()
            invariant
                self@.wf(),
                self@.settle() == old(self)@.settle(),
            decreases self.script.len() - self.pc,
        {
            let step = self.script[self.pc];
            assert(step_wf(self.script@[self.pc as int]));
            self.exec_internal(step);
            self.pc = self.pc + 1;
        }
    }

    /// Drops the script and everything that belongs to it.
    fn clear(&mut self)
        requires
            old(self).wf(),
        ensures
            final(self).wf(),
            final(self)@ == old(self)@.cleared(),
    {
        self.pc = 0;
        self.awaiting = None;
        self.script = Vec::new();
        self.captured = Vec::new();
    }

    /// Loads `script`, to be run from its first step.
    fn load(&mut self, script: Vec<I2cStep>)
        requires
            script_wf(script@),
        ensures
            final(self).wf(),
            final(self)@ == old(self)@.loaded(script@),
    {
        self.pc = 0;
        self.awaiting = None;
        self.script = script;
        self.captured = Vec::new();
        self.rx = [0; 2];
        assert(self.rx@ =~= seq![0u8, 0u8]);
    }

    fn copy_out(&self, lo: usize, hi: usize) -> (bytes: Vec<u8>)
        requires
            lo <= hi <= 5,
        ensures
            bytes@ == self.databuf@.subrange(lo as int, hi as int),
    {
        let mut bytes: Vec<u8> = Vec::new();
        let mut i: usize = lo;
        while i < hi
            invariant
                lo <= i <= hi <= 5,
                bytes@ =~= self.databuf@.subrange(lo as int, i as int),
            decreases hi - i,
        {
            bytes.push(self.databuf[i]);
            i = i + 1;
        }
        bytes
    }

    /// Absorbs the caller's report and answers with the next action.
    ///
    /// After `Aborted` or `Done` the core is idle until the next operation
    /// is loaded.
    pub fn step(&mut self, event: I2cEvent) -> (action: I2cAction)
        requires
            old(self).wf(),
        ensures
            final(self).wf(),
            final(self)@ == old(self)@.after(event.reply(), event.failed()),
            event.failed() ==> action is Aborted,
            !event.failed() ==> action_for(old(self)@.absorb(event.reply()).settle(), action),
    {
        let failed = match event {
            I2cEvent::Proceed => {
                self.awaiting = None;
                false
            },
            I2cEvent::Read(bytes) => {
                self.store_reply(&bytes);
                false
            },
            I2cEvent::Failed => {
                self.awaiting = None;
                true
            },
        };
        if failed {
            self.clear();
            return I2cAction::Aborted;
        }
        let ghost absorbed = self@;
        self.settle();
        proof {
            lemma_settle(absorbed);
        }
        if self.pc < self.script.len() {
            let step = self.script[self.pc];
            assert(step_wf(self.script@[self.pc as int]));
            self.pc = self.pc + 1;
            match step {
                I2cStep::Write { lo, hi } => I2cAction::Write { addr: self.addr, bytes: self.copy_out(lo, hi) },
                I2cStep::Frame { first, second } => I2cAction::Write { addr: self.addr, bytes: vec![first, second] },
                I2cStep::WriteRead { lo, hi, rx_lo, rx_hi } => {
                    self.awaiting = Some((rx_lo, rx_hi));
                    I2cAction::WriteRead { addr: self.addr, bytes: self.copy_out(lo, hi), len: rx_hi - rx_lo }
                },
                _ => I2cAction::Aborted,
            }
        } else {
            let mut readings: Vec<Reading> = Vec::new();
            core::mem::swap(&mut readings, &mut self.captured);
            self.clear();
            I2cAction::Done(readings)
        }
    }
}

impl I2cStep {
    fn is_bus(&self) -> (b: bool)
        ensures
            b == is_bus_step(*self),
    {
        match *self {
            I2cStep::Write { .. } | I2cStep::Frame { .. } | I2cStep::WriteRead { .. } => true,
            _ => false,
        }
    }
}


/// Write `value` to the register whose address is `reg`.
pub open spec fn write_seg(reg: u8, value: u8) -> Seq<I2cStep> {
    seq![
        I2cStep::Put { at: 0, byte: reg },
        I2cStep::Put { at: 1, byte: value },
        I2cStep::Write { lo: 0, hi: 2 },
    ]
}

/// Select user bank `bank`.
pub open spec fn bank_seg(bank: u8) -> Seq<I2cStep> {
    write_seg(wire_addr(RegistersBank0::RegBankSel.offset(), WRITE_REG), bank)
}

/// Read-modify-write of the register at `reg`: `sent` bytes of `databuf`
/// (the address, then whatever `databuf[1]` holds) are written before one
/// byte is read, and the address with `update` of that byte is written back.
pub open spec fn rmw_seg(reg: u8, sent: usize, update: FieldUpdate) -> Seq<I2cStep> {
    seq![
        I2cStep::Put { at: 0, byte: reg },
        I2cStep::WriteRead { lo: 0, hi: sent, rx_lo: 0, rx_hi: 1 },
        I2cStep::Update { at: 1, from: 0, update },
        I2cStep::Write { lo: 0, hi: 2 },
    ]
}

/// Read the sample register pair `high`, `low`, one byte each.
pub open spec fn axis_seg(high: RegistersBank0, low: RegistersBank0, source: ScaleSource) -> Seq<I2cStep> {
    seq![
        I2cStep::Put { at: 0, byte: wire_addr(high.offset(), WRITE_REG) },
        I2cStep::WriteRead { lo: 0, hi: 1, rx_lo: 0, rx_hi: 1 },
        I2cStep::Put { at: 0, byte: wire_addr(low.offset(), WRITE_REG) },
        I2cStep::WriteRead { lo: 0, hi: 1, rx_lo: 1, rx_hi: 2 },
        I2cStep::Sample { hi: 0, lo: 1, source },
    ]
}

/// Wake the device: `PWR_MGMT_1` gets `0x01` (auto clock, out of sleep).
pub open spec fn new_script() -> Seq<I2cStep> {
    seq![I2cStep::Frame { first: wire_addr(RegistersBank0::PwrMgmt1.offset(), WRITE_REG), second: 0x01 }]
}

pub open spec fn wai_script() -> Seq<I2cStep> {
    seq![
        I2cStep::Put { at: 0, byte: wire_addr(RegistersBank0::Wai.offset(), WRITE_REG) },
        I2cStep::WriteRead { lo: 0, hi: 1, rx_lo: 0, rx_hi: 1 },
        I2cStep::Id { at: 0 },
    ]
}

pub open spec fn int_script(on: bool) -> Seq<I2cStep> {
    write_seg(wire_addr(RegistersBank0::IntEnable1.offset(), WRITE_REG), if on { 0x01 } else { 0x00 })
        + seq![I2cStep::Effect(Effect::Int(on))]
}

/// The power read-modify-write of `PWR_MGMT_2`, with `sent` bytes written
/// before the read, followed by `effect`.
pub open spec fn power_script(sent: usize, update: FieldUpdate, effect: Effect) -> Seq<I2cStep> {
    rmw_seg(wire_addr(RegistersBank0::PwrMgmt2.offset(), WRITE_REG), sent, update) + seq![I2cStep::Effect(effect)]
}

pub open spec fn enable_acc_script() -> Seq<I2cStep> {
    power_script(1, acc_on_update(), Effect::Acc(AccStates::AccOn))
}

pub open spec fn disable_acc_script() -> Seq<I2cStep> {
    power_script(1, acc_off_update(), Effect::Acc(AccStates::AccOff))
}

pub open spec fn enable_gyro_script() -> Seq<I2cStep> {
    power_script(2, gyro_on_update(), Effect::Gyro(GyroStates::GyroOn))
}

pub open spec fn disable_gyro_script() -> Seq<I2cStep> {
    power_script(2, gyro_off_update(), Effect::Gyro(GyroStates::GyroOff))
}

/// The steps that power the accelerometer first when the record says it is off.
pub open spec fn acc_wake_prefix(s: Sensors) -> Seq<I2cStep> {
    if s.acc_en == AccStates::AccOff { enable_acc_script() } else { Seq::empty() }
}

/// The steps that power the gyroscope first when the record says it is off.
pub open spec fn gyro_wake_prefix(s: Sensors) -> Seq<I2cStep> {
    if s.gyro_en == GyroStates::GyroOff { enable_gyro_script() } else { Seq::empty() }
}

pub open spec fn read_acc_axis_script(s: Sensors, high: RegistersBank0, low: RegistersBank0) -> Seq<I2cStep> {
    acc_wake_prefix(s) + axis_seg(high, low, ScaleSource::Accel)
}

pub open spec fn read_acc_script(s: Sensors) -> Seq<I2cStep> {
    acc_wake_prefix(s)
        + axis_seg(RegistersBank0::AccelXOutH, RegistersBank0::AccelXOutL, ScaleSource::Accel)
        + axis_seg(RegistersBank0::AccelYOutH, RegistersBank0::AccelYOutL, ScaleSource::Accel)
        + axis_seg(RegistersBank0::AccelZOutH, RegistersBank0::AccelZOutL, ScaleSource::Accel)
}

/// A gyroscope sample; it is scaled by the accelerometer's counts per g.
pub open spec fn read_gyro_axis_script(s: Sensors, high: RegistersBank0, low: RegistersBank0) -> Seq<I2cStep> {
    gyro_wake_prefix(s) + axis_seg(high, low, ScaleSource::Accel)
}

pub open spec fn read_gyro_script(s: Sensors) -> Seq<I2cStep> {
    gyro_wake_prefix(s)
        + axis_seg(RegistersBank0::GyroXOutH, RegistersBank0::GyroXOutL, ScaleSource::Accel)
        + axis_seg(RegistersBank0::GyroYOutH, RegistersBank0::GyroYOutL, ScaleSource::Accel)
        + axis_seg(RegistersBank0::GyroZOutH, RegistersBank0::GyroZOutL, ScaleSource::Accel)
}

/// Switch to bank 2, run `middle`, switch back to bank 0, then `tail`.
pub open spec fn in_bank2(middle: Seq<I2cStep>, tail: Seq<I2cStep>) -> Seq<I2cStep> {
    bank_seg(REG_BANK_2) + middle + bank_seg(REG_BANK_0) + tail
}

pub open spec fn bank2_rmw(reg: RegistersBank2, sent: usize, update: FieldUpdate) -> Seq<I2cStep> {
    rmw_seg(wire_addr(reg.offset(), WRITE_REG), sent, update)
}

pub open spec fn set_acc_sen_script(sen: AccSensitivity) -> Seq<I2cStep> {
    in_bank2(
        bank2_rmw(RegistersBank2::AccelConfig, 1, fs_update(sen.fs_code())),
        seq![I2cStep::Effect(Effect::AccScale(sen))],
    )
}

pub open spec fn set_gyro_sen_script(sen: GyroSensitivity) -> Seq<I2cStep> {
    in_bank2(
        bank2_rmw(RegistersBank2::GyroConfig1, 1, fs_update(sen.fs_code())),
        seq![I2cStep::Effect(Effect::GyroScale(sen))],
    )
}

/// Read-modify-write of `ACCEL_CONFIG` in bank 2.
pub open spec fn acc_config_script(update: FieldUpdate) -> Seq<I2cStep> {
    in_bank2(bank2_rmw(RegistersBank2::AccelConfig, 1, update), Seq::empty())
}

/// Read-modify-write of `GYRO_CONFIG_1` in bank 2; two bytes are written
/// before the read.
pub open spec fn gyro_config_script(update: FieldUpdate) -> Seq<I2cStep> {
    in_bank2(bank2_rmw(RegistersBank2::GyroConfig1, 2, update), Seq::empty())
}

/// Write the accelerometer's divider, high byte `hi` and low byte `lo`, in
/// one four-byte write.
pub open spec fn acc_rate_script(hi: u8, lo: u8) -> Seq<I2cStep> {
    in_bank2(
        seq![
            I2cStep::Put { at: 0, byte: wire_addr(RegistersBank2::AccelSmplrtDiv1.offset(), WRITE_REG) },
            I2cStep::Put { at: 1, byte: hi },
            I2cStep::Put { at: 2, byte: wire_addr(RegistersBank2::AccelSmplrtDiv2.offset(), WRITE_REG) },
            I2cStep::Put { at: 3, byte: lo },
            I2cStep::Write { lo: 0, hi: 4 },
        ],
        Seq::empty(),
    )
}

pub open spec fn gyro_rate_script(div: u8) -> Seq<I2cStep> {
    in_bank2(write_seg(wire_addr(RegistersBank2::GyroSmplrtDiv.offset(), WRITE_REG), div), Seq::empty())
}

proof fn lemma_wf_append(a: Seq<I2cStep>, b: Seq<I2cStep>)
    requires
        script_wf(a),
        script_wf(b),
    ensures
        script_wf(a + b),
{
    assert forall|i: int| 0 <= i < (a + b).len() implies #[trigger] step_wf((a + b)[i]) by {
        if i < a.len() {
            assert((a + b)[i] == a[i]);
        } else {
            assert((a + b)[i] == b[i - a.len()]);
        }
    }
}

fn push_all(v: &mut Vec<I2cStep>, steps: Vec<I2cStep>)
    requires
        script_wf(old(v)@),
        script_wf(steps@),
    ensures
        final(v)@ == old(v)@ + steps@,
        script_wf(final(v)@),
{
    let mut steps = steps;
    proof {
        lemma_wf_append(v@, steps@);
    }
    v.append(&mut steps);
}

fn no_steps() -> (v: Vec<I2cStep>)
    ensures
        v@ == Seq::<I2cStep>::empty(),
        script_wf(v@),
{
    let v: Vec<I2cStep> = Vec::new();
    assert(script_wf(v@));
    v
}

fn write_steps(reg: u8, value: u8) -> (v: Vec<I2cStep>)
    ensures
        v@ == write_seg(reg, value),
        script_wf(v@),
{
    let v = vec![
        I2cStep::Put { at: 0, byte: reg },
        I2cStep::Put { at: 1, byte: value },
        I2cStep::Write { lo: 0, hi: 2 },
    ];
    assert(script_wf(v@));
    v
}

fn bank_steps(bank: u8) -> (v: Vec<I2cStep>)
    ensures
        v@ == bank_seg(bank),
        script_wf(v@),
{
    write_steps(RegistersBank0::RegBankSel.get_addr(WRITE_REG), bank)
}

fn rmw_steps(reg: u8, sent: usize, update: FieldUpdate) -> (v: Vec<I2cStep>)
    requires
        sent <= 5,
    ensures
        v@ == rmw_seg(reg, sent, update),
        script_wf(v@),
{
    let v = vec![
        I2cStep::Put { at: 0, byte: reg },
        I2cStep::WriteRead { lo: 0, hi: sent, rx_lo: 0, rx_hi: 1 },
        I2cStep::Update { at: 1, from: 0, update },
        I2cStep::Write { lo: 0, hi: 2 },
    ];
    assert(script_wf(v@));
    v
}

fn axis_steps(high: RegistersBank0, low: RegistersBank0, source: ScaleSource) -> (v: Vec<I2cStep>)
    ensures
        v@ == axis_seg(high, low, source),
        script_wf(v@),
{
    let v = vec![
        I2cStep::Put { at: 0, byte: high.get_addr(WRITE_REG) },
        I2cStep::WriteRead { lo: 0, hi: 1, rx_lo: 0, rx_hi: 1 },
        I2cStep::Put { at: 0, byte: low.get_addr(WRITE_REG) },
        I2cStep::WriteRead { lo: 0, hi: 1, rx_lo: 1, rx_hi: 2 },
        I2cStep::Sample { hi: 0, lo: 1, source },
    ];
    assert(script_wf(v@));
    v
}

fn effect_steps(effect: Effect) -> (v: Vec<I2cStep>)
    ensures
        v@ == seq![I2cStep::Effect(effect)],
        script_wf(v@),
{
    let v = vec![I2cStep::Effect(effect)];
    assert(script_wf(v@));
    v
}

fn bank2_steps(middle: Vec<I2cStep>, tail: Vec<I2cStep>) -> (v: Vec<I2cStep>)
    requires
        script_wf(middle@),
        script_wf(tail@),
    ensures
        v@ == in_bank2(middle@, tail@),
        script_wf(v@),
{
    let mut v = bank_steps(REG_BANK_2);
    push_all(&mut v, middle);
    push_all(&mut v, bank_steps(REG_BANK_0));
    push_all(&mut v, tail);
    v
}

fn power_steps(sent: usize, update: FieldUpdate, effect: Effect) -> (v: Vec<I2cStep>)
    requires
        sent <= 5,
    ensures
        v@ == power_script(sent, update, effect),
        script_wf(v@),
{
    let mut v = rmw_steps(RegistersBank0::PwrMgmt2.get_addr(WRITE_REG), sent, update);
    push_all(&mut v, effect_steps(effect));
    v
}

fn acc_wake_steps(s: &Sensors) -> (v: Vec<I2cStep>)
    ensures
        v@ == acc_wake_prefix(*s),
        script_wf(v@),
{
    if s.acc_en == AccStates::AccOff {
        power_steps(1, FieldUpdate { keep: DISABLE_GYRO_MASK, set: 0x00 }, Effect::Acc(AccStates::AccOn))
    } else {
        no_steps()
    }
}

fn gyro_wake_steps(s: &Sensors) -> (v: Vec<I2cStep>)
    ensures
        v@ == gyro_wake_prefix(*s),
        script_wf(v@),
{
    if s.gyro_en == GyroStates::GyroOff {
        power_steps(2, FieldUpdate { keep: DISABLE_ACCEL_MASK, set: 0x00 }, Effect::Gyro(GyroStates::GyroOn))
    } else {
        no_steps()
    }
}

impl IcmImu {
    /// A core for the device at bus address `addr` that has just been
    /// configured at power-up; the loaded script wakes the device by writing
    /// `0x01` to `PWR_MGMT_1`.
    pub fn new(addr: u8) -> (imu: IcmImu)
        ensures
            imu.wf(),
            imu@ == (I2cState {
                sensors: Sensors::spec_powered_up(),
                addr,
                databuf: seq![0u8, 0u8, 0u8, 0u8, 0u8],
                rx: seq![0u8, 0u8],
                script: new_script(),
                pc: 0,
                awaiting: None,
                captured: Seq::empty(),
            }),
    {
        let script = vec![I2cStep::Frame { first: RegistersBank0::PwrMgmt1.get_addr(WRITE_REG), second: 0x01 }];
        assert(script_wf(script@));
        let imu = IcmImu {
            sensors: Sensors::powered_up(),
            databuf: [0; 5],
            rx: [0; 2],
            script,
            pc: 0,
            awaiting: None,
            captured: Vec::new(),
            addr,
        };
        assert(imu@.databuf =~= seq![0u8, 0u8, 0u8, 0u8, 0u8]);
        assert(imu@.rx =~= seq![0u8, 0u8]);
        assert(imu@.script =~= new_script());
        assert(imu@.captured =~= Seq::<Reading>::empty());
        imu
    }

    /// The driver's record of the device.
    pub fn sensors(&self) -> (s: Sensors)
        ensures
            s == self@.sensors,
    {
        self.sensors
    }

    pub fn int_on(&self) -> (on: bool)
        ensures
            on == self@.sensors.int_enabled,
    {
        self.sensors.int_on()
    }

    pub fn acc_on(&self) -> (on: bool)
        ensures
            on == (self@.sensors.acc_en == AccStates::AccOn),
    {
        self.sensors.acc_on()
    }

    pub fn gyro_on(&self) -> (on: bool)
        ensures
            on == (self@.sensors.gyro_en == GyroStates::GyroOn),
    {
        self.sensors.gyro_on()
    }

    pub fn mag_on(&self) -> (on: bool)
        ensures
            on == (self@.sensors.mag_en == MagStates::MagOn),
    {
        self.sensors.mag_on()
    }

    /// Loads the read of `WHO_AM_I`; its value is the `Id` that `Done` holds.
    pub fn wai(&mut self)
        ensures
            final(self).wf(),
            final(self)@ == old(self)@.loaded(wai_script()),
    {
        let script = vec![
            I2cStep::Put { at: 0, byte: RegistersBank0::Wai.get_addr(WRITE_REG) },
            I2cStep::WriteRead { lo: 0, hi: 1, rx_lo: 0, rx_hi: 1 },
            I2cStep::Id { at: 0 },
        ];
        assert(script_wf(script@));
        self.load(script);
    }

    pub fn enable_acc(&mut self)
        ensures
            final(self).wf(),
            final(self)@ == old(self)@.loaded(enable_acc_script()),
    {
        self.load(power_steps(1, FieldUpdate { keep: DISABLE_GYRO_MASK, set: 0x00 }, Effect::Acc(AccStates::AccOn)));
    }

    pub fn disable_acc(&mut self)
        ensures
            final(self).wf(),
            final(self)@ == old(self)@.loaded(disable_acc_script()),
    {
        self.load(power_steps(1, FieldUpdate { keep: 0xFF, set: DISABLE_ACCEL_MASK }, Effect::Acc(AccStates::AccOff)));
    }

    pub fn enable_gyro(&mut self)
        ensures
            final(self).wf(),
            final(self)@ == old(self)@.loaded(enable_gyro_script()),
    {
        self.load(power_steps(2, FieldUpdate { keep: DISABLE_ACCEL_MASK, set: 0x00 }, Effect::Gyro(GyroStates::GyroOn)));
    }

    pub fn disable_gyro(&mut self)
        ensures
            final(self).wf(),
            final(self)@ == old(self)@.loaded(disable_gyro_script()),
    {
        self.load(power_steps(2, FieldUpdate { keep: 0xFF, set: DISABLE_GYRO_MASK }, Effect::Gyro(GyroStates::GyroOff)));
    }

    /// Loads the write of `0x01` to `INT_ENABLE_1` (raw data ready).
    pub fn enable_int(&mut self)
        ensures
            final(self).wf(),
            final(self)@ == old(self)@.loaded(int_script(true)),
    {
        let mut v = write_steps(RegistersBank0::IntEnable1.get_addr(WRITE_REG), 0x01);
        push_all(&mut v, effect_steps(Effect::Int(true)));
        self.load(v);
    }

    /// Loads the write of `0x00` to `INT_ENABLE_1`.
    pub fn disable_int(&mut self)
        ensures
            final(self).wf(),
            final(self)@ == old(self)@.loaded(int_script(false)),
    {
        let mut v = write_steps(RegistersBank0::IntEnable1.get_addr(WRITE_REG), 0x00);
        push_all(&mut v, effect_steps(Effect::Int(false)));
        self.load(v);
    }

    /// Loads the read of the accelerometer's x axis, preceded by powering the
    /// accelerometer when the record says it is off.  `Done` holds one
    /// `Sample`, scaled by the accelerometer's counts per g.
    pub fn read_acc_x(&mut self)
        ensures
            final(self).wf(),
            final(self)@ == old(self)@.loaded(
                read_acc_axis_script(old(self)@.sensors, RegistersBank0::AccelXOutH, RegistersBank0::AccelXOutL),
            ),
    {
        let mut v = acc_wake_steps(&self.sensors);
        push_all(&mut v, axis_steps(RegistersBank0::AccelXOutH, RegistersBank0::AccelXOutL, ScaleSource::Accel));
        self.load(v);
    }

    pub fn read_acc_y(&mut self)
        ensures
            final(self).wf(),
            final(self)@ == old(self)@.loaded(
                read_acc_axis_script(old(self)@.sensors, RegistersBank0::AccelYOutH, RegistersBank0::AccelYOutL),
            ),
    {
        let mut v = acc_wake_steps(&self.sensors);
        push_all(&mut v, axis_steps(RegistersBank0::AccelYOutH, RegistersBank0::AccelYOutL, ScaleSource::Accel));
        self.load(v);
    }

    pub fn read_acc_z(&mut self)
        ensures
            final(self).wf(),
            final(self)@ == old(self)@.loaded(
                read_acc_axis_script(old(self)@.sensors, RegistersBank0::AccelZOutH, RegistersBank0::AccelZOutL),
            ),
    {
        let mut v = acc_wake_steps(&self.sensors);
        push_all(&mut v, axis_steps(RegistersBank0::AccelZOutH, RegistersBank0::AccelZOutL, ScaleSource::Accel));
        self.load(v);
    }

    /// Loads the reads of the three accelerometer axes, x, y, z; `Done`
    /// holds their three samples in that order.
    pub fn read_acc(&mut self)
        ensures
            final(self).wf(),
            final(self)@ == old(self)@.loaded(read_acc_script(old(self)@.sensors)),
    {
        let mut v = acc_wake_steps(&self.sensors);
        push_all(&mut v, axis_steps(RegistersBank0::AccelXOutH, RegistersBank0::AccelXOutL, ScaleSource::Accel));
        push_all(&mut v, axis_steps(RegistersBank0::AccelYOutH, RegistersBank0::AccelYOutL, ScaleSource::Accel));
        push_all(&mut v, axis_steps(RegistersBank0::AccelZOutH, RegistersBank0::AccelZOutL, ScaleSource::Accel));
        self.load(v);
    }

    /// Loads the read of the gyroscope's x axis, preceded by powering the
    /// gyroscope when the record says it is off.  `Done` holds one `Sample`,
    /// scaled by the accelerometer's counts per g.
    pub fn read_gyro_x(&mut self)
        ensures
            final(self).wf(),
            final(self)@ == old(self)@.loaded(
                read_gyro_axis_script(old(self)@.sensors, RegistersBank0::GyroXOutH, RegistersBank0::GyroXOutL),
            ),
    {
        let mut v = gyro_wake_steps(&self.sensors);
        push_all(&mut v, axis_steps(RegistersBank0::GyroXOutH, RegistersBank0::GyroXOutL, ScaleSource::Accel));
        self.load(v);
    }

    pub fn read_gyro_y(&mut self)
        ensures
            final(self).wf(),
            final(self)@ == old(self)@.loaded(
                read_gyro_axis_script(old(self)@.sensors, RegistersBank0::GyroYOutH, RegistersBank0::GyroYOutL),
            ),
    {
        let mut v = gyro_wake_steps(&self.sensors);
        push_all(&mut v, axis_steps(RegistersBank0::GyroYOutH, RegistersBank0::GyroYOutL, ScaleSource::Accel));
        self.load(v);
    }

    pub fn read_gyro_z(&mut self)
        ensures
            final(self).wf(),
            final(self)@ == old(self)@.loaded(
                read_gyro_axis_script(old(self)@.sensors, RegistersBank0::GyroZOutH, RegistersBank0::GyroZOutL),
            ),
    {
        let mut v = gyro_wake_steps(&self.sensors);
        push_all(&mut v, axis_steps(RegistersBank0::GyroZOutH, RegistersBank0::GyroZOutL, ScaleSource::Accel));
        self.load(v);
    }

    /// Loads the reads of the three gyroscope axes, x, y, z.
    pub fn read_gyro(&mut self)
        ensures
            final(self).wf(),
            final(self)@ == old(self)@.loaded(read_gyro_script(old(self)@.sensors)),
    {
        let mut v = gyro_wake_steps(&self.sensors);
        push_all(&mut v, axis_steps(RegistersBank0::GyroXOutH, RegistersBank0::GyroXOutL, ScaleSource::Accel));
        push_all(&mut v, axis_steps(RegistersBank0::GyroYOutH, RegistersBank0::GyroYOutL, ScaleSource::Accel));
        push_all(&mut v, axis_steps(RegistersBank0::GyroZOutH, RegistersBank0::GyroZOutL, ScaleSource::Accel));
        self.load(v);
    }

    /// Loads the selection of the gyroscope's full-scale range in
    /// `GYRO_CONFIG_1`; on completion the record's range follows it.
    pub fn set_gyro_sen(&mut self, gyro_sen: GyroSensitivity)
        ensures
            final(self).wf(),
            final(self)@ == old(self)@.loaded(set_gyro_sen_script(gyro_sen)),
    {
        let reg = RegistersBank2::GyroConfig1.get_addr(WRITE_REG);
        let v = bank2_steps(rmw_steps(reg, 1, gyro_sen.field_update()), effect_steps(Effect::GyroScale(gyro_sen)));
        self.load(v);
    }

    /// Loads the selection of the accelerometer's full-scale range in
    /// `ACCEL_CONFIG`; on completion the record's counts per g follow it.
    pub fn set_acc_sen(&mut self, acc_sen: AccSensitivity)
        ensures
            final(self).wf(),
            final(self)@ == old(self)@.loaded(set_acc_sen_script(acc_sen)),
    {
        let reg = RegistersBank2::AccelConfig.get_addr(WRITE_REG);
        let v = bank2_steps(rmw_steps(reg, 1, acc_sen.field_update()), effect_steps(Effect::AccScale(acc_sen)));
        self.load(v);
    }

    /// Loads the enabling of the accelerometer's low-pass filter with
    /// bandwidth `bw`.
    pub fn config_acc_lpf(&mut self, bw: AccLPF)
        ensures
            final(self).wf(),
            final(self)@ == old(self)@.loaded(acc_config_script(lpf_update(bw.dlpf_code()))),
    {
        let reg = RegistersBank2::AccelConfig.get_addr(WRITE_REG);
        self.load(bank2_steps(rmw_steps(reg, 1, bw.field_update()), no_steps()));
    }

    /// Loads the enabling of the gyroscope's low-pass filter with bandwidth `bw`.
    pub fn config_gyro_lpf(&mut self, bw: GyroLPF)
        ensures
            final(self).wf(),
            final(self)@ == old(self)@.loaded(gyro_config_script(lpf_update(bw.dlpf_code()))),
    {
        let reg = RegistersBank2::GyroConfig1.get_addr(WRITE_REG);
        self.load(bank2_steps(rmw_steps(reg, 2, bw.field_update()), no_steps()));
    }

    /// Loads the switching off of the accelerometer's low-pass filter.
    pub fn disable_acc_lpf(&mut self)
        ensures
            final(self).wf(),
            final(self)@ == old(self)@.loaded(acc_config_script(lpf_off_update())),
    {
        let reg = RegistersBank2::AccelConfig.get_addr(WRITE_REG);
        self.load(bank2_steps(rmw_steps(reg, 1, FieldUpdate { keep: 0xFE, set: 0x00 }), no_steps()));
    }

    /// Loads the switching off of the gyroscope's low-pass filter.
    pub fn disable_gyro_lpf(&mut self)
        ensures
            final(self).wf(),
            final(self)@ == old(self)@.loaded(gyro_config_script(lpf_off_update())),
    {
        let reg = RegistersBank2::GyroConfig1.get_addr(WRITE_REG);
        self.load(bank2_steps(rmw_steps(reg, 2, FieldUpdate { keep: 0xFE, set: 0x00 }), no_steps()));
    }

    /// Loads the setting of the accelerometer's sample rate to about `rate`
    /// Hz, through the divider `1125 / rate - 1`.  A rate of 1125 Hz or more
    /// is refused with `InvalidInput`, and nothing is loaded.
    pub fn config_acc_rate<E>(&mut self, rate: u16) -> (r: Result<(), IcmError<E>>)
        requires
            rate != 0,
        ensures
            old(self).wf() ==> final(self).wf(),
            rate < 1125 ==> r is Ok && final(self).wf() && final(self)@ == old(self)@.loaded(
                acc_rate_script(acc_divider_high(rate), acc_divider_low(rate)),
            ),
            rate >= 1125 ==> (r matches Err(IcmError::InvalidInput)) && final(self)@ == old(self)@,
    {
        if rate < 1_125 {
            let (hi, lo) = acc_divider_bytes(rate);
            let frame = vec![
                I2cStep::Put { at: 0, byte: RegistersBank2::AccelSmplrtDiv1.get_addr(WRITE_REG) },
                I2cStep::Put { at: 1, byte: hi },
                I2cStep::Put { at: 2, byte: RegistersBank2::AccelSmplrtDiv2.get_addr(WRITE_REG) },
                I2cStep::Put { at: 3, byte: lo },
                I2cStep::Write { lo: 0, hi: 4 },
            ];
            assert(script_wf(frame@));
            self.load(bank2_steps(frame, no_steps()));
            Ok(())
        } else {
            Err(IcmError::InvalidInput)
        }
    }

    /// Loads the setting of the gyroscope's sample rate to about `rate` Hz,
    /// through the divider `1100 / rate - 1`.  A rate of 4 Hz or less is
    /// refused with `InvalidInput`, and nothing is loaded.
    pub fn config_gyro_rate<E>(&mut self, rate: u16) -> (r: Result<(), IcmError<E>>)
        requires
            rate <= 1100,
        ensures
            old(self).wf() ==> final(self).wf(),
            rate > 4 ==> r is Ok && final(self).wf() && final(self)@ == old(self)@.loaded(
                gyro_rate_script(gyro_rate_divider(rate) as u8),
            ),
            rate <= 4 ==> (r matches Err(IcmError::InvalidInput)) && final(self)@ == old(self)@,
    {
        if rate > 4 {
            let div = gyro_divider(rate);
            let reg = RegistersBank2::GyroSmplrtDiv.get_addr(WRITE_REG);
            self.load(bank2_steps(write_steps(reg, div), no_steps()));
            Ok(())
        } else {
            Err(IcmError::InvalidInput)
        }
    }
}


/// The record after the steps `steps`: their effects applied in order.
pub open spec fn sensors_after(s: Sensors, steps: Seq<I2cStep>) -> Sensors
    decreases steps.len(),
{
    if steps.len() == 0 {
        s
    } else {
        let next = match steps[0] {
            I2cStep::Effect(e) => s.spec_apply(e),
            _ => s,
        };
        sensors_after(next, steps.drop_first())
    }
}

/// The record that the running operation will leave once it completes.
pub open spec fn pending_outcome(v: I2cState) -> Sensors {
    sensors_after(v.sensors, v.script.subrange(v.pc, v.script.len() as int))
}

/// The state after the reports `replies`, none of them a failure.
pub open spec fn run(v: I2cState, replies: Seq<Option<Seq<u8>>>) -> I2cState
    decreases replies.len(),
{
    if replies.len() == 0 {
        v
    } else {
        run(v.after(replies[0], false), replies.drop_first())
    }
}

proof fn lemma_settle_keeps_outcome(v: I2cState)
    requires
        v.wf(),
    ensures
        pending_outcome(v.settle()) == pending_outcome(v),
        v.settle().wf(),
    decreases v.script.len() - v.pc,
{
    if 0 <= v.pc < v.script.len() && !is_bus_step(v.script[v.pc]) {
        let next = I2cState { pc: v.pc + 1, ..v.exec_internal(v.script[v.pc]) };
        assert(step_wf(v.script[v.pc]));
        let rest = v.script.subrange(v.pc, v.script.len() as int);
        assert(rest.drop_first() =~= v.script.subrange(v.pc + 1, v.script.len() as int));
        assert(rest[0] == v.script[v.pc]);
        lemma_settle_keeps_outcome(next);
    }
}

/// Whatever the device answers, an answer that is not a failure leaves
/// unchanged the record that the running operation will complete with; once
/// the operation is done, the record is that outcome, and the core stays
/// well formed throughout.
pub proof fn lemma_report_keeps_outcome(v: I2cState, reply: Option<Seq<u8>>)
    requires
        v.wf(),
    ensures
        v.after(reply, false).wf(),
        pending_outcome(v.after(reply, false)) == pending_outcome(v),
{
    let a = v.absorb(reply);
    match (v.awaiting, reply) {
        (Some((lo, hi)), Some(bytes)) => {
            if bytes.len() == hi - lo {
                assert(a.rx.len() == RX_LEN);
            }
        },
        _ => {},
    }
    assert(a.wf());
    assert(pending_outcome(a) == pending_outcome(v));
    lemma_settle_keeps_outcome(a);
    lemma_settle(a);
    let st = a.settle();
    if st.pc < st.script.len() {
        let rest = st.script.subrange(st.pc, st.script.len() as int);
        assert(rest.drop_first() =~= st.script.subrange(st.pc + 1, st.script.len() as int));
        assert(rest[0] == st.script[st.pc]);
        assert(step_wf(st.script[st.pc]));
    } else {
        assert(st.script.subrange(st.pc, st.script.len() as int) =~= Seq::<I2cStep>::empty());
        assert(st.cleared().script.subrange(0, 0) =~= Seq::<I2cStep>::empty());
    }
}

/// A run that completes leaves the record as the loaded script's effects
/// say, whatever bytes the device sent back.
pub proof fn lemma_completed_run(v: I2cState, replies: Seq<Option<Seq<u8>>>)
    requires
        v.wf(),
        run(v, replies).script.len() == 0,
    ensures
        run(v, replies).sensors == pending_outcome(v),
    decreases replies.len(),
{
    if replies.len() == 0 {
        assert(v.script.subrange(v.pc, v.script.len() as int) =~= Seq::<I2cStep>::empty());
    } else {
        lemma_report_keeps_outcome(v, replies[0]);
        lemma_completed_run(v.after(replies[0], false), replies.drop_first());
    }
}

/// An operation that runs to completion, whatever the device answered,
/// leaves the driver's record as the effects of its script say.
pub proof fn lemma_completed_operation(v: I2cState, script: Seq<I2cStep>, replies: Seq<Option<Seq<u8>>>)
    requires
        v.wf(),
        script_wf(script),
        run(v.loaded(script), replies).script.len() == 0,
    ensures
        run(v.loaded(script), replies).sensors == sensors_after(v.sensors, script),
{
    lemma_loaded_outcome(v, script);
    lemma_completed_run(v.loaded(script), replies);
}

/// A failed transfer abandons the running operation: the core becomes idle
/// and keeps the record as the operation's completed steps left it.
pub proof fn lemma_failure_abandons(v: I2cState, reply: Option<Seq<u8>>)
    ensures
        v.after(reply, true).script.len() == 0,
        v.after(reply, true).captured.len() == 0,
        v.after(reply, true).sensors == v.sensors,
{
}

/// A loaded script has not yet changed anything: its outcome is the
/// record after all its effects.
pub proof fn lemma_loaded_outcome(v: I2cState, script: Seq<I2cStep>)
    ensures
        pending_outcome(v.loaded(script)) == sensors_after(v.sensors, script),
{
    assert(script.subrange(0, script.len() as int) =~= script);
}

proof fn lemma_after_concat(s: Sensors, a: Seq<I2cStep>, b: Seq<I2cStep>)
    ensures
        sensors_after(s, a + b) == sensors_after(sensors_after(s, a), b),
    decreases a.len(),
{
    if a.len() == 0 {
        assert(a + b =~= b);
    } else {
        assert((a + b).drop_first() =~= a.drop_first() + b);
        assert((a + b)[0] == a[0]);
        let next = match a[0] {
            I2cStep::Effect(e) => s.spec_apply(e),
            _ => s,
        };
        lemma_after_concat(next, a.drop_first(), b);
    }
}

/// Steps none of which is an effect.
pub open spec fn effect_free(steps: Seq<I2cStep>) -> bool {
    forall|i: int| 0 <= i < steps.len() ==> !(#[trigger] steps[i] is Effect)
}

proof fn lemma_effect_free_keeps(s: Sensors, steps: Seq<I2cStep>)
    requires
        effect_free(steps),
    ensures
        sensors_after(s, steps) == s,
    decreases steps.len(),
{
    if steps.len() > 0 {
        assert(!(steps[0] is Effect));
        assert forall|i: int| 0 <= i < steps.drop_first().len() implies !(#[trigger] steps.drop_first()[i] is Effect) by {
            assert(steps.drop_first()[i] == steps[i + 1]);
        }
        lemma_effect_free_keeps(s, steps.drop_first());
    }
}

proof fn lemma_single_effect(s: Sensors, e: Effect)
    ensures
        sensors_after(s, seq![I2cStep::Effect(e)]) == s.spec_apply(e),
{
    let one = seq![I2cStep::Effect(e)];
    assert(one.drop_first() =~= Seq::<I2cStep>::empty());
    assert(one[0] == I2cStep::Effect(e));
    assert(sensors_after(s.spec_apply(e), Seq::<I2cStep>::empty()) == s.spec_apply(e));
}

proof fn lemma_free_then(s: Sensors, a: Seq<I2cStep>, b: Seq<I2cStep>)
    requires
        effect_free(a),
    ensures
        sensors_after(s, a + b) == sensors_after(s, b),
{
    lemma_after_concat(s, a, b);
    lemma_effect_free_keeps(s, a);
}

proof fn lemma_in_bank2(s: Sensors, middle: Seq<I2cStep>, tail: Seq<I2cStep>)
    requires
        effect_free(middle),
    ensures
        sensors_after(s, in_bank2(middle, tail)) == sensors_after(s, tail),
{
    let b2 = bank_seg(REG_BANK_2);
    let b0 = bank_seg(REG_BANK_0);
    assert(effect_free(b2));
    assert(effect_free(b0));
    lemma_after_concat(s, b2 + middle + b0, tail);
    lemma_after_concat(s, b2 + middle, b0);
    lemma_after_concat(s, b2, middle);
    lemma_effect_free_keeps(s, b2);
    lemma_effect_free_keeps(s, middle);
    lemma_effect_free_keeps(s, b0);
}

proof fn lemma_power_outcome(s: Sensors, sent: usize, u: FieldUpdate, e: Effect)
    ensures
        sensors_after(s, power_script(sent, u, e)) == s.spec_apply(e),
{
    let seg = rmw_seg(wire_addr(RegistersBank0::PwrMgmt2.offset(), WRITE_REG), sent, u);
    assert(effect_free(seg));
    lemma_free_then(s, seg, seq![I2cStep::Effect(e)]);
    lemma_single_effect(s, e);
}

/// What each completed configuration operation leaves in the driver's
/// record: the interrupt and power operations set their own flag, the range
/// selections set their own scale, and every other operation leaves the
/// record as it was.
pub proof fn lemma_operation_outcomes(s: Sensors, acc: AccSensitivity, gyro: GyroSensitivity, u: FieldUpdate, hi: u8,
    lo: u8, div: u8)
    ensures
        sensors_after(s, new_script()) == s,
        sensors_after(s, wai_script()) == s,
        sensors_after(s, int_script(true)) == (Sensors { int_enabled: true, ..s }),
        sensors_after(s, int_script(false)) == (Sensors { int_enabled: false, ..s }),
        sensors_after(s, enable_acc_script()) == (Sensors { acc_en: AccStates::AccOn, ..s }),
        sensors_after(s, disable_acc_script()) == (Sensors { acc_en: AccStates::AccOff, ..s }),
        sensors_after(s, enable_gyro_script()) == (Sensors { gyro_en: GyroStates::GyroOn, ..s }),
        sensors_after(s, disable_gyro_script()) == (Sensors { gyro_en: GyroStates::GyroOff, ..s }),
        sensors_after(s, set_acc_sen_script(acc)) == (Sensors { accel_sen: acc.spec_value(), ..s }),
        sensors_after(s, set_gyro_sen_script(gyro)) == (Sensors { gyro_sen: gyro, ..s }),
        sensors_after(s, acc_config_script(u)) == s,
        sensors_after(s, gyro_config_script(u)) == s,
        sensors_after(s, acc_rate_script(hi, lo)) == s,
        sensors_after(s, gyro_rate_script(div)) == s,
{
    let none = Seq::<I2cStep>::empty();
    assert(effect_free(new_script()));
    lemma_effect_free_keeps(s, new_script());
    assert(effect_free(wai_script()));
    lemma_effect_free_keeps(s, wai_script());
    let int_addr = wire_addr(RegistersBank0::IntEnable1.offset(), WRITE_REG);
    assert(effect_free(write_seg(int_addr, 0x01)));
    assert(effect_free(write_seg(int_addr, 0x00)));
    lemma_free_then(s, write_seg(int_addr, 0x01), seq![I2cStep::Effect(Effect::Int(true))]);
    lemma_free_then(s, write_seg(int_addr, 0x00), seq![I2cStep::Effect(Effect::Int(false))]);
    lemma_single_effect(s, Effect::Int(true));
    lemma_single_effect(s, Effect::Int(false));
    lemma_power_outcome(s, 1, acc_on_update(), Effect::Acc(AccStates::AccOn));
    lemma_power_outcome(s, 1, acc_off_update(), Effect::Acc(AccStates::AccOff));
    lemma_power_outcome(s, 2, gyro_on_update(), Effect::Gyro(GyroStates::GyroOn));
    lemma_power_outcome(s, 2, gyro_off_update(), Effect::Gyro(GyroStates::GyroOff));
    let acc_rmw = bank2_rmw(RegistersBank2::AccelConfig, 1, fs_update(acc.fs_code()));
    let gyro_rmw = bank2_rmw(RegistersBank2::GyroConfig1, 1, fs_update(gyro.fs_code()));
    assert(effect_free(acc_rmw));
    assert(effect_free(gyro_rmw));
    lemma_in_bank2(s, acc_rmw, seq![I2cStep::Effect(Effect::AccScale(acc))]);
    lemma_in_bank2(s, gyro_rmw, seq![I2cStep::Effect(Effect::GyroScale(gyro))]);
    lemma_single_effect(s, Effect::AccScale(acc));
    lemma_single_effect(s, Effect::GyroScale(gyro));
    let acc_cfg = bank2_rmw(RegistersBank2::AccelConfig, 1, u);
    let gyro_cfg = bank2_rmw(RegistersBank2::GyroConfig1, 2, u);
    assert(effect_free(acc_cfg));
    assert(effect_free(gyro_cfg));
    lemma_in_bank2(s, acc_cfg, none);
    lemma_in_bank2(s, gyro_cfg, none);
    let rate_frame = seq![
        I2cStep::Put { at: 0, byte: wire_addr(RegistersBank2::AccelSmplrtDiv1.offset(), WRITE_REG) },
        I2cStep::Put { at: 1, byte: hi },
        I2cStep::Put { at: 2, byte: wire_addr(RegistersBank2::AccelSmplrtDiv2.offset(), WRITE_REG) },
        I2cStep::Put { at: 3, byte: lo },
        I2cStep::Write { lo: 0, hi: 4 },
    ];
    assert(effect_free(rate_frame));
    lemma_in_bank2(s, rate_frame, none);
    let div_write = write_seg(wire_addr(RegistersBank2::GyroSmplrtDiv.offset(), WRITE_REG), div);
    assert(effect_free(div_write));
    lemma_in_bank2(s, div_write, none);
}

proof fn lemma_axes_keep(t: Sensors, high: RegistersBank0, low: RegistersBank0, source: ScaleSource)
    ensures
        effect_free(axis_seg(high, low, source)),
        sensors_after(t, axis_seg(high, low, source)) == t,
{
    assert(effect_free(axis_seg(high, low, source)));
    lemma_effect_free_keeps(t, axis_seg(high, low, source));
}

/// A completed read of the accelerometer leaves it marked powered, and a
/// completed read of the gyroscope leaves the gyroscope marked powered;
/// neither changes anything else.
pub proof fn lemma_read_outcomes(s: Sensors, high: RegistersBank0, low: RegistersBank0)
    ensures
        sensors_after(s, read_acc_axis_script(s, high, low)) == (Sensors { acc_en: AccStates::AccOn, ..s }),
        sensors_after(s, read_acc_script(s)) == (Sensors { acc_en: AccStates::AccOn, ..s }),
        sensors_after(s, read_gyro_axis_script(s, high, low)) == (Sensors { gyro_en: GyroStates::GyroOn, ..s }),
        sensors_after(s, read_gyro_script(s)) == (Sensors { gyro_en: GyroStates::GyroOn, ..s }),
{
    let acc_target = Sensors { acc_en: AccStates::AccOn, ..s };
    let gyro_target = Sensors { gyro_en: GyroStates::GyroOn, ..s };
    lemma_operation_outcomes(s, AccSensitivity::Sen2g, GyroSensitivity::Sen250dps, lpf_off_update(), 0, 0, 0);
    let p = acc_wake_prefix(s);
    assert(sensors_after(s, p) == acc_target) by {
        if s.acc_en == AccStates::AccOff {
        } else {
            assert(p =~= Seq::<I2cStep>::empty());
        }
    }
    let g = gyro_wake_prefix(s);
    assert(sensors_after(s, g) == gyro_target) by {
        if s.gyro_en == GyroStates::GyroOff {
        } else {
            assert(g =~= Seq::<I2cStep>::empty());
        }
    }
    let ax = axis_seg(RegistersBank0::AccelXOutH, RegistersBank0::AccelXOutL, ScaleSource::Accel);
    let ay = axis_seg(RegistersBank0::AccelYOutH, RegistersBank0::AccelYOutL, ScaleSource::Accel);
    let az = axis_seg(RegistersBank0::AccelZOutH, RegistersBank0::AccelZOutL, ScaleSource::Accel);
    let gx = axis_seg(RegistersBank0::GyroXOutH, RegistersBank0::GyroXOutL, ScaleSource::Accel);
    let gy = axis_seg(RegistersBank0::GyroYOutH, RegistersBank0::GyroYOutL, ScaleSource::Accel);
    let gz = axis_seg(RegistersBank0::GyroZOutH, RegistersBank0::GyroZOutL, ScaleSource::Accel);
    lemma_axes_keep(acc_target, high, low, ScaleSource::Accel);
    lemma_axes_keep(gyro_target, high, low, ScaleSource::Accel);
    lemma_axes_keep(acc_target, RegistersBank0::AccelXOutH, RegistersBank0::AccelXOutL, ScaleSource::Accel);
    lemma_axes_keep(acc_target, RegistersBank0::AccelYOutH, RegistersBank0::AccelYOutL, ScaleSource::Accel);
    lemma_axes_keep(acc_target, RegistersBank0::AccelZOutH, RegistersBank0::AccelZOutL, ScaleSource::Accel);
    lemma_axes_keep(gyro_target, RegistersBank0::GyroXOutH, RegistersBank0::GyroXOutL, ScaleSource::Accel);
    lemma_axes_keep(gyro_target, RegistersBank0::GyroYOutH, RegistersBank0::GyroYOutL, ScaleSource::Accel);
    lemma_axes_keep(gyro_target, RegistersBank0::GyroZOutH, RegistersBank0::GyroZOutL, ScaleSource::Accel);
    lemma_after_concat(s, p, axis_seg(high, low, ScaleSource::Accel));
    lemma_after_concat(s, p + ax + ay, az);
    lemma_after_concat(s, p + ax, ay);
    lemma_after_concat(s, p, ax);
    lemma_after_concat(s, g, axis_seg(high, low, ScaleSource::Accel));
    lemma_after_concat(s, g + gx + gy, gz);
    lemma_after_concat(s, g + gx, gy);
    lemma_after_concat(s, g, gx);
}

/// A read of one sample register pair, run from its start: the core writes
/// the high register's address and reads one byte, then the low register's
/// address and reads one byte; the completed operation hands back exactly
/// one sample, made of the two bytes read and scaled as the record says.
pub proof fn lemma_axis_read_result(v: I2cState, high: RegistersBank0, low: RegistersBank0, source: ScaleSource,
    first: u8, second: u8)
    requires
        v.wf(),
    ensures
        ({
            let s0 = v.loaded(axis_seg(high, low, source));
            let b0 = s0.absorb(None).settle();
            let s1 = s0.after(None, false);
            let b1 = s1.absorb(Some(seq![first])).settle();
            let s2 = s1.after(Some(seq![first]), false);
            let fin = s2.absorb(Some(seq![second])).settle();
            &&& b0.script[b0.pc] == (I2cStep::WriteRead { lo: 0, hi: 1, rx_lo: 0, rx_hi: 1 })
            &&& b0.databuf[0] == wire_addr(high.offset(), WRITE_REG)
            &&& b1.script[b1.pc] == (I2cStep::WriteRead { lo: 0, hi: 1, rx_lo: 1, rx_hi: 2 })
            &&& b1.databuf[0] == wire_addr(low.offset(), WRITE_REG)
            &&& fin.pc == fin.script.len()
            &&& fin.captured == seq![
                Reading::Sample { raw: spec_raw_sample(first, second) as i16, scale: v.sensors.spec_scale(source) },
            ]
        }),
{
    let script = axis_seg(high, low, source);
    let s0 = v.loaded(script);
    assert(script_wf(script));
    let a0 = s0.absorb(None);
    assert(a0 == s0);
    let p1 = I2cState { pc: 1, ..a0.exec_internal(script[0]) };
    assert(a0.settle() == p1.settle());
    assert(p1.settle() == p1);
    let s1 = p1.issue();
    assert(s0.after(None, false) == s1);
    let a1 = s1.absorb(Some(seq![first]));
    assert(a1.rx =~= seq![first, 0u8]);
    let p3 = I2cState { pc: 3, ..a1.exec_internal(script[2]) };
    assert(a1.settle() == p3.settle());
    assert(p3.settle() == p3);
    let s2 = p3.issue();
    assert(s1.after(Some(seq![first]), false) == s2);
    let a2 = s2.absorb(Some(seq![second]));
    assert(a2.rx =~= seq![first, second]);
    let p5 = I2cState { pc: 5, ..a2.exec_internal(script[4]) };
    assert(a2.settle() == p5.settle());
    assert(p5.settle() == p5);
    assert(p5.captured =~= seq![
        Reading::Sample { raw: spec_raw_sample(first, second) as i16, scale: v.sensors.spec_scale(source) },
    ]);
}


/// The script selects bank 2 first, and its last bus steps select bank 0
/// again: nothing goes on the bus after the switch back.
#[verifier::opaque]
pub open spec fn bank2_bracketed(script: Seq<I2cStep>) -> bool {
    &&& script.len() >= 6
    &&& script.subrange(0, 3) == bank_seg(REG_BANK_2)
    &&& exists|k: int|
        3 <= k <= script.len() - 3 && #[trigger] script.subrange(k, k + 3) == bank_seg(REG_BANK_0) && forall|j: int|
            k + 3 <= j < script.len() ==> !is_bus_step(#[trigger] script[j])
}

proof fn lemma_in_bank2_bracketed(middle: Seq<I2cStep>, tail: Seq<I2cStep>)
    requires
        forall|j: int| 0 <= j < tail.len() ==> !is_bus_step(#[trigger] tail[j]),
    ensures
        bank2_bracketed(in_bank2(middle, tail)),
{
    reveal(bank2_bracketed);
    let script = in_bank2(middle, tail);
    let k: int = 3 + middle.len() as int;
    assert(script.subrange(0, 3) =~= bank_seg(REG_BANK_2));
    assert(script.subrange(k, k + 3) =~= bank_seg(REG_BANK_0));
    assert forall|j: int| k + 3 <= j < script.len() implies !is_bus_step(#[trigger] script[j]) by {
        assert(script[j] == tail[j - k - 3]);
    }
}

/// Every operation that works in bank 2 switches to it first and switches
/// back to bank 0 before its last bus step is done.
pub proof fn lemma_bank2_operations_return_to_bank0(acc: AccSensitivity, gyro: GyroSensitivity, u: FieldUpdate, hi: u8,
    lo: u8, div: u8)
    ensures
        bank2_bracketed(set_acc_sen_script(acc)),
        bank2_bracketed(set_gyro_sen_script(gyro)),
        bank2_bracketed(acc_config_script(u)),
        bank2_bracketed(gyro_config_script(u)),
        bank2_bracketed(acc_rate_script(hi, lo)),
        bank2_bracketed(gyro_rate_script(div)),
{
    let none = Seq::<I2cStep>::empty();
    let acc_tail = seq![I2cStep::Effect(Effect::AccScale(acc))];
    let gyro_tail = seq![I2cStep::Effect(Effect::GyroScale(gyro))];
    assert(!is_bus_step(acc_tail[0]));
    assert(!is_bus_step(gyro_tail[0]));
    lemma_in_bank2_bracketed(bank2_rmw(RegistersBank2::AccelConfig, 1, fs_update(acc.fs_code())), acc_tail);
    lemma_in_bank2_bracketed(bank2_rmw(RegistersBank2::GyroConfig1, 1, fs_update(gyro.fs_code())), gyro_tail);
    lemma_in_bank2_bracketed(bank2_rmw(RegistersBank2::AccelConfig, 1, u), none);
    lemma_in_bank2_bracketed(bank2_rmw(RegistersBank2::GyroConfig1, 2, u), none);
    lemma_in_bank2_bracketed(
        seq![
            I2cStep::Put { at: 0, byte: wire_addr(RegistersBank2::AccelSmplrtDiv1.offset(), WRITE_REG) },
            I2cStep::Put { at: 1, byte: hi },
            I2cStep::Put { at: 2, byte: wire_addr(RegistersBank2::AccelSmplrtDiv2.offset(), WRITE_REG) },
            I2cStep::Put { at: 3, byte: lo },
            I2cStep::Write { lo: 0, hi: 4 },
        ],
        none,
    );
    lemma_in_bank2_bracketed(write_seg(wire_addr(RegistersBank2::GyroSmplrtDiv.offset(), WRITE_REG), div), none);
}


/// Every step of `script` satisfies `p`.
pub open spec fn every_step(script: Seq<I2cStep>, p: spec_fn(I2cStep) -> bool) -> bool {
    forall|i: int| 0 <= i < script.len() ==> #[trigger] p(script[i])
}

/// Every sample that the step records is scaled by `source`.
pub open spec fn sample_scaled_by(source: ScaleSource) -> spec_fn(I2cStep) -> bool {
    |st: I2cStep|
        match st {
            I2cStep::Sample { source: s, .. } => s == source,
            _ => true,
        }
}

/// Every address byte that the step puts into the buffer is one of
/// `allowed`: frames carry register addresses at even indices and register
/// values at odd ones.
pub open spec fn addresses_in(allowed: Set<u8>) -> spec_fn(I2cStep) -> bool {
    |st: I2cStep|
        match st {
            I2cStep::Put { at, byte } => at % 2 == 1 || allowed.contains(byte),
            _ => true,
        }
}

/// Every update that the step makes replaces the bits under `mask` by those
/// of `bits` and keeps all others.
pub open spec fn updates_write_field(mask: u8, bits: u8) -> spec_fn(I2cStep) -> bool {
    |st: I2cStep|
        match st {
            I2cStep::Update { update, .. } => forall|x: u8| #[trigger] update.spec_apply(x) == with_field(x, mask, bits),
            _ => true,
        }
}

proof fn lemma_every_concat(a: Seq<I2cStep>, b: Seq<I2cStep>, p: spec_fn(I2cStep) -> bool)
    requires
        every_step(a, p),
        every_step(b, p),
    ensures
        every_step(a + b, p),
{
    assert forall|i: int| 0 <= i < (a + b).len() implies #[trigger] p((a + b)[i]) by {
        if i < a.len() {
            assert((a + b)[i] == a[i]);
        } else {
            assert((a + b)[i] == b[i - a.len()]);
        }
    }
}

proof fn lemma_every_in_bank2(middle: Seq<I2cStep>, tail: Seq<I2cStep>, p: spec_fn(I2cStep) -> bool)
    requires
        every_step(bank_seg(REG_BANK_2), p),
        every_step(bank_seg(REG_BANK_0), p),
        every_step(middle, p),
        every_step(tail, p),
    ensures
        every_step(in_bank2(middle, tail), p),
{
    lemma_every_concat(bank_seg(REG_BANK_2), middle, p);
    lemma_every_concat(bank_seg(REG_BANK_2) + middle, bank_seg(REG_BANK_0), p);
    lemma_every_concat(bank_seg(REG_BANK_2) + middle + bank_seg(REG_BANK_0), tail, p);
}


proof fn lemma_axis_steps(high: RegistersBank0, low: RegistersBank0, source: ScaleSource, allowed: Set<u8>)
    requires
        allowed.contains(wire_addr(high.offset(), WRITE_REG)),
        allowed.contains(wire_addr(low.offset(), WRITE_REG)),
    ensures
        every_step(axis_seg(high, low, source), sample_scaled_by(source)),
        every_step(axis_seg(high, low, source), addresses_in(allowed)),
{
    let seg = axis_seg(high, low, source);
    assert forall|i: int| 0 <= i < seg.len() implies #[trigger] (sample_scaled_by(source))(seg[i]) by {}
    assert forall|i: int| 0 <= i < seg.len() implies #[trigger] (addresses_in(allowed))(seg[i]) by {}
}

proof fn lemma_power_steps(sent: usize, u: FieldUpdate, e: Effect, p: spec_fn(I2cStep) -> bool)
    requires
        p(I2cStep::Put { at: 0, byte: wire_addr(RegistersBank0::PwrMgmt2.offset(), WRITE_REG) }),
        p(I2cStep::WriteRead { lo: 0, hi: sent, rx_lo: 0, rx_hi: 1 }),
        p(I2cStep::Update { at: 1, from: 0, update: u }),
        p(I2cStep::Write { lo: 0, hi: 2 }),
        p(I2cStep::Effect(e)),
    ensures
        every_step(power_script(sent, u, e), p),
{
    let seg = power_script(sent, u, e);
    assert forall|i: int| 0 <= i < seg.len() implies #[trigger] p(seg[i]) by {}
}

/// The reads of the accelerometer put on the bus only the power register
/// and the accelerometer's sample registers, high byte first, and scale
/// every sample by the accelerometer's counts per g.  The reads of the
/// gyroscope put on the bus only the power register and the gyroscope's
/// sample registers; their samples, too, are scaled by the accelerometer's
/// counts per g.
pub proof fn lemma_read_scripts(s: Sensors, axis: int)
    requires
        0 <= axis < 3,
    ensures
        every_step(read_acc_axis_script(s, data_pair(axis).0, data_pair(axis).1), sample_scaled_by(ScaleSource::Accel)),
        every_step(read_acc_script(s), sample_scaled_by(ScaleSource::Accel)),
        every_step(read_acc_script(s), addresses_in(set![0x07u8, 0x2Du8, 0x2Eu8, 0x2Fu8, 0x30u8, 0x31u8, 0x32u8])),
        every_step(read_acc_axis_script(s, data_pair(axis).0, data_pair(axis).1), addresses_in(
            set![0x07u8, (0x2D + 2 * axis) as u8, (0x2E + 2 * axis) as u8],
        )),
        every_step(
            read_gyro_axis_script(s, data_pair(axis + 3).0, data_pair(axis + 3).1),
            sample_scaled_by(ScaleSource::Accel),
        ),
        every_step(read_gyro_script(s), sample_scaled_by(ScaleSource::Accel)),
        every_step(read_gyro_script(s), addresses_in(set![0x07u8, 0x33u8, 0x34u8, 0x35u8, 0x36u8, 0x37u8, 0x38u8])),
        every_step(read_gyro_axis_script(s, data_pair(axis + 3).0, data_pair(axis + 3).1), addresses_in(
            set![0x07u8, (0x33 + 2 * axis) as u8, (0x34 + 2 * axis) as u8],
        )),
{
    let acc_all = set![0x07u8, 0x2Du8, 0x2Eu8, 0x2Fu8, 0x30u8, 0x31u8, 0x32u8];
    let gyro_all = set![0x07u8, 0x33u8, 0x34u8, 0x35u8, 0x36u8, 0x37u8, 0x38u8];
    let acc_one = set![0x07u8, (0x2D + 2 * axis) as u8, (0x2E + 2 * axis) as u8];
    let gyro_one = set![0x07u8, (0x33 + 2 * axis) as u8, (0x34 + 2 * axis) as u8];
    let sa = sample_scaled_by(ScaleSource::Accel);
    crate::registers::lemma_data_registers_consecutive(axis);
    crate::registers::lemma_data_registers_consecutive(axis + 3);
    let ua = acc_on_update();
    let ea = Effect::Acc(AccStates::AccOn);
    let ug = gyro_on_update();
    let eg = Effect::Gyro(GyroStates::GyroOn);
    lemma_power_steps(1, ua, ea, sa);
    lemma_power_steps(2, ug, eg, sa);
    lemma_power_steps(1, ua, ea, addresses_in(acc_all));
    lemma_power_steps(2, ug, eg, addresses_in(gyro_all));
    lemma_power_steps(1, ua, ea, addresses_in(acc_one));
    lemma_power_steps(2, ug, eg, addresses_in(gyro_one));
    assert(every_step(Seq::<I2cStep>::empty(), sa));
    assert(every_step(Seq::<I2cStep>::empty(), addresses_in(acc_all)));
    assert(every_step(Seq::<I2cStep>::empty(), addresses_in(gyro_all)));
    assert(every_step(Seq::<I2cStep>::empty(), addresses_in(acc_one)));
    assert(every_step(Seq::<I2cStep>::empty(), addresses_in(gyro_one)));
    let pa = acc_wake_prefix(s);
    let pg = gyro_wake_prefix(s);
    let (h, l) = data_pair(axis);
    let (gh, gl) = data_pair(axis + 3);
    lemma_axis_steps(h, l, ScaleSource::Accel, acc_one);
    lemma_every_concat(pa, axis_seg(h, l, ScaleSource::Accel), sa);
    lemma_every_concat(pa, axis_seg(h, l, ScaleSource::Accel), addresses_in(acc_one));
    lemma_axis_steps(gh, gl, ScaleSource::Accel, gyro_one);
    lemma_every_concat(pg, axis_seg(gh, gl, ScaleSource::Accel), sa);
    lemma_every_concat(pg, axis_seg(gh, gl, ScaleSource::Accel), addresses_in(gyro_one));
    let ax = axis_seg(RegistersBank0::AccelXOutH, RegistersBank0::AccelXOutL, ScaleSource::Accel);
    let ay = axis_seg(RegistersBank0::AccelYOutH, RegistersBank0::AccelYOutL, ScaleSource::Accel);
    let az = axis_seg(RegistersBank0::AccelZOutH, RegistersBank0::AccelZOutL, ScaleSource::Accel);
    lemma_axis_steps(RegistersBank0::AccelXOutH, RegistersBank0::AccelXOutL, ScaleSource::Accel, acc_all);
    lemma_axis_steps(RegistersBank0::AccelYOutH, RegistersBank0::AccelYOutL, ScaleSource::Accel, acc_all);
    lemma_axis_steps(RegistersBank0::AccelZOutH, RegistersBank0::AccelZOutL, ScaleSource::Accel, acc_all);
    lemma_every_concat(pa, ax, sa);
    lemma_every_concat(pa + ax, ay, sa);
    lemma_every_concat(pa + ax + ay, az, sa);
    lemma_every_concat(pa, ax, addresses_in(acc_all));
    lemma_every_concat(pa + ax, ay, addresses_in(acc_all));
    lemma_every_concat(pa + ax + ay, az, addresses_in(acc_all));
    let gx = axis_seg(RegistersBank0::GyroXOutH, RegistersBank0::GyroXOutL, ScaleSource::Accel);
    let gy = axis_seg(RegistersBank0::GyroYOutH, RegistersBank0::GyroYOutL, ScaleSource::Accel);
    let gz = axis_seg(RegistersBank0::GyroZOutH, RegistersBank0::GyroZOutL, ScaleSource::Accel);
    lemma_axis_steps(RegistersBank0::GyroXOutH, RegistersBank0::GyroXOutL, ScaleSource::Accel, gyro_all);
    lemma_axis_steps(RegistersBank0::GyroYOutH, RegistersBank0::GyroYOutL, ScaleSource::Accel, gyro_all);
    lemma_axis_steps(RegistersBank0::GyroZOutH, RegistersBank0::GyroZOutL, ScaleSource::Accel, gyro_all);
    lemma_every_concat(pg, gx, sa);
    lemma_every_concat(pg + gx, gy, sa);
    lemma_every_concat(pg + gx + gy, gz, sa);
    lemma_every_concat(pg, gx, addresses_in(gyro_all));
    lemma_every_concat(pg + gx, gy, addresses_in(gyro_all));
    lemma_every_concat(pg + gx + gy, gz, addresses_in(gyro_all));
}

proof fn lemma_set_sen_steps(reg: RegistersBank2, code: u8, tail: Seq<I2cStep>, allowed: Set<u8>)
    requires
        code < 4,
        allowed.contains(0x7Fu8),
        allowed.contains(wire_addr(reg.offset(), WRITE_REG)),
        every_step(tail, addresses_in(allowed)),
        every_step(tail, updates_write_field(FS_SEL_MASK, code << 1u8)),
    ensures
        every_step(in_bank2(bank2_rmw(reg, 1, fs_update(code)), tail), addresses_in(allowed)),
        every_step(in_bank2(bank2_rmw(reg, 1, fs_update(code)), tail), updates_write_field(FS_SEL_MASK, code << 1u8)),
{
    let a = addresses_in(allowed);
    let f = updates_write_field(FS_SEL_MASK, code << 1u8);
    let rmw = bank2_rmw(reg, 1, fs_update(code));
    assert forall|x: u8| #[trigger] fs_update(code).spec_apply(x) == with_field(x, FS_SEL_MASK, code << 1u8) by {
        crate::settings::lemma_fs_update(code, x);
    }
    let b2 = bank_seg(REG_BANK_2);
    let b0 = bank_seg(REG_BANK_0);
    assert forall|i: int| 0 <= i < b2.len() implies #[trigger] a(b2[i]) && f(b2[i]) by {}
    assert forall|i: int| 0 <= i < b0.len() implies #[trigger] a(b0[i]) && f(b0[i]) by {}
    assert forall|i: int| 0 <= i < rmw.len() implies #[trigger] a(rmw[i]) && f(rmw[i]) by {}
    assert(every_step(b2, a) && every_step(b2, f));
    assert(every_step(b0, a) && every_step(b0, f));
    assert(every_step(rmw, a) && every_step(rmw, f));
    lemma_every_in_bank2(rmw, tail, a);
    lemma_every_in_bank2(rmw, tail, f);
}

/// Selecting the accelerometer's range addresses nothing but the bank
/// select register and `ACCEL_CONFIG` (`0x14`), and the value it writes back
/// replaces the full-scale bits 2:1 by the range's code and keeps every
/// other bit; selecting the gyroscope's range does the same with
/// `GYRO_CONFIG_1` (`0x01`).
pub proof fn lemma_set_sen_targets(acc: AccSensitivity, gyro: GyroSensitivity)
    ensures
        every_step(set_acc_sen_script(acc), addresses_in(set![0x7Fu8, 0x14u8])),
        every_step(set_acc_sen_script(acc), updates_write_field(FS_SEL_MASK, acc.fs_code() << 1u8)),
        every_step(set_gyro_sen_script(gyro), addresses_in(set![0x7Fu8, 0x01u8])),
        every_step(set_gyro_sen_script(gyro), updates_write_field(FS_SEL_MASK, gyro.fs_code() << 1u8)),
{
    crate::settings::lemma_acc_fs_codes(acc, acc);
    crate::settings::lemma_gyro_fs_codes(gyro, gyro);
    let acc_tail = seq![I2cStep::Effect(Effect::AccScale(acc))];
    let gyro_tail = seq![I2cStep::Effect(Effect::GyroScale(gyro))];
    let aa = addresses_in(set![0x7Fu8, 0x14u8]);
    let ga = addresses_in(set![0x7Fu8, 0x01u8]);
    let af = updates_write_field(FS_SEL_MASK, acc.fs_code() << 1u8);
    let gf = updates_write_field(FS_SEL_MASK, gyro.fs_code() << 1u8);
    assert(aa(acc_tail[0]) && af(acc_tail[0]));
    assert(ga(gyro_tail[0]) && gf(gyro_tail[0]));
    assert(every_step(acc_tail, aa) && every_step(acc_tail, af));
    assert(every_step(gyro_tail, ga) && every_step(gyro_tail, gf));
    lemma_set_sen_steps(RegistersBank2::AccelConfig, acc.fs_code(), acc_tail, set![0x7Fu8, 0x14u8]);
    lemma_set_sen_steps(RegistersBank2::GyroConfig1, gyro.fs_code(), gyro_tail, set![0x7Fu8, 0x01u8]);
}


proof fn lemma_all_steps(script: Seq<I2cStep>, p: spec_fn(I2cStep) -> bool)
    requires
        forall|i: int| 0 <= i < script.len() ==> #[trigger] p(script[i]),
    ensures
        every_step(script, p),
{
}

/// Every other operation addresses only its own registers: the filter
/// settings only `ACCEL_CONFIG` (`0x14`) or `GYRO_CONFIG_1` (`0x01`), the
/// sample rates only the divider registers (`0x10` and `0x11`, or `0x00`),
/// each behind the bank select register; the power operations only
/// `PWR_MGMT_2` (`0x07`), the interrupt operations only `INT_ENABLE_1`
/// (`0x11`), and the identity read only `WHO_AM_I` (`0x00`).  Enabling a
/// filter writes its setting into bits 5:3 and sets bit 0, and keeps the
/// other bits of the register.
pub proof fn lemma_config_targets(acc_bw: AccLPF, gyro_bw: GyroLPF, u: FieldUpdate, hi: u8, lo: u8, div: u8, on: bool)
    ensures
        every_step(acc_config_script(u), addresses_in(set![0x7Fu8, 0x14u8])),
        every_step(gyro_config_script(u), addresses_in(set![0x7Fu8, 0x01u8])),
        every_step(acc_config_script(lpf_update(acc_bw.dlpf_code())), updates_write_field(
            DLPF_CFG_MASK | FCHOICE_BIT,
            (acc_bw.dlpf_code() << 3u8) | FCHOICE_BIT,
        )),
        every_step(gyro_config_script(lpf_update(gyro_bw.dlpf_code())), updates_write_field(
            DLPF_CFG_MASK | FCHOICE_BIT,
            (gyro_bw.dlpf_code() << 3u8) | FCHOICE_BIT,
        )),
        every_step(acc_rate_script(hi, lo), addresses_in(set![0x7Fu8, 0x10u8, 0x11u8])),
        every_step(gyro_rate_script(div), addresses_in(set![0x7Fu8, 0x00u8])),
        every_step(enable_acc_script(), addresses_in(set![0x07u8])),
        every_step(disable_acc_script(), addresses_in(set![0x07u8])),
        every_step(enable_gyro_script(), addresses_in(set![0x07u8])),
        every_step(disable_gyro_script(), addresses_in(set![0x07u8])),
        every_step(int_script(on), addresses_in(set![0x11u8])),
        every_step(wai_script(), addresses_in(set![0x00u8])),
{
    let acc_set = set![0x7Fu8, 0x14u8];
    let gyro_set = set![0x7Fu8, 0x01u8];
    let none = Seq::<I2cStep>::empty();
    crate::settings::lemma_acc_lpf_codes(acc_bw, acc_bw, 0);
    crate::settings::lemma_gyro_lpf_codes(gyro_bw, gyro_bw, 0);
    let sets = seq![acc_set, gyro_set, set![0x7Fu8, 0x10u8, 0x11u8], set![0x7Fu8, 0x00u8]];
    assert forall|k: int| 0 <= k < 4 implies every_step(bank_seg(REG_BANK_2), addresses_in(#[trigger] sets[k]))
        && every_step(bank_seg(REG_BANK_0), addresses_in(sets[k])) && every_step(none, addresses_in(sets[k])) by {
        lemma_all_steps(bank_seg(REG_BANK_2), addresses_in(sets[k]));
        lemma_all_steps(bank_seg(REG_BANK_0), addresses_in(sets[k]));
        lemma_all_steps(none, addresses_in(sets[k]));
    }
    assert(sets[0] == acc_set && sets[1] == gyro_set);
    assert(sets[2] == set![0x7Fu8, 0x10u8, 0x11u8] && sets[3] == set![0x7Fu8, 0x00u8]);
    let acc_rmw = bank2_rmw(RegistersBank2::AccelConfig, 1, u);
    let gyro_rmw = bank2_rmw(RegistersBank2::GyroConfig1, 2, u);
    lemma_all_steps(acc_rmw, addresses_in(acc_set));
    lemma_all_steps(gyro_rmw, addresses_in(gyro_set));
    lemma_every_in_bank2(acc_rmw, none, addresses_in(acc_set));
    lemma_every_in_bank2(gyro_rmw, none, addresses_in(gyro_set));
    let rate_frame = seq![
        I2cStep::Put { at: 0, byte: wire_addr(RegistersBank2::AccelSmplrtDiv1.offset(), WRITE_REG) },
        I2cStep::Put { at: 1, byte: hi },
        I2cStep::Put { at: 2, byte: wire_addr(RegistersBank2::AccelSmplrtDiv2.offset(), WRITE_REG) },
        I2cStep::Put { at: 3, byte: lo },
        I2cStep::Write { lo: 0, hi: 4 },
    ];
    lemma_all_steps(rate_frame, addresses_in(sets[2]));
    lemma_every_in_bank2(rate_frame, none, addresses_in(sets[2]));
    let div_frame = write_seg(wire_addr(RegistersBank2::GyroSmplrtDiv.offset(), WRITE_REG), div);
    lemma_all_steps(div_frame, addresses_in(sets[3]));
    lemma_every_in_bank2(div_frame, none, addresses_in(sets[3]));
    let ac = acc_bw.dlpf_code();
    let gc = gyro_bw.dlpf_code();
    let fa = updates_write_field(DLPF_CFG_MASK | FCHOICE_BIT, (ac << 3u8) | FCHOICE_BIT);
    let fg = updates_write_field(DLPF_CFG_MASK | FCHOICE_BIT, (gc << 3u8) | FCHOICE_BIT);
    assert forall|x: u8| #[trigger] lpf_update(ac).spec_apply(x) == with_field(x, DLPF_CFG_MASK | FCHOICE_BIT, (ac << 3u8) | FCHOICE_BIT) by {
        crate::settings::lemma_lpf_update_field(ac, x);
    }
    assert forall|x: u8| #[trigger] lpf_update(gc).spec_apply(x) == with_field(x, DLPF_CFG_MASK | FCHOICE_BIT, (gc << 3u8) | FCHOICE_BIT) by {
        crate::settings::lemma_lpf_update_field(gc, x);
    }
    let ar = bank2_rmw(RegistersBank2::AccelConfig, 1, lpf_update(ac));
    let gr = bank2_rmw(RegistersBank2::GyroConfig1, 2, lpf_update(gc));
    lemma_all_steps(ar, fa);
    lemma_all_steps(gr, fg);
    lemma_all_steps(bank_seg(REG_BANK_2), fa);
    lemma_all_steps(bank_seg(REG_BANK_0), fa);
    lemma_all_steps(bank_seg(REG_BANK_2), fg);
    lemma_all_steps(bank_seg(REG_BANK_0), fg);
    lemma_all_steps(none, fa);
    lemma_all_steps(none, fg);
    lemma_every_in_bank2(ar, none, fa);
    lemma_every_in_bank2(gr, none, fg);
    let ps = addresses_in(set![0x07u8]);
    lemma_power_steps(1, acc_on_update(), Effect::Acc(AccStates::AccOn), ps);
    lemma_power_steps(1, acc_off_update(), Effect::Acc(AccStates::AccOff), ps);
    lemma_power_steps(2, gyro_on_update(), Effect::Gyro(GyroStates::GyroOn), ps);
    lemma_power_steps(2, gyro_off_update(), Effect::Gyro(GyroStates::GyroOff), ps);
    lemma_all_steps(int_script(on), addresses_in(set![0x11u8]));
    lemma_all_steps(wai_script(), addresses_in(set![0x00u8]));
}

} // verus!
