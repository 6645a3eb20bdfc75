//! The driver core for a device on an SPI bus with a chip-select pin.
//!
//! An operation loads a bus script into the core; the caller then calls
//! `step` until it answers `Done` or `Aborted`, performing each action the
//! core asks for: driving chip select low (`Select`) or high (`Deselect`),
//! or transferring a frame (`Transfer`), whose received bytes it hands back.

use vstd::prelude::*;
use crate::registers::{data_pair, wire_addr, RegistersBank0, RegistersBank2, READ_REG, REG_BANK_0, REG_BANK_2, WRITE_REG};
use crate::settings::{
    acc_off_update, acc_on_update, gyro_off_update, gyro_on_update, lpf_off_update, lpf_update,
    fs_update, with_field, FS_SEL_MASK, DLPF_CFG_MASK, FCHOICE_BIT, AccLPF, AccSensitivity, AccStates, FieldUpdate, GyroLPF, GyroSensitivity,
    GyroStates, MagStates,
};
use crate::sensor::{
    acc_divider_bytes, acc_divider_high, acc_divider_low, gyro_divider, gyro_rate_divider, raw_sample,
    spec_raw_sample, Effect, Reading, ScaleSource, Sensors,
};
use crate::error::IcmError;

verus! {

/// One step of a bus script.  `Select`, `Deselect`, `Exchange` and `Frame`
/// are performed by the caller; the others act on the core alone.
#[derive(Clone, Copy, Debug, PartialEq, Eq, Structural)]
pub enum SpiStep {
    /// Drive chip select low.
    Select,
    /// Drive chip select high.
    Deselect,
    /// `databuf[at] = byte`.
    Put { at: usize, byte: u8 },
    /// `databuf[at] = update` applied to `databuf[from]`.
    Update { at: usize, from: usize, update: FieldUpdate },
    /// Transfer `databuf[lo..hi]`; the received bytes replace them.
    Exchange { lo: usize, hi: usize },
    /// Transfer the two bytes given; the received bytes are dropped.
    Frame { first: u8, second: u8 },
    /// Record the sample held big-endian in `databuf[hi]`, `databuf[lo]`.
    Sample { hi: usize, lo: usize, source: ScaleSource },
    /// Record `databuf[at]` as the device's identity.
    Id { at: usize },
    /// Change the driver's record of the device.
    Effect(Effect),
}

/// What the core asks the caller to do next.
pub enum SpiAction {
    Select,
    Deselect,
    /// Transfer these bytes and hand back what was received in their place.
    Transfer(Vec<u8>),
    /// The operation completed; these are the values it read.
    Done(Vec<Reading>),
    /// The operation was given up after a bus error.
    Aborted,
}

/// What the caller reports after performing an action.
pub enum SpiEvent {
    /// The action was performed (or no action is outstanding).
    Proceed,
    /// The transfer succeeded; these bytes were received.
    Exchanged(Vec<u8>),
    /// The transfer failed; these are the bytes the buffer held afterwards.
    Failed(Vec<u8>),
}

impl SpiEvent {
    pub open spec fn reply(&self) -> Option<Seq<u8>> {
        match self {
            SpiEvent::Proceed => None,
            SpiEvent::Exchanged(bytes) => Some(bytes@),
            SpiEvent::Failed(bytes) => Some(bytes@),
        }
    }

    pub open spec fn failed(&self) -> bool {
        match self {
            SpiEvent::Failed(_) => true,
            _ => false,
        }
    }
}

/// The length of the driver's scratch buffer.
pub const DATABUF_LEN: usize = 5;

/// The indices a step refers to lie inside the scratch buffer.
pub open spec fn step_wf(step: SpiStep) -> bool {
    match step {
        SpiStep::Put { at, .. } => at < DATABUF_LEN,
        SpiStep::Update { at, from, .. } => at < DATABUF_LEN && from < DATABUF_LEN,
        SpiStep::Exchange { lo, hi } => lo <= hi <= DATABUF_LEN,
        SpiStep::Sample { hi, lo, .. } => hi < DATABUF_LEN && lo < DATABUF_LEN,
        SpiStep::Id { at } => at < DATABUF_LEN,
        _ => true,
    }
}

pub open spec fn script_wf(script: Seq<SpiStep>) -> bool {
    forall|i: int| 0 <= i < script.len() ==> #[trigger] step_wf(script[i])
}

/// Steps that the caller performs.
pub open spec fn is_bus_step(step: SpiStep) -> bool {
    match step {
        SpiStep::Select | SpiStep::Deselect | SpiStep::Exchange { .. } | SpiStep::Frame { .. } => true,
        _ => false,
    }
}

/// The abstract state of the core.
pub struct SpiState {
    pub sensors: Sensors,
    pub databuf: Seq<u8>,
    pub script: Seq<SpiStep>,
    /// Index of the next step of `script`.
    pub pc: int,
    /// The range of `databuf` whose transfer is outstanding.
    pub awaiting: Option<(int, int)>,
    /// The values read so far by the running operation.
    pub captured: Seq<Reading>,
}

impl SpiState {
    pub open spec fn wf(self) -> bool {
        &&& 0 <= self.pc <= self.script.len()
        &&& self.databuf.len() == DATABUF_LEN
        &&& script_wf(self.script)
        &&& self.awaiting matches Some((lo, hi)) ==> 0 <= lo <= hi <= DATABUF_LEN
    }

    /// The state after a step that the core performs alone.
    pub open spec fn exec_internal(self, step: SpiStep) -> SpiState {
        match step {
            SpiStep::Put { at, byte } => SpiState { databuf: self.databuf.update(at as int, byte), ..self },
            SpiStep::Update { at, from, update } => SpiState {
                databuf: self.databuf.update(at as int, update.spec_apply(self.databuf[from as int])),
                ..self
            },
            SpiStep::Sample { hi, lo, source } => SpiState {
                captured: self.captured.push(
                    Reading::Sample {
                        raw: spec_raw_sample(self.databuf[hi as int], self.databuf[lo as int]) as i16,
                        scale: self.sensors.spec_scale(source),
                    },
                ),
                ..self
            },
            SpiStep::Id { at } => SpiState { captured: self.captured.push(Reading::Id(self.databuf[at as int])), ..self },
            SpiStep::Effect(e) => SpiState { sensors: self.sensors.spec_apply(e), ..self },
            _ => self,
        }
    }

    /// The state after the core has performed every step up to the next bus
    /// step or the end of the script.
    pub open spec fn settle(self) -> SpiState
        decreases self.script.len() - self.pc,
    {
        if 0 <= self.pc < self.script.len() && !is_bus_step(self.script[self.pc]) {
            SpiState { pc: self.pc + 1, ..self.exec_internal(self.script[self.pc]) }.settle()
        } else {
            self
        }
    }

    /// The state after the reply to the outstanding transfer, if any, has
    /// been stored.  A reply is stored only when its length is that of the
    /// transferred range.
    pub open spec fn absorb(self, reply: Option<Seq<u8>>) -> SpiState {
        let databuf = match (self.awaiting, reply) {
            (Some((lo, hi)), Some(bytes)) => if bytes.len() == hi - lo {
                self.databuf.subrange(0, lo) + bytes + self.databuf.subrange(hi, self.databuf.len() as int)
            } else {
                self.databuf
            },
            _ => self.databuf,
        };
        SpiState { databuf, awaiting: None, ..self }
    }

    /// The state after the bus step at `pc` has been handed to the caller.
    pub open spec fn issue(self) -> SpiState {
        let awaiting = match self.script[self.pc] {
            SpiStep::Exchange { lo, hi } => Some((lo as int, hi as int)),
            _ => None,
        };
        SpiState { pc: self.pc + 1, awaiting, ..self }
    }

    /// The idle state: no script, nothing outstanding, nothing captured.
    pub open spec fn cleared(self) -> SpiState {
        SpiState { script: Seq::empty(), pc: 0, awaiting: None, captured: Seq::empty(), ..self }
    }

    /// The state with `script` loaded and ready to run.
    pub open spec fn loaded(self, script: Seq<SpiStep>) -> SpiState {
        SpiState { script, pc: 0, awaiting: None, captured: Seq::empty(), ..self }
    }

    /// The state after the caller's report `reply`, `failed`.
    pub open spec fn after(self, reply: Option<Seq<u8>>, failed: bool) -> SpiState {
        let a = self.absorb(reply);
        if failed {
            a.cleared()
        } else {
            let s = a.settle();
            if s.pc < s.script.len() {
                s.issue()
            } else {
                s.cleared()
            }
        }
    }
}

/// Settling keeps the script, only moves forward, and stops at a bus step or
/// at the end of the script.
pub proof fn lemma_settle(v: SpiState)
    requires
        v.wf(),
    ensures
        v.settle().wf(),
        v.settle().script == v.script,
        v.settle().awaiting == v.awaiting,
        v.pc <= v.settle().pc,
        v.settle().pc < v.settle().script.len() ==> is_bus_step(v.settle().script[v.settle().pc]),
    decreases v.script.len() - v.pc,
{
    if 0 <= v.pc < v.script.len() && !is_bus_step(v.script[v.pc]) {
        let next = SpiState { pc: v.pc + 1, ..v.exec_internal(v.script[v.pc]) };
        assert(step_wf(v.script[v.pc]));
        lemma_settle(next);
    }
}

/// `action` is what the core asks for in the settled state `s`.
pub open spec fn action_for(s: SpiState, action: SpiAction) -> bool {
    if s.pc < s.script.len() {
        match s.script[s.pc] {
            SpiStep::Select => action is Select,
            SpiStep::Deselect => action is Deselect,
            SpiStep::Exchange { lo, hi } => action matches SpiAction::Transfer(bytes) && bytes@
                == s.databuf.subrange(lo as int, hi as int),
            SpiStep::Frame { first, second } => action matches SpiAction::Transfer(bytes) && bytes@
                == seq![first, second],
            _ => false,
        }
    } else {
        action matches SpiAction::Done(readings) && readings@ == s.captured
    }
}

/// The driver core of an ICM-20948 on SPI.
pub struct IcmImu {
    sensors: Sensors,
    databuf: [u8; 5],
    script: Vec<SpiStep>,
    pc: usize,
    awaiting: Option<(usize, usize)>,
    captured: Vec<Reading>,
}

impl View for IcmImu {
    type V = SpiState;

    closed spec fn view(&self) -> SpiState {
        SpiState {
            sensors: self.sensors,
            databuf: self.databuf@,
            script: self.script@,
            pc: self.pc as int,
            awaiting: match self.awaiting {
                Some((lo, hi)) => Some((lo as int, hi as int)),
                None => None,
            },
            captured: self.captured@,
        }
    }
}

impl IcmImu {
    /// The core's indices lie inside its buffers; every operation keeps it so.
    pub closed spec fn wf(&self) -> bool {
        self@.wf()
    }

    /// Stores the reply to the outstanding transfer, if it has the length of
    /// the transferred range, and clears the outstanding transfer.
    fn store_reply(&mut self, reply: &Vec<u8>)
        requires
            old(self).wf(),
        ensures
            final(self).wf(),
            final(self)@ == old(self)@.absorb(Some(reply@)),
    {
        if let Some((lo, hi)) = self.awaiting {
            if reply.len() == hi - lo {
                let mut buf = self.databuf;
                let ghost start = buf@;
                let mut i: usize = 0;
                while i < reply.len()
                    invariant
                        lo <= hi <= 5,
                        reply.len() == hi - lo,
                        i <= reply.len(),
                        start.len() == 5,
                        buf@ =~= start.subrange(0, lo as int) + reply@.subrange(0, i as int)
                            + start.subrange(lo + i, 5),
                    decreases reply.len() - i,
                {
                    buf[lo + i] = reply[i];
                    i = i + 1;
                    assert(buf@ =~= start.subrange(0, lo as int) + reply@.subrange(0, i as int)
                        + start.subrange(lo + i, 5));
                }
                assert(reply@.subrange(0, i as int) =~= reply@);
                self.databuf = buf;
            }
        }
        self.awaiting = None;
    }

    /// Performs a step that the core performs alone.
    fn exec_internal(&mut self, step: SpiStep)
        requires
            old(self).wf(),
            step_wf(step),
        ensures
            final(self).wf(),
            final(self)@ == old(self)@.exec_internal(step),
    {
        match step {
            SpiStep::Put { at, byte } => {
                self.databuf[at] = byte;
            },
            SpiStep::Update { at, from, update } => {
                let value = update.apply(self.databuf[from]);
                self.databuf[at] = value;
            },
            SpiStep::Sample { hi, lo, source } => {
                let raw = raw_sample(self.databuf[hi], self.databuf[lo]);
                let scale = self.sensors.scale(source);
                self.captured.push(Reading::Sample { raw, scale });
            },
            SpiStep::Id { at } => {
                let id = self.databuf[at];
                self.captured.push(Reading::Id(id));
            },
            SpiStep::Effect(e) => {
                self.sensors.apply(e);
            },
            _ => {},
        }
    }

    /// Performs the steps up to the next bus step or the end of the script.
    fn settle(&mut self)
        requires
            old(self).wf(),
        ensures
            final(self).wf(),
            final(self)@ == old(self)@.settle(),
    {
        while self.pc < self.script.len() && !self.script[self.pc].is_bus()
            invariant
                self@.wf(),
                self@.settle() == old(self)@.settle(),
            decreases self.script.len() - self.pc,
        {
            let step = self.script[self.pc];
            assert(step_wf(self.script@[self.pc as int]));
            self.exec_internal(step);
            self.pc = self.pc + 1;
        }
    }

    /// Drops the script and everything that belongs to it.
    fn clear(&mut self)
        ensures
            final(self).wf(),
            final(self)@ == old(self)@.cleared(),
    {
        self.pc = 0;
        self.awaiting = None;
        self.script = Vec::new();
        self.captured = Vec::new();
    }

    /// Loads `script`, to be run from its first step.
    fn load(&mut self, script: Vec<SpiStep>)
        requires
            script_wf(script@),
        ensures
            final(self).wf(),
            final(self)@ == old(self)@.loaded(script@),
    {
        self.pc = 0;
        self.awaiting = None;
        self.script = script;
        self.captured = Vec::new();
    }

    fn copy_out(&self, lo: usize, hi: usize) -> (bytes: Vec<u8>)
        requires
            lo <= hi <= 5,
        ensures
            bytes@ == self.databuf@.subrange(lo as int, hi as int),
    {
        let mut bytes: Vec<u8> = Vec::new();
        let mut i: usize = lo;
        while i < hi
            invariant
                lo <= i <= hi <= 5,
                bytes@ =~= self.databuf@.subrange(lo as int, i as int),
            decreases hi - i,
        {
            bytes.push(self.databuf[i]);
            i = i + 1;
        }
        bytes
    }

    /// Absorbs the caller's report and answers with the next action.
    ///
    /// After `Aborted` or `Done` the core is idle until the next operation
    /// is loaded.
    pub fn step(&mut self, event: SpiEvent) -> (action: SpiAction)
        requires
            old(self).wf(),
        ensures
            final(self).wf(),
            final(self)@ == old(self)@.after(event.reply(), event.failed()),
            event.failed() ==> action is Aborted,
            !event.failed() ==> action_for(old(self)@.absorb(event.reply()).settle(), action),
    {
        let failed = match event {
            SpiEvent::Proceed => {
                self.awaiting = None;
                false
            },
            SpiEvent::Exchanged(bytes) => {
                self.store_reply(&bytes);
                false
            },
            SpiEvent::Failed(bytes) => {
                self.store_reply(&bytes);
                true
            },
        };
        if failed {
            self.clear();
            return SpiAction::Aborted;
        }
        let ghost absorbed = self@;
        self.settle();
        proof {
            lemma_settle(absorbed);
        }
        if self.pc < self.script.len() {
            let step = self.script[self.pc];
            assert(step_wf(self.script@[self.pc as int]));
            self.pc = self.pc + 1;
            match step {
                SpiStep::Select => SpiAction::Select,
                SpiStep::Deselect => SpiAction::Deselect,
                SpiStep::Exchange { lo, hi } => {
                    self.awaiting = Some((lo, hi));
                    SpiAction::Transfer(self.copy_out(lo, hi))
                },
                SpiStep::Frame { first, second } => SpiAction::Transfer(vec![first, second]),
                _ => SpiAction::Aborted,
            }
        } else {
            let mut readings: Vec<Reading> = Vec::new();
            core::mem::swap(&mut readings, &mut self.captured);
            self.clear();
            SpiAction::Done(readings)
        }
    }
}

impl SpiStep {
    fn is_bus(&self) -> (b: bool)
        ensures
            b == is_bus_step(*self),
    {
        match *self {
            SpiStep::Select | SpiStep::Deselect | SpiStep::Exchange { .. } | SpiStep::Frame { .. } => true,
            _ => false,
        }
    }
}


/// Write `value` to the register whose write address is `addr`.
pub open spec fn write_seg(addr: u8, value: u8) -> Seq<SpiStep> {
    seq![
        SpiStep::Put { at: 0, byte: addr },
        SpiStep::Put { at: 1, byte: value },
        SpiStep::Select,
        SpiStep::Exchange { lo: 0, hi: 2 },
        SpiStep::Deselect,
    ]
}

/// Select user bank `bank`.
pub open spec fn bank_seg(bank: u8) -> Seq<SpiStep> {
    write_seg(wire_addr(RegistersBank0::RegBankSel.offset(), WRITE_REG), bank)
}

/// The power read-modify-write of `PWR_MGMT_2`.  The read transfers no
/// byte, so the update works on the address byte still in `databuf[0]`,
/// and the write transfers the register address alone.
pub open spec fn power_seg(update: FieldUpdate) -> Seq<SpiStep> {
    seq![
        SpiStep::Put { at: 0, byte: wire_addr(RegistersBank0::PwrMgmt2.offset(), READ_REG) },
        SpiStep::Select,
        SpiStep::Exchange { lo: 0, hi: 0 },
        SpiStep::Update { at: 1, from: 0, update },
        SpiStep::Put { at: 0, byte: wire_addr(RegistersBank0::PwrMgmt2.offset(), WRITE_REG) },
        SpiStep::Exchange { lo: 0, hi: 1 },
        SpiStep::Deselect,
    ]
}

/// Read the sample register pair `high`, `low`: a three-byte transfer whose
/// second and third received bytes are the high and the low byte.
pub open spec fn axis_seg(high: RegistersBank0, low: RegistersBank0, source: ScaleSource) -> Seq<SpiStep> {
    seq![
        SpiStep::Put { at: 0, byte: wire_addr(high.offset(), READ_REG) },
        SpiStep::Put { at: 1, byte: wire_addr(low.offset(), READ_REG) },
        SpiStep::Select,
        SpiStep::Exchange { lo: 0, hi: 3 },
        SpiStep::Deselect,
        SpiStep::Sample { hi: 1, lo: 2, source },
    ]
}

/// Read-modify-write of the bank-2 register `reg`: it is read through
/// `databuf[at..at + 2]`, and `update` of the value received into
/// `databuf[at + 1]` is written back.
pub open spec fn rmw_seg(reg: RegistersBank2, at: usize, update: FieldUpdate) -> Seq<SpiStep> {
    seq![
        SpiStep::Put { at, byte: wire_addr(reg.offset(), READ_REG) },
        SpiStep::Select,
        SpiStep::Exchange { lo: at, hi: (at + 2) as usize },
        SpiStep::Deselect,
        SpiStep::Update { at: 1, from: (at + 1) as usize, update },
        SpiStep::Put { at: 0, byte: wire_addr(reg.offset(), WRITE_REG) },
        SpiStep::Select,
        SpiStep::Exchange { lo: 0, hi: 2 },
        SpiStep::Deselect,
    ]
}

/// Wake the device: `PWR_MGMT_1` gets `0x01` (auto clock, out of sleep).
pub open spec fn new_script() -> Seq<SpiStep> {
    seq![
        SpiStep::Select,
        SpiStep::Frame { first: wire_addr(RegistersBank0::PwrMgmt1.offset(), WRITE_REG), second: 0x01 },
        SpiStep::Deselect,
    ]
}

pub open spec fn wai_script() -> Seq<SpiStep> {
    seq![
        SpiStep::Put { at: 0, byte: wire_addr(RegistersBank0::Wai.offset(), READ_REG) },
        SpiStep::Put { at: 1, byte: 0 },
        SpiStep::Select,
        SpiStep::Exchange { lo: 0, hi: 2 },
        SpiStep::Deselect,
        SpiStep::Id { at: 1 },
    ]
}

pub open spec fn int_script(on: bool) -> Seq<SpiStep> {
    write_seg(wire_addr(RegistersBank0::IntEnable1.offset(), WRITE_REG), if on { 0x01 } else { 0x00 })
        + seq![SpiStep::Effect(Effect::Int(on))]
}

pub open spec fn enable_acc_script() -> Seq<SpiStep> {
    power_seg(acc_on_update()) + seq![SpiStep::Effect(Effect::Acc(AccStates::AccOn))]
}

pub open spec fn disable_acc_script() -> Seq<SpiStep> {
    power_seg(acc_off_update()) + seq![SpiStep::Effect(Effect::Acc(AccStates::AccOff))]
}

pub open spec fn enable_gyro_script() -> Seq<SpiStep> {
    power_seg(gyro_on_update()) + seq![SpiStep::Effect(Effect::Gyro(GyroStates::GyroOn))]
}

pub open spec fn disable_gyro_script() -> Seq<SpiStep> {
    power_seg(gyro_off_update()) + seq![SpiStep::Effect(Effect::Gyro(GyroStates::GyroOff))]
}

/// The steps that power the accelerometer first when the record says it is off.
pub open spec fn acc_wake_prefix(s: Sensors) -> Seq<SpiStep> {
    if s.acc_en != AccStates::AccOn { enable_acc_script() } else { Seq::empty() }
}

/// The steps that precede a gyroscope sample: when the record says the
/// gyroscope is off, the accelerometer (not the gyroscope) is powered.
pub open spec fn gyro_wake_prefix(s: Sensors) -> Seq<SpiStep> {
    if s.gyro_en != GyroStates::GyroOn { enable_acc_script() } else { Seq::empty() }
}

pub open spec fn read_acc_axis_script(s: Sensors, high: RegistersBank0, low: RegistersBank0) -> Seq<SpiStep> {
    acc_wake_prefix(s) + axis_seg(high, low, ScaleSource::Accel)
}

pub open spec fn read_acc_script(s: Sensors) -> Seq<SpiStep> {
    acc_wake_prefix(s)
        + axis_seg(RegistersBank0::AccelXOutH, RegistersBank0::AccelXOutL, ScaleSource::Accel)
        + axis_seg(RegistersBank0::AccelYOutH, RegistersBank0::AccelYOutL, ScaleSource::Accel)
        + axis_seg(RegistersBank0::AccelZOutH, RegistersBank0::AccelZOutL, ScaleSource::Accel)
}

pub open spec fn read_gyro_axis_script(s: Sensors, high: RegistersBank0, low: RegistersBank0) -> Seq<SpiStep> {
    gyro_wake_prefix(s) + axis_seg(high, low, ScaleSource::Gyro)
}

pub open spec fn read_gyro_script(s: Sensors) -> Seq<SpiStep> {
    read_gyro_axis_script(s, RegistersBank0::GyroXOutH, RegistersBank0::GyroXOutL)
        + read_gyro_axis_script(s, RegistersBank0::GyroYOutH, RegistersBank0::GyroYOutL)
        + read_gyro_axis_script(s, RegistersBank0::GyroZOutH, RegistersBank0::GyroZOutL)
}

/// Switch to bank 2, run `middle`, switch back to bank 0, then `tail`.
pub open spec fn in_bank2(middle: Seq<SpiStep>, tail: Seq<SpiStep>) -> Seq<SpiStep> {
    bank_seg(REG_BANK_2) + middle + bank_seg(REG_BANK_0) + tail
}

pub open spec fn set_acc_sen_script(sen: AccSensitivity) -> Seq<SpiStep> {
    in_bank2(
        rmw_seg(RegistersBank2::AccelConfig, 2, fs_update(sen.fs_code())),
        seq![SpiStep::Effect(Effect::AccScale(sen))],
    )
}

pub open spec fn set_gyro_sen_script(sen: GyroSensitivity) -> Seq<SpiStep> {
    in_bank2(
        rmw_seg(RegistersBank2::GyroConfig1, 2, fs_update(sen.fs_code())),
        seq![SpiStep::Effect(Effect::GyroScale(sen))],
    )
}

pub open spec fn acc_config_script(update: FieldUpdate) -> Seq<SpiStep> {
    in_bank2(rmw_seg(RegistersBank2::AccelConfig, 0, update), Seq::empty())
}

pub open spec fn gyro_config_script(update: FieldUpdate) -> Seq<SpiStep> {
    in_bank2(rmw_seg(RegistersBank2::GyroConfig1, 0, update), Seq::empty())
}

/// Write the accelerometer's divider, high byte `hi` and low byte `lo`, in
/// one four-byte transfer.
pub open spec fn acc_rate_script(hi: u8, lo: u8) -> Seq<SpiStep> {
    in_bank2(
        seq![
            SpiStep::Put { at: 0, byte: wire_addr(RegistersBank2::AccelSmplrtDiv1.offset(), WRITE_REG) },
            SpiStep::Put { at: 1, byte: hi },
            SpiStep::Put { at: 2, byte: wire_addr(RegistersBank2::AccelSmplrtDiv2.offset(), WRITE_REG) },
            SpiStep::Put { at: 3, byte: lo },
            SpiStep::Select,
            SpiStep::Exchange { lo: 0, hi: 4 },
            SpiStep::Deselect,
        ],
        Seq::empty(),
    )
}

pub open spec fn gyro_rate_script(div: u8) -> Seq<SpiStep> {
    in_bank2(write_seg(wire_addr(RegistersBank2::GyroSmplrtDiv.offset(), WRITE_REG), div), Seq::empty())
}

proof fn lemma_wf_append(a: Seq<SpiStep>, b: Seq<SpiStep>)
    requires
        script_wf(a),
        script_wf(b),
    ensures
        script_wf(a + b),
{
    assert forall|i: int| 0 <= i < (a + b).len() implies #[trigger] step_wf((a + b)[i]) by {
        if i < a.len() {
            assert((a + b)[i] == a[i]);
        } else {
            assert((a + b)[i] == b[i - a.len()]);
        }
    }
}

fn push_all(v: &mut Vec<SpiStep>, steps: Vec<SpiStep>)
    requires
        script_wf(old(v)@),
        script_wf(steps@),
    ensures
        final(v)@ == old(v)@ + steps@,
        script_wf(final(v)@),
{
    let mut steps = steps;
    proof {
        lemma_wf_append(v@, steps@);
    }
    v.append(&mut steps);
}

fn write_steps(addr: u8, value: u8) -> (v: Vec<SpiStep>)
    ensures
        v@ == write_seg(addr, value),
        script_wf(v@),
{
    let v = vec![
        SpiStep::Put { at: 0, byte: addr },
        SpiStep::Put { at: 1, byte: value },
        SpiStep::Select,
        SpiStep::Exchange { lo: 0, hi: 2 },
        SpiStep::Deselect,
    ];
    assert(script_wf(v@));
    v
}

fn bank_steps(bank: u8) -> (v: Vec<SpiStep>)
    ensures
        v@ == bank_seg(bank),
        script_wf(v@),
{
    write_steps(RegistersBank0::RegBankSel.get_addr(WRITE_REG), bank)
}

fn power_steps(update: FieldUpdate) -> (v: Vec<SpiStep>)
    ensures
        v@ == power_seg(update),
        script_wf(v@),
{
    let v = vec![
        SpiStep::Put { at: 0, byte: RegistersBank0::PwrMgmt2.get_addr(READ_REG) },
        SpiStep::Select,
        SpiStep::Exchange { lo: 0, hi: 0 },
        SpiStep::Update { at: 1, from: 0, update },
        SpiStep::Put { at: 0, byte: RegistersBank0::PwrMgmt2.get_addr(WRITE_REG) },
        SpiStep::Exchange { lo: 0, hi: 1 },
        SpiStep::Deselect,
    ];
    assert(script_wf(v@));
    v
}

fn axis_steps(high: RegistersBank0, low: RegistersBank0, source: ScaleSource) -> (v: Vec<SpiStep>)
    ensures
        v@ == axis_seg(high, low, source),
        script_wf(v@),
{
    let v = vec![
        SpiStep::Put { at: 0, byte: high.get_addr(READ_REG) },
        SpiStep::Put { at: 1, byte: low.get_addr(READ_REG) },
        SpiStep::Select,
        SpiStep::Exchange { lo: 0, hi: 3 },
        SpiStep::Deselect,
        SpiStep::Sample { hi: 1, lo: 2, source },
    ];
    assert(script_wf(v@));
    v
}

fn rmw_steps(reg: RegistersBank2, at: usize, update: FieldUpdate) -> (v: Vec<SpiStep>)
    requires
        at <= 3,
    ensures
        v@ == rmw_seg(reg, at, update),
        script_wf(v@),
{
    let v = vec![
        SpiStep::Put { at, byte: reg.get_addr(READ_REG) },
        SpiStep::Select,
        SpiStep::Exchange { lo: at, hi: at + 2 },
        SpiStep::Deselect,
        SpiStep::Update { at: 1, from: at + 1, update },
        SpiStep::Put { at: 0, byte: reg.get_addr(WRITE_REG) },
        SpiStep::Select,
        SpiStep::Exchange { lo: 0, hi: 2 },
        SpiStep::Deselect,
    ];
    assert(script_wf(v@));
    v
}

fn effect_steps(effect: Effect) -> (v: Vec<SpiStep>)
    ensures
        v@ == seq![SpiStep::Effect(effect)],
        script_wf(v@),
{
    let v = vec![SpiStep::Effect(effect)];
    assert(script_wf(v@));
    v
}

fn bank2_steps(middle: Vec<SpiStep>, tail: Vec<SpiStep>) -> (v: Vec<SpiStep>)
    requires
        script_wf(middle@),
        script_wf(tail@),
    ensures
        v@ == in_bank2(middle@, tail@),
        script_wf(v@),
{
    let mut v = bank_steps(REG_BANK_2);
    push_all(&mut v, middle);
    push_all(&mut v, bank_steps(REG_BANK_0));
    push_all(&mut v, tail);
    v
}

fn power_script(update: FieldUpdate, effect: Effect) -> (v: Vec<SpiStep>)
    ensures
        v@ == power_seg(update) + seq![SpiStep::Effect(effect)],
        script_wf(v@),
{
    let mut v = power_steps(update);
    push_all(&mut v, effect_steps(effect));
    v
}

fn enable_acc_steps() -> (v: Vec<SpiStep>)
    ensures
        v@ == enable_acc_script(),
        script_wf(v@),
{
    let u = FieldUpdate { keep: crate::settings::DISABLE_GYRO_MASK, set: 0x00 };
    power_script(u, Effect::Acc(AccStates::AccOn))
}

impl IcmImu {
    /// A core for a device that has just been configured at power-up; the
    /// loaded script wakes the device by writing `0x01` to `PWR_MGMT_1`.
    pub fn new() -> (imu: IcmImu)
        ensures
            imu.wf(),
            imu@ == (SpiState {
                sensors: Sensors::spec_powered_up(),
                databuf: seq![0u8, 0u8, 0u8, 0u8, 0u8],
                script: new_script(),
                pc: 0,
                awaiting: None,
                captured: Seq::empty(),
            }),
    {
        let script = vec![
            SpiStep::Select,
            SpiStep::Frame { first: RegistersBank0::PwrMgmt1.get_addr(WRITE_REG), second: 0x01 },
            SpiStep::Deselect,
        ];
        assert(script_wf(script@));
        let imu = IcmImu {
            sensors: Sensors::powered_up(),
            databuf: [0; 5],
            script,
            pc: 0,
            awaiting: None,
            captured: Vec::new(),
        };
        assert(imu@.databuf =~= seq![0u8, 0u8, 0u8, 0u8, 0u8]);
        imu
    }

    /// The driver's record of the device.
    pub fn sensors(&self) -> (s: Sensors)
        ensures
            s == self@.sensors,
    {
        self.sensors
    }

    pub fn int_on(&self) -> (on: bool)
        ensures
            on == self@.sensors.int_enabled,
    {
        self.sensors.int_on()
    }

    pub fn acc_on(&self) -> (on: bool)
        ensures
            on == (self@.sensors.acc_en == AccStates::AccOn),
    {
        self.sensors.acc_on()
    }

    pub fn gyro_on(&self) -> (on: bool)
        ensures
            on == (self@.sensors.gyro_en == GyroStates::GyroOn),
    {
        self.sensors.gyro_on()
    }

    pub fn mag_on(&self) -> (on: bool)
        ensures
            on == (self@.sensors.mag_en == MagStates::MagOn),
    {
        self.sensors.mag_on()
    }

    /// Loads the read of `WHO_AM_I`; its value is the `Id` that `Done` holds.
    pub fn wai(&mut self)
        ensures
            final(self).wf(),
            final(self)@ == old(self)@.loaded(wai_script()),
    {
        let script = vec![
            SpiStep::Put { at: 0, byte: RegistersBank0::Wai.get_addr(READ_REG) },
            SpiStep::Put { at: 1, byte: 0 },
            SpiStep::Select,
            SpiStep::Exchange { lo: 0, hi: 2 },
            SpiStep::Deselect,
            SpiStep::Id { at: 1 },
        ];
        assert(script_wf(script@));
        self.load(script);
    }

    /// Loads the write of `0x01` to `INT_ENABLE_1` (raw data ready).
    pub fn enable_int(&mut self)
        ensures
            final(self).wf(),
            final(self)@ == old(self)@.loaded(int_script(true)),
    {
        let mut v = write_steps(RegistersBank0::IntEnable1.get_addr(WRITE_REG), 0x01);
        push_all(&mut v, effect_steps(Effect::Int(true)));
        self.load(v);
    }

    /// Loads the write of `0x00` to `INT_ENABLE_1`.
    pub fn disable_int(&mut self)
        ensures
            final(self).wf(),
            final(self)@ == old(self)@.loaded(int_script(false)),
    {
        let mut v = write_steps(RegistersBank0::IntEnable1.get_addr(WRITE_REG), 0x00);
        push_all(&mut v, effect_steps(Effect::Int(false)));
        self.load(v);
    }

    pub fn enable_acc(&mut self)
        ensures
            final(self).wf(),
            final(self)@ == old(self)@.loaded(enable_acc_script()),
    {
        self.load(enable_acc_steps());
    }

    pub fn disable_acc(&mut self)
        ensures
            final(self).wf(),
            final(self)@ == old(self)@.loaded(disable_acc_script()),
    {
        let u = FieldUpdate { keep: 0xFF, set: crate::settings::DISABLE_ACCEL_MASK };
        self.load(power_script(u, Effect::Acc(AccStates::AccOff)));
    }

    pub fn enable_gyro(&mut self)
        ensures
            final(self).wf(),
            final(self)@ == old(self)@.loaded(enable_gyro_script()),
    {
        let u = FieldUpdate { keep: crate::settings::DISABLE_ACCEL_MASK, set: 0x00 };
        self.load(power_script(u, Effect::Gyro(GyroStates::GyroOn)));
    }

    pub fn disable_gyro(&mut self)
        ensures
            final(self).wf(),
            final(self)@ == old(self)@.loaded(disable_gyro_script()),
    {
        let u = FieldUpdate { keep: 0xFF, set: crate::settings::DISABLE_GYRO_MASK };
        self.load(power_script(u, Effect::Gyro(GyroStates::GyroOff)));
    }
}


fn acc_wake_steps(s: &Sensors) -> (v: Vec<SpiStep>)
    ensures
        v@ == acc_wake_prefix(*s),
        script_wf(v@),
{
    if s.acc_en != AccStates::AccOn {
        enable_acc_steps()
    } else {
        let v: Vec<SpiStep> = Vec::new();
        assert(script_wf(v@));
        v
    }
}

fn gyro_wake_steps(s: &Sensors) -> (v: Vec<SpiStep>)
    ensures
        v@ == gyro_wake_prefix(*s),
        script_wf(v@),
{
    if s.gyro_en != GyroStates::GyroOn {
        enable_acc_steps()
    } else {
        let v: Vec<SpiStep> = Vec::new();
        assert(script_wf(v@));
        v
    }
}

fn gyro_axis_steps(s: &Sensors, high: RegistersBank0, low: RegistersBank0) -> (v: Vec<SpiStep>)
    ensures
        v@ == read_gyro_axis_script(*s, high, low),
        script_wf(v@),
{
    let mut v = gyro_wake_steps(s);
    push_all(&mut v, axis_steps(high, low, ScaleSource::Gyro));
    v
}

impl IcmImu {
    /// Loads the read of the accelerometer's x axis, preceded by powering the
    /// accelerometer when the record says it is off.  `Done` holds one
    /// `Sample`, scaled by the accelerometer's counts per g.
    pub fn read_acc_x(&mut self)
        ensures
            final(self).wf(),
            final(self)@ == old(self)@.loaded(
                read_acc_axis_script(old(self)@.sensors, RegistersBank0::AccelXOutH, RegistersBank0::AccelXOutL),
            ),
    {
        let mut v = acc_wake_steps(&self.sensors);
        push_all(&mut v, axis_steps(RegistersBank0::AccelXOutH, RegistersBank0::AccelXOutL, ScaleSource::Accel));
        self.load(v);
    }

    pub fn read_acc_y(&mut self)
        ensures
            final(self).wf(),
            final(self)@ == old(self)@.loaded(
                read_acc_axis_script(old(self)@.sensors, RegistersBank0::AccelYOutH, RegistersBank0::AccelYOutL),
            ),
    {
        let mut v = acc_wake_steps(&self.sensors);
        push_all(&mut v, axis_steps(RegistersBank0::AccelYOutH, RegistersBank0::AccelYOutL, ScaleSource::Accel));
        self.load(v);
    }

    pub fn read_acc_z(&mut self)
        ensures
            final(self).wf(),
            final(self)@ == old(self)@.loaded(
                read_acc_axis_script(old(self)@.sensors, RegistersBank0::AccelZOutH, RegistersBank0::AccelZOutL),
            ),
    {
        let mut v = acc_wake_steps(&self.sensors);
        push_all(&mut v, axis_steps(RegistersBank0::AccelZOutH, RegistersBank0::AccelZOutL, ScaleSource::Accel));
        self.load(v);
    }

    /// Loads the reads of the three accelerometer axes, x, y, z; `Done`
    /// holds their three samples in that order.
    pub fn read_acc(&mut self)
        ensures
            final(self).wf(),
            final(self)@ == old(self)@.loaded(read_acc_script(old(self)@.sensors)),
    {
        let mut v = acc_wake_steps(&self.sensors);
        push_all(&mut v, axis_steps(RegistersBank0::AccelXOutH, RegistersBank0::AccelXOutL, ScaleSource::Accel));
        push_all(&mut v, axis_steps(RegistersBank0::AccelYOutH, RegistersBank0::AccelYOutL, ScaleSource::Accel));
        push_all(&mut v, axis_steps(RegistersBank0::AccelZOutH, RegistersBank0::AccelZOutL, ScaleSource::Accel));
        self.load(v);
    }

    /// Loads the read of the gyroscope's x axis, preceded by powering the
    /// accelerometer when the record says the gyroscope is off.  `Done` holds
    /// one `Sample`, scaled by the gyroscope's range.
    pub fn read_gyro_x(&mut self)
        ensures
            final(self).wf(),
            final(self)@ == old(self)@.loaded(
                read_gyro_axis_script(old(self)@.sensors, RegistersBank0::GyroXOutH, RegistersBank0::GyroXOutL),
            ),
    {
        self.load(gyro_axis_steps(&self.sensors, RegistersBank0::GyroXOutH, RegistersBank0::GyroXOutL));
    }

    pub fn read_gyro_y(&mut self)
        ensures
            final(self).wf(),
            final(self)@ == old(self)@.loaded(
                read_gyro_axis_script(old(self)@.sensors, RegistersBank0::GyroYOutH, RegistersBank0::GyroYOutL),
            ),
    {
        self.load(gyro_axis_steps(&self.sensors, RegistersBank0::GyroYOutH, RegistersBank0::GyroYOutL));
    }

    pub fn read_gyro_z(&mut self)
        ensures
            final(self).wf(),
            final(self)@ == old(self)@.loaded(
                read_gyro_axis_script(old(self)@.sensors, RegistersBank0::GyroZOutH, RegistersBank0::GyroZOutL),
            ),
    {
        self.load(gyro_axis_steps(&self.sensors, RegistersBank0::GyroZOutH, RegistersBank0::GyroZOutL));
    }

    /// Loads the reads of the three gyroscope axes, x, y, z.
    pub fn read_gyro(&mut self)
        ensures
            final(self).wf(),
            final(self)@ == old(self)@.loaded(read_gyro_script(old(self)@.sensors)),
    {
        let mut v = gyro_axis_steps(&self.sensors, RegistersBank0::GyroXOutH, RegistersBank0::GyroXOutL);
        push_all(&mut v, gyro_axis_steps(&self.sensors, RegistersBank0::GyroYOutH, RegistersBank0::GyroYOutL));
        push_all(&mut v, gyro_axis_steps(&self.sensors, RegistersBank0::GyroZOutH, RegistersBank0::GyroZOutL));
        self.load(v);
    }

    /// Loads the selection of the accelerometer's full-scale range in
    /// `ACCEL_CONFIG`; on completion the record's counts per g follow it.
    pub fn set_acc_sen(&mut self, acc_sen: AccSensitivity)
        ensures
            final(self).wf(),
            final(self)@ == old(self)@.loaded(set_acc_sen_script(acc_sen)),
    {
        let v = bank2_steps(
            rmw_steps(RegistersBank2::AccelConfig, 2, acc_sen.field_update()),
            effect_steps(Effect::AccScale(acc_sen)),
        );
        self.load(v);
    }

    /// Loads the selection of the gyroscope's full-scale range in
    /// `GYRO_CONFIG_1`; on completion the record's range follows it.
    pub fn set_gyro_sen(&mut self, gyro_sen: GyroSensitivity)
        ensures
            final(self).wf(),
            final(self)@ == old(self)@.loaded(set_gyro_sen_script(gyro_sen)),
    {
        let v = bank2_steps(
            rmw_steps(RegistersBank2::GyroConfig1, 2, gyro_sen.field_update()),
            effect_steps(Effect::GyroScale(gyro_sen)),
        );
        self.load(v);
    }

    /// Loads the enabling of the accelerometer's low-pass filter with
    /// bandwidth `bw`.
    pub fn config_acc_lpf(&mut self, bw: AccLPF)
        ensures
            final(self).wf(),
            final(self)@ == old(self)@.loaded(acc_config_script(lpf_update(bw.dlpf_code()))),
    {
        let none: Vec<SpiStep> = Vec::new();
        assert(script_wf(none@));
        self.load(bank2_steps(rmw_steps(RegistersBank2::AccelConfig, 0, bw.field_update()), none));
    }

    /// Loads the enabling of the gyroscope's low-pass filter with bandwidth `bw`.
    pub fn config_gyro_lpf(&mut self, bw: GyroLPF)
        ensures
            final(self).wf(),
            final(self)@ == old(self)@.loaded(gyro_config_script(lpf_update(bw.dlpf_code()))),
    {
        let none: Vec<SpiStep> = Vec::new();
        assert(script_wf(none@));
        self.load(bank2_steps(rmw_steps(RegistersBank2::GyroConfig1, 0, bw.field_update()), none));
    }

    /// Loads the switching off of the accelerometer's low-pass filter.
    pub fn disable_acc_lpf(&mut self)
        ensures
            final(self).wf(),
            final(self)@ == old(self)@.loaded(acc_config_script(lpf_off_update())),
    {
        let none: Vec<SpiStep> = Vec::new();
        assert(script_wf(none@));
        let off = FieldUpdate { keep: 0xFE, set: 0x00 };
        self.load(bank2_steps(rmw_steps(RegistersBank2::AccelConfig, 0, off), none));
    }

    /// Loads the switching off of the gyroscope's low-pass filter.
    pub fn disable_gyro_lpf(&mut self)
        ensures
            final(self).wf(),
            final(self)@ == old(self)@.loaded(gyro_config_script(lpf_off_update())),
    {
        let none: Vec<SpiStep> = Vec::new();
        assert(script_wf(none@));
        let off = FieldUpdate { keep: 0xFE, set: 0x00 };
        self.load(bank2_steps(rmw_steps(RegistersBank2::GyroConfig1, 0, off), none));
    }

    /// Loads the setting of the accelerometer's sample rate to about `rate`
    /// Hz, through the divider `1125 / rate - 1`.  A rate of 1125 Hz or more
    /// is refused with `InvalidInput`, and nothing is loaded.
    pub fn config_acc_rate<E>(&mut self, rate: u16) -> (r: Result<(), IcmError<E>>)
        requires
            rate != 0,
        ensures
            old(self).wf() ==> final(self).wf(),
            rate < 1125 ==> r is Ok && final(self).wf() && final(self)@ == old(self)@.loaded(
                acc_rate_script(acc_divider_high(rate), acc_divider_low(rate)),
            ),
            rate >= 1125 ==> (r matches Err(IcmError::InvalidInput)) && final(self)@ == old(self)@,
    {
        if rate < 1_125 {
            let (hi, lo) = acc_divider_bytes(rate);
            let frame = vec![
                SpiStep::Put { at: 0, byte: RegistersBank2::AccelSmplrtDiv1.get_addr(WRITE_REG) },
                SpiStep::Put { at: 1, byte: hi },
                SpiStep::Put { at: 2, byte: RegistersBank2::AccelSmplrtDiv2.get_addr(WRITE_REG) },
                SpiStep::Put { at: 3, byte: lo },
                SpiStep::Select,
                SpiStep::Exchange { lo: 0, hi: 4 },
                SpiStep::Deselect,
            ];
            assert(script_wf(frame@));
            let none: Vec<SpiStep> = Vec::new();
            assert(script_wf(none@));
            self.load(bank2_steps(frame, none));
            Ok(())
        } else {
            Err(IcmError::InvalidInput)
        }
    }

    /// Loads the setting of the gyroscope's sample rate to about `rate` Hz,
    /// through the divider `1100 / rate - 1`.  A rate of 4 Hz or less is
    /// refused with `InvalidInput`, and nothing is loaded.
    pub fn config_gyro_rate<E>(&mut self, rate: u16) -> (r: Result<(), IcmError<E>>)
        requires
            rate <= 1100,
        ensures
            old(self).wf() ==> final(self).wf(),
            rate > 4 ==> r is Ok && final(self).wf() && final(self)@ == old(self)@.loaded(
                gyro_rate_script(gyro_rate_divider(rate) as u8),
            ),
            rate <= 4 ==> (r matches Err(IcmError::InvalidInput)) && final(self)@ == old(self)@,
    {
        if rate > 4 {
            let div = gyro_divider(rate);
            let none: Vec<SpiStep> = Vec::new();
            assert(script_wf(none@));
            self.load(bank2_steps(write_steps(RegistersBank2::GyroSmplrtDiv.get_addr(WRITE_REG), div), none));
            Ok(())
        } else {
            Err(IcmError::InvalidInput)
        }
    }
}


/// The record after the steps `steps`: their effects applied in order.
pub open spec fn sensors_after(s: Sensors, steps: Seq<SpiStep>) -> Sensors
    decreases steps.len(),
{
    if steps.len() == 0 {
        s
    } else {
        let next = match steps[0] {
            SpiStep::Effect(e) => s.spec_apply(e),
            _ => s,
        };
        sensors_after(next, steps.drop_first())
    }
}

/// The record that the running operation will leave once it completes.
pub open spec fn pending_outcome(v: SpiState) -> Sensors {
    sensors_after(v.sensors, v.script.subrange(v.pc, v.script.len() as int))
}

/// The state after the reports `replies`, none of them a failure.
pub open spec fn run(v: SpiState, replies: Seq<Option<Seq<u8>>>) -> SpiState
    decreases replies.len(),
{
    if replies.len() == 0 {
        v
    } else {
        run(v.after(replies[0], false), replies.drop_first())
    }
}

proof fn lemma_settle_keeps_outcome(v: SpiState)
    requires
        v.wf(),
    ensures
        pending_outcome(v.settle()) == pending_outcome(v),
        v.settle().wf(),
    decreases v.script.len() - v.pc,
{
    if 0 <= v.pc < v.script.len() && !is_bus_step(v.script[v.pc]) {
        let next = SpiState { pc: v.pc + 1, ..v.exec_internal(v.script[v.pc]) };
        assert(step_wf(v.script[v.pc]));
        let rest = v.script.subrange(v.pc, v.script.len() as int);
        assert(rest.drop_first() =~= v.script.subrange(v.pc + 1, v.script.len() as int));
        assert(rest[0] == v.script[v.pc]);
        lemma_settle_keeps_outcome(next);
    }
}

/// Whatever the bus answers, an answer that is not a failure leaves
/// unchanged the record that the running operation will complete with; once
/// the operation is done, the record is that outcome, and the core stays
/// well formed throughout.
pub proof fn lemma_report_keeps_outcome(v: SpiState, reply: Option<Seq<u8>>)
    requires
        v.wf(),
    ensures
        v.after(reply, false).wf(),
        pending_outcome(v.after(reply, false)) == pending_outcome(v),
{
    let a = v.absorb(reply);
    match (v.awaiting, reply) {
        (Some((lo, hi)), Some(bytes)) => {
            if bytes.len() == hi - lo {
                assert(a.databuf.len() == DATABUF_LEN);
            }
        },
        _ => {},
    }
    assert(a.wf());
    assert(pending_outcome(a) == pending_outcome(v));
    lemma_settle_keeps_outcome(a);
    lemma_settle(a);
    let st = a.settle();
    if st.pc < st.script.len() {
        let rest = st.script.subrange(st.pc, st.script.len() as int);
        assert(rest.drop_first() =~= st.script.subrange(st.pc + 1, st.script.len() as int));
        assert(rest[0] == st.script[st.pc]);
        assert(step_wf(st.script[st.pc]));
    } else {
        assert(st.script.subrange(st.pc, st.script.len() as int) =~= Seq::<SpiStep>::empty());
        assert(st.cleared().script.subrange(0, 0) =~= Seq::<SpiStep>::empty());
    }
}

/// A run that completes leaves the record as the loaded script's effects
/// say, whatever bytes the device sent back.
pub proof fn lemma_completed_run(v: SpiState, replies: Seq<Option<Seq<u8>>>)
    requires
        v.wf(),
        run(v, replies).script.len() == 0,
    ensures
        run(v, replies).sensors == pending_outcome(v),
    decreases replies.len(),
{
    if replies.len() == 0 {
        assert(v.script.subrange(v.pc, v.script.len() as int) =~= Seq::<SpiStep>::empty());
    } else {
        lemma_report_keeps_outcome(v, replies[0]);
        lemma_completed_run(v.after(replies[0], false), replies.drop_first());
    }
}

/// An operation that runs to completion, whatever the device answered,
/// leaves the driver's record as the effects of its script say.
pub proof fn lemma_completed_operation(v: SpiState, script: Seq<SpiStep>, replies: Seq<Option<Seq<u8>>>)
    requires
        v.wf(),
        script_wf(script),
        run(v.loaded(script), replies).script.len() == 0,
    ensures
        run(v.loaded(script), replies).sensors == sensors_after(v.sensors, script),
{
    lemma_loaded_outcome(v, script);
    lemma_completed_run(v.loaded(script), replies);
}

/// A failed transfer abandons the running operation: the core becomes idle
/// and keeps the record as the operation's completed steps left it.
pub proof fn lemma_failure_abandons(v: SpiState, reply: Option<Seq<u8>>)
    ensures
        v.after(reply, true).script.len() == 0,
        v.after(reply, true).captured.len() == 0,
        v.after(reply, true).sensors == v.sensors,
{
}

/// A loaded script has not yet changed anything: its outcome is the
/// record after all its effects.
pub proof fn lemma_loaded_outcome(v: SpiState, script: Seq<SpiStep>)
    ensures
        pending_outcome(v.loaded(script)) == sensors_after(v.sensors, script),
{
    assert(script.subrange(0, script.len() as int) =~= script);
}

proof fn lemma_after_concat(s: Sensors, a: Seq<SpiStep>, b: Seq<SpiStep>)
    ensures
        sensors_after(s, a + b) == sensors_after(sensors_after(s, a), b),
    decreases a.len(),
{
    if a.len() == 0 {
        assert(a + b =~= b);
    } else {
        assert((a + b).drop_first() =~= a.drop_first() + b);
        assert((a + b)[0] == a[0]);
        let next = match a[0] {
            SpiStep::Effect(e) => s.spec_apply(e),
            _ => s,
        };
        lemma_after_concat(next, a.drop_first(), b);
    }
}

/// Steps none of which is an effect.
pub open spec fn effect_free(steps: Seq<SpiStep>) -> bool {
    forall|i: int| 0 <= i < steps.len() ==> !(#[trigger] steps[i] is Effect)
}

proof fn lemma_effect_free_keeps(s: Sensors, steps: Seq<SpiStep>)
    requires
        effect_free(steps),
    ensures
        sensors_after(s, steps) == s,
    decreases steps.len(),
{
    if steps.len() > 0 {
        assert(!(steps[0] is Effect));
        assert forall|i: int| 0 <= i < steps.drop_first().len() implies !(#[trigger] steps.drop_first()[i] is Effect) by {
            assert(steps.drop_first()[i] == steps[i + 1]);
        }
        lemma_effect_free_keeps(s, steps.drop_first());
    }
}

proof fn lemma_single_effect(s: Sensors, e: Effect)
    ensures
        sensors_after(s, seq![SpiStep::Effect(e)]) == s.spec_apply(e),
{
    let one = seq![SpiStep::Effect(e)];
    assert(one.drop_first() =~= Seq::<SpiStep>::empty());
    assert(one[0] == SpiStep::Effect(e));
    assert(sensors_after(s.spec_apply(e), Seq::<SpiStep>::empty()) == s.spec_apply(e));
}

proof fn lemma_segments_effect_free(addr: u8, value: u8, u: FieldUpdate, high: RegistersBank0,
    low: RegistersBank0, source: ScaleSource, reg: RegistersBank2, at: usize)
    ensures
        effect_free(write_seg(addr, value)),
        effect_free(power_seg(u)),
        effect_free(axis_seg(high, low, source)),
        effect_free(rmw_seg(reg, at, u)),
{
}


proof fn lemma_free_then(s: Sensors, a: Seq<SpiStep>, b: Seq<SpiStep>)
    requires
        effect_free(a),
    ensures
        sensors_after(s, a + b) == sensors_after(s, b),
{
    lemma_after_concat(s, a, b);
    lemma_effect_free_keeps(s, a);
}

proof fn lemma_in_bank2(s: Sensors, middle: Seq<SpiStep>, tail: Seq<SpiStep>)
    requires
        effect_free(middle),
    ensures
        sensors_after(s, in_bank2(middle, tail)) == sensors_after(s, tail),
{
    lemma_segments_effect_free(0, REG_BANK_2, lpf_off_update(), RegistersBank0::Wai, RegistersBank0::Wai,
        ScaleSource::Accel, RegistersBank2::AccelConfig, 0);
    lemma_segments_effect_free(0, REG_BANK_0, lpf_off_update(), RegistersBank0::Wai, RegistersBank0::Wai,
        ScaleSource::Accel, RegistersBank2::AccelConfig, 0);
    let b2 = bank_seg(REG_BANK_2);
    let b0 = bank_seg(REG_BANK_0);
    lemma_after_concat(s, b2 + middle + b0, tail);
    lemma_after_concat(s, b2 + middle, b0);
    lemma_after_concat(s, b2, middle);
    lemma_effect_free_keeps(s, b2);
    lemma_effect_free_keeps(s, middle);
    lemma_effect_free_keeps(s, b0);
}

proof fn lemma_gyro_axis_keeps(s: Sensors, target: Sensors, high: RegistersBank0, low: RegistersBank0)
    requires
        sensors_after(target, gyro_wake_prefix(s)) == target,
    ensures
        sensors_after(target, read_gyro_axis_script(s, high, low)) == target,
{
    lemma_segments_effect_free(0, 0, lpf_off_update(), high, low, ScaleSource::Gyro, RegistersBank2::AccelConfig, 0);
    lemma_after_concat(target, gyro_wake_prefix(s), axis_seg(high, low, ScaleSource::Gyro));
    lemma_effect_free_keeps(target, axis_seg(high, low, ScaleSource::Gyro));
}

/// What each completed configuration operation leaves in the driver's
/// record: the interrupt and power operations set their own flag, the range
/// selections set their own scale, and every other operation leaves the
/// record as it was.
pub proof fn lemma_operation_outcomes(s: Sensors, acc: AccSensitivity, gyro: GyroSensitivity, u: FieldUpdate, hi: u8,
    lo: u8, div: u8)
    ensures
        sensors_after(s, new_script()) == s,
        sensors_after(s, wai_script()) == s,
        sensors_after(s, int_script(true)) == (Sensors { int_enabled: true, ..s }),
        sensors_after(s, int_script(false)) == (Sensors { int_enabled: false, ..s }),
        sensors_after(s, enable_acc_script()) == (Sensors { acc_en: AccStates::AccOn, ..s }),
        sensors_after(s, disable_acc_script()) == (Sensors { acc_en: AccStates::AccOff, ..s }),
        sensors_after(s, enable_gyro_script()) == (Sensors { gyro_en: GyroStates::GyroOn, ..s }),
        sensors_after(s, disable_gyro_script()) == (Sensors { gyro_en: GyroStates::GyroOff, ..s }),
        sensors_after(s, set_acc_sen_script(acc)) == (Sensors { accel_sen: acc.spec_value(), ..s }),
        sensors_after(s, set_gyro_sen_script(gyro)) == (Sensors { gyro_sen: gyro, ..s }),
        sensors_after(s, acc_config_script(u)) == s,
        sensors_after(s, gyro_config_script(u)) == s,
        sensors_after(s, acc_rate_script(hi, lo)) == s,
        sensors_after(s, gyro_rate_script(div)) == s,
{
    let none = Seq::<SpiStep>::empty();
    assert(effect_free(new_script()));
    lemma_effect_free_keeps(s, new_script());
    assert(effect_free(wai_script()));
    lemma_effect_free_keeps(s, wai_script());
    let int_addr = wire_addr(RegistersBank0::IntEnable1.offset(), WRITE_REG);
    lemma_segments_effect_free(int_addr, 0x01, u, RegistersBank0::Wai, RegistersBank0::Wai, ScaleSource::Accel,
        RegistersBank2::AccelConfig, 0);
    lemma_segments_effect_free(int_addr, 0x00, u, RegistersBank0::Wai, RegistersBank0::Wai, ScaleSource::Accel,
        RegistersBank2::AccelConfig, 0);
    lemma_free_then(s, write_seg(int_addr, 0x01), seq![SpiStep::Effect(Effect::Int(true))]);
    lemma_free_then(s, write_seg(int_addr, 0x00), seq![SpiStep::Effect(Effect::Int(false))]);
    lemma_single_effect(s, Effect::Int(true));
    lemma_single_effect(s, Effect::Int(false));
    let updates = seq![acc_on_update(), acc_off_update(), gyro_on_update(), gyro_off_update()];
    let effects = seq![
        Effect::Acc(AccStates::AccOn),
        Effect::Acc(AccStates::AccOff),
        Effect::Gyro(GyroStates::GyroOn),
        Effect::Gyro(GyroStates::GyroOff),
    ];
    assert forall|i: int| 0 <= i < 4 implies sensors_after(s, power_seg(#[trigger] updates[i]) + seq![SpiStep::Effect(effects[i])])
        == s.spec_apply(effects[i]) by {
        lemma_segments_effect_free(0, 0, updates[i], RegistersBank0::Wai, RegistersBank0::Wai, ScaleSource::Accel,
            RegistersBank2::AccelConfig, 0);
        lemma_free_then(s, power_seg(updates[i]), seq![SpiStep::Effect(effects[i])]);
        lemma_single_effect(s, effects[i]);
    }
    assert(updates[0] == acc_on_update() && effects[0] == Effect::Acc(AccStates::AccOn));
    assert(updates[1] == acc_off_update() && effects[1] == Effect::Acc(AccStates::AccOff));
    assert(updates[2] == gyro_on_update() && effects[2] == Effect::Gyro(GyroStates::GyroOn));
    assert(updates[3] == gyro_off_update() && effects[3] == Effect::Gyro(GyroStates::GyroOff));
    let acc_u = fs_update(acc.fs_code());
    let gyro_u = fs_update(gyro.fs_code());
    lemma_segments_effect_free(0, 0, acc_u, RegistersBank0::Wai, RegistersBank0::Wai, ScaleSource::Accel,
        RegistersBank2::AccelConfig, 2);
    lemma_segments_effect_free(0, 0, gyro_u, RegistersBank0::Wai, RegistersBank0::Wai, ScaleSource::Accel,
        RegistersBank2::GyroConfig1, 2);
    lemma_in_bank2(s, rmw_seg(RegistersBank2::AccelConfig, 2, acc_u), seq![SpiStep::Effect(Effect::AccScale(acc))]);
    lemma_in_bank2(s, rmw_seg(RegistersBank2::GyroConfig1, 2, gyro_u), seq![SpiStep::Effect(Effect::GyroScale(gyro))]);
    lemma_single_effect(s, Effect::AccScale(acc));
    lemma_single_effect(s, Effect::GyroScale(gyro));
    lemma_segments_effect_free(0, 0, u, RegistersBank0::Wai, RegistersBank0::Wai, ScaleSource::Accel,
        RegistersBank2::AccelConfig, 0);
    lemma_segments_effect_free(0, 0, u, RegistersBank0::Wai, RegistersBank0::Wai, ScaleSource::Accel,
        RegistersBank2::GyroConfig1, 0);
    lemma_in_bank2(s, rmw_seg(RegistersBank2::AccelConfig, 0, u), none);
    lemma_in_bank2(s, rmw_seg(RegistersBank2::GyroConfig1, 0, u), none);
    let rate_frame = seq![
        SpiStep::Put { at: 0, byte: wire_addr(RegistersBank2::AccelSmplrtDiv1.offset(), WRITE_REG) },
        SpiStep::Put { at: 1, byte: hi },
        SpiStep::Put { at: 2, byte: wire_addr(RegistersBank2::AccelSmplrtDiv2.offset(), WRITE_REG) },
        SpiStep::Put { at: 3, byte: lo },
        SpiStep::Select,
        SpiStep::Exchange { lo: 0, hi: 4 },
        SpiStep::Deselect,
    ];
    assert(effect_free(rate_frame));
    lemma_in_bank2(s, rate_frame, none);
    let div_addr = wire_addr(RegistersBank2::GyroSmplrtDiv.offset(), WRITE_REG);
    lemma_segments_effect_free(div_addr, div, u, RegistersBank0::Wai, RegistersBank0::Wai, ScaleSource::Accel,
        RegistersBank2::AccelConfig, 0);
    lemma_in_bank2(s, write_seg(div_addr, div), none);
}

/// A completed read of the accelerometer leaves it marked powered and
/// changes nothing else.  A completed read of the gyroscope changes
/// nothing when the gyroscope is marked on, and otherwise marks the
/// accelerometer (not the gyroscope) powered.
pub proof fn lemma_read_outcomes(s: Sensors, high: RegistersBank0, low: RegistersBank0)
    ensures
        sensors_after(s, read_acc_axis_script(s, high, low)) == (Sensors { acc_en: AccStates::AccOn, ..s }),
        sensors_after(s, read_acc_script(s)) == (Sensors { acc_en: AccStates::AccOn, ..s }),
        sensors_after(s, read_gyro_axis_script(s, high, low)) == (if s.gyro_en != GyroStates::GyroOn {
            Sensors { acc_en: AccStates::AccOn, ..s }
        } else {
            s
        }),
        sensors_after(s, read_gyro_script(s)) == (if s.gyro_en != GyroStates::GyroOn {
            Sensors { acc_en: AccStates::AccOn, ..s }
        } else {
            s
        }),
{
    let on = Sensors { acc_en: AccStates::AccOn, ..s };
    lemma_operation_outcomes(s, AccSensitivity::Sen2g, GyroSensitivity::Sen250dps, lpf_off_update(), 0, 0, 0);
    lemma_operation_outcomes(on, AccSensitivity::Sen2g, GyroSensitivity::Sen250dps, lpf_off_update(), 0, 0, 0);
    let ax = axis_seg(RegistersBank0::AccelXOutH, RegistersBank0::AccelXOutL, ScaleSource::Accel);
    let ay = axis_seg(RegistersBank0::AccelYOutH, RegistersBank0::AccelYOutL, ScaleSource::Accel);
    let az = axis_seg(RegistersBank0::AccelZOutH, RegistersBank0::AccelZOutL, ScaleSource::Accel);
    let gx = read_gyro_axis_script(s, RegistersBank0::GyroXOutH, RegistersBank0::GyroXOutL);
    let gy = read_gyro_axis_script(s, RegistersBank0::GyroYOutH, RegistersBank0::GyroYOutL);
    let gz = read_gyro_axis_script(s, RegistersBank0::GyroZOutH, RegistersBank0::GyroZOutL);
    let target = if s.gyro_en != GyroStates::GyroOn { on } else { s };
    let u = lpf_off_update();
    let r = RegistersBank2::AccelConfig;
    lemma_segments_effect_free(0, 0, u, high, low, ScaleSource::Accel, r, 0);
    lemma_segments_effect_free(0, 0, u, high, low, ScaleSource::Gyro, r, 0);
    lemma_segments_effect_free(0, 0, u, RegistersBank0::AccelXOutH, RegistersBank0::AccelXOutL, ScaleSource::Accel, r, 0);
    lemma_segments_effect_free(0, 0, u, RegistersBank0::AccelYOutH, RegistersBank0::AccelYOutL, ScaleSource::Accel, r, 0);
    lemma_segments_effect_free(0, 0, u, RegistersBank0::AccelZOutH, RegistersBank0::AccelZOutL, ScaleSource::Accel, r, 0);
    lemma_segments_effect_free(0, 0, u, RegistersBank0::GyroXOutH, RegistersBank0::GyroXOutL, ScaleSource::Gyro, r, 0);
    lemma_segments_effect_free(0, 0, u, RegistersBank0::GyroYOutH, RegistersBank0::GyroYOutL, ScaleSource::Gyro, r, 0);
    lemma_segments_effect_free(0, 0, u, RegistersBank0::GyroZOutH, RegistersBank0::GyroZOutL, ScaleSource::Gyro, r, 0);
    let p = acc_wake_prefix(s);
    let ps = sensors_after(s, p);
    assert(ps == on) by {
        if s.acc_en != AccStates::AccOn {
        } else {
            assert(p =~= Seq::<SpiStep>::empty());
            assert(on == s);
        }
    }
    // accelerometer: one axis
    lemma_after_concat(s, p, axis_seg(high, low, ScaleSource::Accel));
    lemma_effect_free_keeps(ps, axis_seg(high, low, ScaleSource::Accel));
    // accelerometer: three axes
    lemma_after_concat(s, p + ax + ay, az);
    lemma_after_concat(s, p + ax, ay);
    lemma_after_concat(s, p, ax);
    lemma_effect_free_keeps(ps, ax);
    lemma_effect_free_keeps(ps, ay);
    lemma_effect_free_keeps(ps, az);
    // gyroscope
    let g = gyro_wake_prefix(s);
    assert(sensors_after(s, g) == target && sensors_after(target, g) == target) by {
        if s.gyro_en != GyroStates::GyroOn {
        } else {
            assert(g =~= Seq::<SpiStep>::empty());
        }
    }
    let gax = axis_seg(high, low, ScaleSource::Gyro);
    lemma_after_concat(s, g, gax);
    lemma_effect_free_keeps(target, gax);
    let gxs = axis_seg(RegistersBank0::GyroXOutH, RegistersBank0::GyroXOutL, ScaleSource::Gyro);
    lemma_after_concat(s, g, gxs);
    lemma_effect_free_keeps(target, gxs);
    lemma_gyro_axis_keeps(s, target, RegistersBank0::GyroYOutH, RegistersBank0::GyroYOutL);
    lemma_gyro_axis_keeps(s, target, RegistersBank0::GyroZOutH, RegistersBank0::GyroZOutL);
    lemma_after_concat(s, gx + gy, gz);
    lemma_after_concat(s, gx, gy);
}


/// A read of one sample register pair, run from its start: the core first
/// transfers the two read addresses (and the byte that `databuf[2]` held),
/// and when the device answers with `reply`, the completed operation hands
/// back exactly one sample, made of the second and third bytes of the reply
/// and scaled as the record says.
pub proof fn lemma_axis_read_result(v: SpiState, high: RegistersBank0, low: RegistersBank0, source: ScaleSource,
    reply: Seq<u8>)
    requires
        v.wf(),
        reply.len() == 3,
    ensures
        ({
            let s0 = v.loaded(axis_seg(high, low, source));
            let s1 = s0.after(None, false);
            let s2 = s1.after(None, false);
            let s3 = s2.after(Some(reply), false);
            let fin = s3.absorb(None).settle();
            &&& s0.absorb(None).settle().script[s0.absorb(None).settle().pc] == SpiStep::Select
            &&& s1.absorb(None).settle().script[s1.absorb(None).settle().pc] == (SpiStep::Exchange { lo: 0, hi: 3 })
            &&& s1.absorb(None).settle().databuf.subrange(0, 3) == seq![
                wire_addr(high.offset(), READ_REG),
                wire_addr(low.offset(), READ_REG),
                v.databuf[2],
            ]
            &&& s2.absorb(Some(reply)).settle().script[s2.absorb(Some(reply)).settle().pc] == SpiStep::Deselect
            &&& fin.pc == fin.script.len()
            &&& fin.captured == seq![
                Reading::Sample {
                    raw: spec_raw_sample(reply[1], reply[2]) as i16,
                    scale: v.sensors.spec_scale(source),
                },
            ]
        }),
{
    let script = axis_seg(high, low, source);
    let s0 = v.loaded(script);
    assert(script_wf(script));
    let a0 = s0.absorb(None);
    assert(a0 == s0);
    let p1 = SpiState { pc: 1, ..a0.exec_internal(script[0]) };
    let p2 = SpiState { pc: 2, ..p1.exec_internal(script[1]) };
    assert(a0.settle() == p1.settle());
    assert(p1.settle() == p2.settle());
    assert(p2.settle() == p2);
    let s1 = p2.issue();
    assert(s0.after(None, false) == s1);
    assert(s1.absorb(None) == s1);
    assert(s1.settle() == s1);
    let s2 = s1.issue();
    assert(s1.after(None, false) == s2);
    assert(s1.databuf.subrange(0, 3) =~= seq![
        wire_addr(high.offset(), READ_REG),
        wire_addr(low.offset(), READ_REG),
        v.databuf[2],
    ]);
    let a2 = s2.absorb(Some(reply));
    assert(a2.databuf =~= reply + s1.databuf.subrange(3, 5));
    assert(a2.settle() == a2);
    let s3 = a2.issue();
    assert(s2.after(Some(reply), false) == s3);
    let a3 = s3.absorb(None);
    let p6 = SpiState { pc: 6, ..a3.exec_internal(script[5]) };
    assert(a3.settle() == p6.settle());
    assert(p6.settle() == p6);
    assert(p6.captured =~= seq![
        Reading::Sample {
            raw: spec_raw_sample(reply[1], reply[2]) as i16,
            scale: v.sensors.spec_scale(source),
        },
    ]);
}


/// The script selects bank 2 first, and its last bus steps select bank 0
/// again: nothing goes on the bus after the switch back.
#[verifier::opaque]
pub open spec fn bank2_bracketed(script: Seq<SpiStep>) -> bool {
    &&& script.len() >= 10
    &&& script.subrange(0, 5) == bank_seg(REG_BANK_2)
    &&& exists|k: int|
        5 <= k <= script.len() - 5 && #[trigger] script.subrange(k, k + 5) == bank_seg(REG_BANK_0) && forall|j: int|
            k + 5 <= j < script.len() ==> !is_bus_step(#[trigger] script[j])
}

proof fn lemma_in_bank2_bracketed(middle: Seq<SpiStep>, tail: Seq<SpiStep>)
    requires
        forall|j: int| 0 <= j < tail.len() ==> !is_bus_step(#[trigger] tail[j]),
    ensures
        bank2_bracketed(in_bank2(middle, tail)),
{
    reveal(bank2_bracketed);
    let script = in_bank2(middle, tail);
    let k: int = 5 + middle.len() as int;
    assert(script.subrange(0, 5) =~= bank_seg(REG_BANK_2));
    assert(script.subrange(k, k + 5) =~= bank_seg(REG_BANK_0));
    assert forall|j: int| k + 5 <= j < script.len() implies !is_bus_step(#[trigger] script[j]) by {
        assert(script[j] == tail[j - k - 5]);
    }
}

/// Every operation that works in bank 2 switches to it first and switches
/// back to bank 0 before its last bus step is done.
pub proof fn lemma_bank2_operations_return_to_bank0(acc: AccSensitivity, gyro: GyroSensitivity, u: FieldUpdate, hi: u8,
    lo: u8, div: u8)
    ensures
        bank2_bracketed(set_acc_sen_script(acc)),
        bank2_bracketed(set_gyro_sen_script(gyro)),
        bank2_bracketed(acc_config_script(u)),
        bank2_bracketed(gyro_config_script(u)),
        bank2_bracketed(acc_rate_script(hi, lo)),
        bank2_bracketed(gyro_rate_script(div)),
{
    let none = Seq::<SpiStep>::empty();
    let acc_tail = seq![SpiStep::Effect(Effect::AccScale(acc))];
    let gyro_tail = seq![SpiStep::Effect(Effect::GyroScale(gyro))];
    assert(!is_bus_step(acc_tail[0]));
    assert(!is_bus_step(gyro_tail[0]));
    lemma_in_bank2_bracketed(rmw_seg(RegistersBank2::AccelConfig, 2, fs_update(acc.fs_code())), acc_tail);
    lemma_in_bank2_bracketed(rmw_seg(RegistersBank2::GyroConfig1, 2, fs_update(gyro.fs_code())), gyro_tail);
    lemma_in_bank2_bracketed(rmw_seg(RegistersBank2::AccelConfig, 0, u), none);
    lemma_in_bank2_bracketed(rmw_seg(RegistersBank2::GyroConfig1, 0, u), none);
    lemma_in_bank2_bracketed(
        seq![
            SpiStep::Put { at: 0, byte: wire_addr(RegistersBank2::AccelSmplrtDiv1.offset(), WRITE_REG) },
            SpiStep::Put { at: 1, byte: hi },
            SpiStep::Put { at: 2, byte: wire_addr(RegistersBank2::AccelSmplrtDiv2.offset(), WRITE_REG) },
            SpiStep::Put { at: 3, byte: lo },
            SpiStep::Select,
            SpiStep::Exchange { lo: 0, hi: 4 },
            SpiStep::Deselect,
        ],
        none,
    );
    lemma_in_bank2_bracketed(write_seg(wire_addr(RegistersBank2::GyroSmplrtDiv.offset(), WRITE_REG), div), none);
}


/// Every step of `script` satisfies `p`.
pub open spec fn every_step(script: Seq<SpiStep>, p: spec_fn(SpiStep) -> bool) -> bool {
    forall|i: int| 0 <= i < script.len() ==> #[trigger] p(script[i])
}

/// Every sample that the step records is scaled by `source`.
pub open spec fn sample_scaled_by(source: ScaleSource) -> spec_fn(SpiStep) -> bool {
    |st: SpiStep|
        match st {
            SpiStep::Sample { source: s, .. } => s == source,
            _ => true,
        }
}

/// Every address byte that the step puts into the buffer is one of
/// `allowed`: frames carry register addresses at even indices and register
/// values at odd ones.
pub open spec fn addresses_in(allowed: Set<u8>) -> spec_fn(SpiStep) -> bool {
    |st: SpiStep|
        match st {
            SpiStep::Put { at, byte } => at % 2 == 1 || allowed.contains(byte),
            _ => true,
        }
}

/// Every update that the step makes replaces the bits under `mask` by those
/// of `bits` and keeps all others.
pub open spec fn updates_write_field(mask: u8, bits: u8) -> spec_fn(SpiStep) -> bool {
    |st: SpiStep|
        match st {
            SpiStep::Update { update, .. } => forall|x: u8| #[trigger] update.spec_apply(x) == with_field(x, mask, bits),
            _ => true,
        }
}

proof fn lemma_every_concat(a: Seq<SpiStep>, b: Seq<SpiStep>, p: spec_fn(SpiStep) -> bool)
    requires
        every_step(a, p),
        every_step(b, p),
    ensures
        every_step(a + b, p),
{
    assert forall|i: int| 0 <= i < (a + b).len() implies #[trigger] p((a + b)[i]) by {
        if i < a.len() {
            assert((a + b)[i] == a[i]);
        } else {
            assert((a + b)[i] == b[i - a.len()]);
        }
    }
}

proof fn lemma_every_in_bank2(middle: Seq<SpiStep>, tail: Seq<SpiStep>, p: spec_fn(SpiStep) -> bool)
    requires
        every_step(bank_seg(REG_BANK_2), p),
        every_step(bank_seg(REG_BANK_0), p),
        every_step(middle, p),
        every_step(tail, p),
    ensures
        every_step(in_bank2(middle, tail), p),
{
    lemma_every_concat(bank_seg(REG_BANK_2), middle, p);
    lemma_every_concat(bank_seg(REG_BANK_2) + middle, bank_seg(REG_BANK_0), p);
    lemma_every_concat(bank_seg(REG_BANK_2) + middle + bank_seg(REG_BANK_0), tail, p);
}


proof fn lemma_axis_steps(high: RegistersBank0, low: RegistersBank0, source: ScaleSource, allowed: Set<u8>)
    requires
        allowed.contains(wire_addr(high.offset(), READ_REG)),
    ensures
        every_step(axis_seg(high, low, source), sample_scaled_by(source)),
        every_step(axis_seg(high, low, source), addresses_in(allowed)),
{
    let seg = axis_seg(high, low, source);
    assert forall|i: int| 0 <= i < seg.len() implies #[trigger] (sample_scaled_by(source))(seg[i]) by {}
    assert forall|i: int| 0 <= i < seg.len() implies #[trigger] (addresses_in(allowed))(seg[i]) by {}
}

proof fn lemma_power_steps(u: FieldUpdate, e: Effect, p: spec_fn(SpiStep) -> bool)
    requires
        p(SpiStep::Put { at: 0, byte: wire_addr(RegistersBank0::PwrMgmt2.offset(), READ_REG) }),
        p(SpiStep::Put { at: 0, byte: wire_addr(RegistersBank0::PwrMgmt2.offset(), WRITE_REG) }),
        p(SpiStep::Select),
        p(SpiStep::Deselect),
        p(SpiStep::Exchange { lo: 0, hi: 0 }),
        p(SpiStep::Exchange { lo: 0, hi: 1 }),
        p(SpiStep::Update { at: 1, from: 0, update: u }),
        p(SpiStep::Effect(e)),
    ensures
        every_step(power_seg(u) + seq![SpiStep::Effect(e)], p),
{
    let seg = power_seg(u) + seq![SpiStep::Effect(e)];
    assert forall|i: int| 0 <= i < seg.len() implies #[trigger] p(seg[i]) by {}
}

/// The reads of the accelerometer put on the bus only the power register
/// and the accelerometer's sample registers x, y, z (high byte first), and
/// scale every sample they record by the accelerometer's counts per g.  The
/// reads of the gyroscope put on the bus only the power register and the
/// gyroscope's sample registers, and scale their samples by the gyroscope's
/// range.
pub proof fn lemma_read_scripts(s: Sensors, axis: int)
    requires
        0 <= axis < 3,
    ensures
        every_step(read_acc_axis_script(s, data_pair(axis).0, data_pair(axis).1), sample_scaled_by(ScaleSource::Accel)),
        every_step(read_acc_script(s), sample_scaled_by(ScaleSource::Accel)),
        every_step(read_acc_script(s), addresses_in(set![0x87u8, 0x07u8, 0xADu8, 0xAFu8, 0xB1u8])),
        every_step(read_acc_axis_script(s, data_pair(axis).0, data_pair(axis).1), addresses_in(
            set![0x87u8, 0x07u8, (0xAD + 2 * axis) as u8],
        )),
        every_step(
            read_gyro_axis_script(s, data_pair(axis + 3).0, data_pair(axis + 3).1),
            sample_scaled_by(ScaleSource::Gyro),
        ),
        every_step(read_gyro_script(s), sample_scaled_by(ScaleSource::Gyro)),
        every_step(read_gyro_script(s), addresses_in(set![0x87u8, 0x07u8, 0xB3u8, 0xB5u8, 0xB7u8])),
        every_step(read_gyro_axis_script(s, data_pair(axis + 3).0, data_pair(axis + 3).1), addresses_in(
            set![0x87u8, 0x07u8, (0xB3 + 2 * axis) as u8],
        )),
{
    let acc_all = set![0x87u8, 0x07u8, 0xADu8, 0xAFu8, 0xB1u8];
    let gyro_all = set![0x87u8, 0x07u8, 0xB3u8, 0xB5u8, 0xB7u8];
    let acc_one = set![0x87u8, 0x07u8, (0xAD + 2 * axis) as u8];
    let gyro_one = set![0x87u8, 0x07u8, (0xB3 + 2 * axis) as u8];
    let sa = sample_scaled_by(ScaleSource::Accel);
    let sg = sample_scaled_by(ScaleSource::Gyro);
    let u = acc_on_update();
    let e = Effect::Acc(AccStates::AccOn);
    crate::registers::lemma_data_registers_consecutive(axis);
    crate::registers::lemma_data_registers_consecutive(axis + 3);
    crate::registers::lemma_data_registers_consecutive(0);
    crate::registers::lemma_data_registers_consecutive(1);
    crate::registers::lemma_data_registers_consecutive(2);
    crate::registers::lemma_data_registers_consecutive(3);
    crate::registers::lemma_data_registers_consecutive(4);
    crate::registers::lemma_data_registers_consecutive(5);
    crate::registers::lemma_read_flag_free(RegistersBank0::PwrMgmt2.offset());
    lemma_power_steps(u, e, sa);
    lemma_power_steps(u, e, sg);
    lemma_power_steps(u, e, addresses_in(acc_all));
    lemma_power_steps(u, e, addresses_in(gyro_all));
    lemma_power_steps(u, e, addresses_in(acc_one));
    lemma_power_steps(u, e, addresses_in(gyro_one));
    assert(every_step(Seq::<SpiStep>::empty(), sa));
    assert(every_step(Seq::<SpiStep>::empty(), sg));
    assert(every_step(Seq::<SpiStep>::empty(), addresses_in(acc_all)));
    assert(every_step(Seq::<SpiStep>::empty(), addresses_in(gyro_all)));
    assert(every_step(Seq::<SpiStep>::empty(), addresses_in(acc_one)));
    assert(every_step(Seq::<SpiStep>::empty(), addresses_in(gyro_one)));
    let pa = acc_wake_prefix(s);
    let pg = gyro_wake_prefix(s);
    let (h, l) = data_pair(axis);
    let (gh, gl) = data_pair(axis + 3);
    // one accelerometer axis
    lemma_axis_steps(h, l, ScaleSource::Accel, acc_one);
    lemma_every_concat(pa, axis_seg(h, l, ScaleSource::Accel), sa);
    lemma_every_concat(pa, axis_seg(h, l, ScaleSource::Accel), addresses_in(acc_one));
    // one gyroscope axis
    lemma_axis_steps(gh, gl, ScaleSource::Gyro, gyro_one);
    lemma_every_concat(pg, axis_seg(gh, gl, ScaleSource::Gyro), sg);
    lemma_every_concat(pg, axis_seg(gh, gl, ScaleSource::Gyro), addresses_in(gyro_one));
    // three accelerometer axes
    let ax = axis_seg(RegistersBank0::AccelXOutH, RegistersBank0::AccelXOutL, ScaleSource::Accel);
    let ay = axis_seg(RegistersBank0::AccelYOutH, RegistersBank0::AccelYOutL, ScaleSource::Accel);
    let az = axis_seg(RegistersBank0::AccelZOutH, RegistersBank0::AccelZOutL, ScaleSource::Accel);
    lemma_axis_steps(RegistersBank0::AccelXOutH, RegistersBank0::AccelXOutL, ScaleSource::Accel, acc_all);
    lemma_axis_steps(RegistersBank0::AccelYOutH, RegistersBank0::AccelYOutL, ScaleSource::Accel, acc_all);
    lemma_axis_steps(RegistersBank0::AccelZOutH, RegistersBank0::AccelZOutL, ScaleSource::Accel, acc_all);
    lemma_every_concat(pa, ax, sa);
    lemma_every_concat(pa + ax, ay, sa);
    lemma_every_concat(pa + ax + ay, az, sa);
    lemma_every_concat(pa, ax, addresses_in(acc_all));
    lemma_every_concat(pa + ax, ay, addresses_in(acc_all));
    lemma_every_concat(pa + ax + ay, az, addresses_in(acc_all));
    // three gyroscope axes, each with its own prefix
    let gxs = axis_seg(RegistersBank0::GyroXOutH, RegistersBank0::GyroXOutL, ScaleSource::Gyro);
    let gys = axis_seg(RegistersBank0::GyroYOutH, RegistersBank0::GyroYOutL, ScaleSource::Gyro);
    let gzs = axis_seg(RegistersBank0::GyroZOutH, RegistersBank0::GyroZOutL, ScaleSource::Gyro);
    lemma_axis_steps(RegistersBank0::GyroXOutH, RegistersBank0::GyroXOutL, ScaleSource::Gyro, gyro_all);
    lemma_axis_steps(RegistersBank0::GyroYOutH, RegistersBank0::GyroYOutL, ScaleSource::Gyro, gyro_all);
    lemma_axis_steps(RegistersBank0::GyroZOutH, RegistersBank0::GyroZOutL, ScaleSource::Gyro, gyro_all);
    lemma_every_concat(pg, gxs, sg);
    lemma_every_concat(pg, gys, sg);
    lemma_every_concat(pg, gzs, sg);
    lemma_every_concat(pg + gxs, pg + gys, sg);
    lemma_every_concat(pg + gxs + (pg + gys), pg + gzs, sg);
    lemma_every_concat(pg, gxs, addresses_in(gyro_all));
    lemma_every_concat(pg, gys, addresses_in(gyro_all));
    lemma_every_concat(pg, gzs, addresses_in(gyro_all));
    lemma_every_concat(pg + gxs, pg + gys, addresses_in(gyro_all));
    lemma_every_concat(pg + gxs + (pg + gys), pg + gzs, addresses_in(gyro_all));
}


proof fn lemma_set_sen_steps(reg: RegistersBank2, code: u8, tail: Seq<SpiStep>, allowed: Set<u8>)
    requires
        code < 4,
        allowed.contains(0x7Fu8),
        allowed.contains(wire_addr(reg.offset(), READ_REG)),
        allowed.contains(wire_addr(reg.offset(), WRITE_REG)),
        every_step(tail, addresses_in(allowed)),
        every_step(tail, updates_write_field(FS_SEL_MASK, code << 1u8)),
    ensures
        every_step(in_bank2(rmw_seg(reg, 2, fs_update(code)), tail), addresses_in(allowed)),
        every_step(in_bank2(rmw_seg(reg, 2, fs_update(code)), tail), updates_write_field(FS_SEL_MASK, code << 1u8)),
{
    let a = addresses_in(allowed);
    let f = updates_write_field(FS_SEL_MASK, code << 1u8);
    let rmw = rmw_seg(reg, 2, fs_update(code));
    assert forall|x: u8| #[trigger] fs_update(code).spec_apply(x) == with_field(x, FS_SEL_MASK, code << 1u8) by {
        crate::settings::lemma_fs_update(code, x);
    }
    let b2 = bank_seg(REG_BANK_2);
    let b0 = bank_seg(REG_BANK_0);
    assert forall|i: int| 0 <= i < b2.len() implies #[trigger] a(b2[i]) && f(b2[i]) by {}
    assert forall|i: int| 0 <= i < b0.len() implies #[trigger] a(b0[i]) && f(b0[i]) by {}
    assert forall|i: int| 0 <= i < rmw.len() implies #[trigger] a(rmw[i]) && f(rmw[i]) by {}
    assert(every_step(b2, a) && every_step(b2, f));
    assert(every_step(b0, a) && every_step(b0, f));
    assert(every_step(rmw, a) && every_step(rmw, f));
    lemma_every_in_bank2(rmw, tail, a);
    lemma_every_in_bank2(rmw, tail, f);
}

/// Selecting the accelerometer's range writes nothing but the bank select
/// register and `ACCEL_CONFIG` (`0x14`, read as `0x94`), and the value it
/// writes back replaces the full-scale bits 2:1 by the range's code and
/// keeps every other bit; selecting the gyroscope's range does the same
/// with `GYRO_CONFIG_1` (`0x01`, read as `0x81`).
pub proof fn lemma_set_sen_targets(acc: AccSensitivity, gyro: GyroSensitivity)
    ensures
        every_step(set_acc_sen_script(acc), addresses_in(set![0x7Fu8, 0x94u8, 0x14u8])),
        every_step(set_acc_sen_script(acc), updates_write_field(FS_SEL_MASK, acc.fs_code() << 1u8)),
        every_step(set_gyro_sen_script(gyro), addresses_in(set![0x7Fu8, 0x81u8, 0x01u8])),
        every_step(set_gyro_sen_script(gyro), updates_write_field(FS_SEL_MASK, gyro.fs_code() << 1u8)),
{
    crate::settings::lemma_acc_fs_codes(acc, acc);
    crate::settings::lemma_gyro_fs_codes(gyro, gyro);
    let acc_tail = seq![SpiStep::Effect(Effect::AccScale(acc))];
    let gyro_tail = seq![SpiStep::Effect(Effect::GyroScale(gyro))];
    let aa = addresses_in(set![0x7Fu8, 0x94u8, 0x14u8]);
    let ga = addresses_in(set![0x7Fu8, 0x81u8, 0x01u8]);
    let af = updates_write_field(FS_SEL_MASK, acc.fs_code() << 1u8);
    let gf = updates_write_field(FS_SEL_MASK, gyro.fs_code() << 1u8);
    assert(aa(acc_tail[0]) && af(acc_tail[0]));
    assert(ga(gyro_tail[0]) && gf(gyro_tail[0]));
    assert(every_step(acc_tail, aa) && every_step(acc_tail, af));
    assert(every_step(gyro_tail, ga) && every_step(gyro_tail, gf));
    crate::registers::lemma_read_flag_free(RegistersBank2::AccelConfig.offset());
    crate::registers::lemma_read_flag_free(RegistersBank2::GyroConfig1.offset());
    lemma_set_sen_steps(RegistersBank2::AccelConfig, acc.fs_code(), acc_tail, set![0x7Fu8, 0x94u8, 0x14u8]);
    lemma_set_sen_steps(RegistersBank2::GyroConfig1, gyro.fs_code(), gyro_tail, set![0x7Fu8, 0x81u8, 0x01u8]);
}


proof fn lemma_all_steps(script: Seq<SpiStep>, p: spec_fn(SpiStep) -> bool)
    requires
        forall|i: int| 0 <= i < script.len() ==> #[trigger] p(script[i]),
    ensures
        every_step(script, p),
{
}

/// Every other operation addresses only its own registers: the filter
/// settings only `ACCEL_CONFIG` (`0x14`) or `GYRO_CONFIG_1` (`0x01`), the
/// sample rates only the divider registers (`0x10` and `0x11`, or `0x00`),
/// each behind the bank select register; the power operations only
/// `PWR_MGMT_2` (`0x07`), the interrupt operations only `INT_ENABLE_1`
/// (`0x11`), and the identity read only `WHO_AM_I` (`0x00`).  Enabling a
/// filter writes its setting into bits 5:3 and sets bit 0, and keeps the
/// other bits of the register.
pub proof fn lemma_config_targets(acc_bw: AccLPF, gyro_bw: GyroLPF, u: FieldUpdate, hi: u8, lo: u8, div: u8, on: bool)
    ensures
        every_step(acc_config_script(u), addresses_in(set![0x7Fu8, 0x94u8, 0x14u8])),
        every_step(gyro_config_script(u), addresses_in(set![0x7Fu8, 0x81u8, 0x01u8])),
        every_step(acc_config_script(lpf_update(acc_bw.dlpf_code())), updates_write_field(
            DLPF_CFG_MASK | FCHOICE_BIT,
            (acc_bw.dlpf_code() << 3u8) | FCHOICE_BIT,
        )),
        every_step(gyro_config_script(lpf_update(gyro_bw.dlpf_code())), updates_write_field(
            DLPF_CFG_MASK | FCHOICE_BIT,
            (gyro_bw.dlpf_code() << 3u8) | FCHOICE_BIT,
        )),
        every_step(acc_rate_script(hi, lo), addresses_in(set![0x7Fu8, 0x10u8, 0x11u8])),
        every_step(gyro_rate_script(div), addresses_in(set![0x7Fu8, 0x00u8])),
        every_step(enable_acc_script(), addresses_in(set![0x87u8, 0x07u8])),
        every_step(disable_acc_script(), addresses_in(set![0x87u8, 0x07u8])),
        every_step(enable_gyro_script(), addresses_in(set![0x87u8, 0x07u8])),
        every_step(disable_gyro_script(), addresses_in(set![0x87u8, 0x07u8])),
        every_step(int_script(on), addresses_in(set![0x11u8])),
        every_step(wai_script(), addresses_in(set![0x80u8])),
{
    let acc_set = set![0x7Fu8, 0x94u8, 0x14u8];
    let gyro_set = set![0x7Fu8, 0x81u8, 0x01u8];
    let none = Seq::<SpiStep>::empty();
    crate::registers::lemma_read_flag_free(RegistersBank2::AccelConfig.offset());
    crate::registers::lemma_read_flag_free(RegistersBank2::GyroConfig1.offset());
    crate::registers::lemma_read_flag_free(RegistersBank0::PwrMgmt2.offset());
    crate::registers::lemma_read_flag_free(RegistersBank0::Wai.offset());
    crate::settings::lemma_acc_lpf_codes(acc_bw, acc_bw, 0);
    crate::settings::lemma_gyro_lpf_codes(gyro_bw, gyro_bw, 0);
    let sets = seq![acc_set, gyro_set, set![0x7Fu8, 0x10u8, 0x11u8], set![0x7Fu8, 0x00u8]];
    assert forall|k: int| 0 <= k < 4 implies every_step(bank_seg(REG_BANK_2), addresses_in(#[trigger] sets[k]))
        && every_step(bank_seg(REG_BANK_0), addresses_in(sets[k])) && every_step(none, addresses_in(sets[k])) by {
        lemma_all_steps(bank_seg(REG_BANK_2), addresses_in(sets[k]));
        lemma_all_steps(bank_seg(REG_BANK_0), addresses_in(sets[k]));
        lemma_all_steps(none, addresses_in(sets[k]));
    }
    assert(sets[0] == acc_set && sets[1] == gyro_set);
    assert(sets[2] == set![0x7Fu8, 0x10u8, 0x11u8] && sets[3] == set![0x7Fu8, 0x00u8]);
    let acc_rmw = rmw_seg(RegistersBank2::AccelConfig, 0, u);
    let gyro_rmw = rmw_seg(RegistersBank2::GyroConfig1, 0, u);
    lemma_all_steps(acc_rmw, addresses_in(acc_set));
    lemma_all_steps(gyro_rmw, addresses_in(gyro_set));
    lemma_every_in_bank2(acc_rmw, none, addresses_in(acc_set));
    lemma_every_in_bank2(gyro_rmw, none, addresses_in(gyro_set));
    let rate_frame = seq![
        SpiStep::Put { at: 0, byte: wire_addr(RegistersBank2::AccelSmplrtDiv1.offset(), WRITE_REG) },
        SpiStep::Put { at: 1, byte: hi },
        SpiStep::Put { at: 2, byte: wire_addr(RegistersBank2::AccelSmplrtDiv2.offset(), WRITE_REG) },
        SpiStep::Put { at: 3, byte: lo },
        SpiStep::Select,
        SpiStep::Exchange { lo: 0, hi: 4 },
        SpiStep::Deselect,
    ];
    lemma_all_steps(rate_frame, addresses_in(sets[2]));
    lemma_every_in_bank2(rate_frame, none, addresses_in(sets[2]));
    let div_frame = write_seg(wire_addr(RegistersBank2::GyroSmplrtDiv.offset(), WRITE_REG), div);
    lemma_all_steps(div_frame, addresses_in(sets[3]));
    lemma_every_in_bank2(div_frame, none, addresses_in(sets[3]));
    // the filter updates
    let ac = acc_bw.dlpf_code();
    let gc = gyro_bw.dlpf_code();
    let fa = updates_write_field(DLPF_CFG_MASK | FCHOICE_BIT, (ac << 3u8) | FCHOICE_BIT);
    let fg = updates_write_field(DLPF_CFG_MASK | FCHOICE_BIT, (gc << 3u8) | FCHOICE_BIT);
    assert forall|x: u8| #[trigger] lpf_update(ac).spec_apply(x) == with_field(x, DLPF_CFG_MASK | FCHOICE_BIT, (ac << 3u8) | FCHOICE_BIT) by {
        crate::settings::lemma_lpf_update_field(ac, x);
    }
    assert forall|x: u8| #[trigger] lpf_update(gc).spec_apply(x) == with_field(x, DLPF_CFG_MASK | FCHOICE_BIT, (gc << 3u8) | FCHOICE_BIT) by {
        crate::settings::lemma_lpf_update_field(gc, x);
    }
    let ar = rmw_seg(RegistersBank2::AccelConfig, 0, lpf_update(ac));
    let gr = rmw_seg(RegistersBank2::GyroConfig1, 0, lpf_update(gc));
    lemma_all_steps(ar, fa);
    lemma_all_steps(gr, fg);
    lemma_all_steps(bank_seg(REG_BANK_2), fa);
    lemma_all_steps(bank_seg(REG_BANK_0), fa);
    lemma_all_steps(bank_seg(REG_BANK_2), fg);
    lemma_all_steps(bank_seg(REG_BANK_0), fg);
    lemma_all_steps(none, fa);
    lemma_all_steps(none, fg);
    lemma_every_in_bank2(ar, none, fa);
    lemma_every_in_bank2(gr, none, fg);
    // power, interrupt and identity
    let ps = addresses_in(set![0x87u8, 0x07u8]);
    lemma_power_steps(acc_on_update(), Effect::Acc(AccStates::AccOn), ps);
    lemma_power_steps(acc_off_update(), Effect::Acc(AccStates::AccOff), ps);
    lemma_power_steps(gyro_on_update(), Effect::Gyro(GyroStates::GyroOn), ps);
    lemma_power_steps(gyro_off_update(), Effect::Gyro(GyroStates::GyroOff), ps);
    lemma_all_steps(int_script(on), addresses_in(set![0x11u8]));
    lemma_all_steps(wai_script(), addresses_in(set![0x80u8]));
}

} // verus!
