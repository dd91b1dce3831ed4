//! An in-memory radio bus: a behavioural model of an SX1268-class chip
//! just deep enough to exercise the driver without hardware.
//!
//! The model answers reads of its register file, the device-error flags
//! and the status byte on the same full-duplex exchanges the real chip
//! uses, latches register writes when chip select is released, and can be
//! told to hold the busy line high or to fail byte exchanges — globally by
//! index, or for every frame that starts with a chosen opcode.

use vstd::prelude::*;

use crate::bus::{BusEvent, ControlError, RadioBus};

verus! {

/// Opcode of the chip's write-register command, as seen by the model.
const SIM_WRITE_REGISTER: u8 = 0x0D;

/// Opcode of the chip's read-register command, as seen by the model.
const SIM_READ_REGISTER: u8 = 0x1D;

/// Opcode of the chip's get-device-errors command, as seen by the model.
const SIM_GET_DEVICE_ERRORS: u8 = 0x17;

/// Opcode of the chip's clear-device-errors command, as seen by the model.
const SIM_CLR_DEVICE_ERRORS: u8 = 0x07;

/// Opcode of the chip's get-status command, as seen by the model.
const SIM_GET_STATUS: u8 = 0xC0;

/// Opcode of the chip's oscillator-bias command, as seen by the model.
const SIM_SET_TCXO: u8 = 0x97;

/// A simulated radio module on an in-memory bus.
pub struct SimBus {
    /// Every physical action taken, in order.
    pub log: Vec<BusEvent>,
    /// The bytes shifted out in each completed non-empty SPI frame.
    pub frames: Vec<Vec<u8>>,
    /// Bytes shifted so far in the currently open frame.
    pub cur_frame: Vec<u8>,
    /// Whether chip select is currently asserted.
    pub selected: bool,
    /// Register writes in order; the last write to an address wins.
    pub regs: Vec<(u16, u8)>,
    /// The chip's latched device-error flags.
    pub device_errors: u16,
    /// The byte the get-status command returns.
    pub status_byte: u8,
    /// How many further busy polls read the line high.
    pub busy_reads_high: u32,
    /// Fail the byte exchange with this zero-based global index.
    pub fail_at_xfer: Option<u64>,
    /// Fail every byte exchange of a frame that starts with this opcode.
    pub fail_opcode: Option<u8>,
    /// Byte exchanges attempted so far.
    pub xfer_count: u64,
    /// Model a chip whose register file does not latch writes.
    pub ignore_reg_writes: bool,
    /// Model a chip whose crystal oscillator fails to start: the failure
    /// flag latches when the oscillator-bias command is taken.
    pub xosc_fails: bool,
}

impl SimBus {
    /// A quiet chip: busy line low, no errors, every exchange succeeds.
    pub fn new() -> (r: SimBus)
        ensures
            r.events() == Seq::<BusEvent>::empty(),
            r.frames@.len() == 0,
            r.cur_frame@.len() == 0,
            !r.selected,
            r.regs@.len() == 0,
            r.device_errors == 0,
            r.status_byte == 0,
            r.busy_reads_high == 0,
            r.fail_at_xfer is None,
            r.fail_opcode is None,
            r.xfer_count == 0,
            !r.ignore_reg_writes,
            !r.xosc_fails,
    {
        SimBus {
            log: Vec::new(),
            frames: Vec::new(),
            cur_frame: Vec::new(),
            selected: false,
            regs: Vec::new(),
            device_errors: 0,
            status_byte: 0,
            busy_reads_high: 0,
            fail_at_xfer: None,
            fail_opcode: None,
            xfer_count: 0,
            ignore_reg_writes: false,
            xosc_fails: false,
        }
    }

    /// The current value of a register: the last write to the address, or 0.
    pub fn reg_get(&self, addr: u16) -> (v: u8) {
        let mut v: u8 = 0;
        let mut i: usize = 0;
        while i < self.regs.len()
            invariant
                i <= self.regs@.len(),
            decreases self.regs@.len() - i,
        {
            if self.regs[i].0 == addr {
                v = self.regs[i].1;
            }
            i = i + 1;
        }
        v
    }

    /// The byte the chip returns for the next exchange, given what has
    /// been shifted so far in the open frame.
    fn response_byte(&self) -> (v: u8) {
        if !self.selected {
            return 0;
        }
        let n = self.cur_frame.len();
        if n == 0 {
            return 0;
        }
        let op = self.cur_frame[0];
        if op == SIM_READ_REGISTER && n >= 3 {
            let addr: u16 = ((self.cur_frame[1] as u16) << 8) | (self.cur_frame[2] as u16);
            self.reg_get(addr)
        } else if op == SIM_GET_DEVICE_ERRORS {
            let e = self.device_errors;
            if n == 2 {
                assert((e >> 8) < 256) by (bit_vector);
                (e >> 8) as u8
            } else if n == 3 {
                assert((e & 0xFF) < 256) by (bit_vector);
                (e & 0xFF) as u8
            } else {
                0
            }
        } else if op == SIM_GET_STATUS {
            self.status_byte
        } else {
            0
        }
    }

    /// Latch the effects of the frame just closed and archive its bytes.
    fn apply_frame(&mut self)
        ensures
            final(self).log@ == old(self).log@,
    {
        if self.cur_frame.len() >= 1 {
            let op = self.cur_frame[0];
            if op == SIM_WRITE_REGISTER && self.cur_frame.len() >= 4 && !self.ignore_reg_writes {
                let b1 = self.cur_frame[1];
                let b2 = self.cur_frame[2];
                let base: u64 = ((b1 as u64) << 8) | (b2 as u64);
                assert(((b1 as u64) << 8) | (b2 as u64) <= 0xFFFF) by (bit_vector)
                    requires
                        b1 <= 0xFF && b2 <= 0xFF,
                ;
                let mut i: usize = 3;
                while i < self.cur_frame.len()
                    invariant
                        3 <= i,
                        base <= 0xFFFF,
                        self.cur_frame@ == old(self).cur_frame@,
                        self.log@ == old(self).log@,
                    decreases self.cur_frame@.len() - i,
                {
                    let off: u64 = (i - 3) as u64;
                    if off <= 0xFFFF {
                        let a: u64 = base + off;
                        if a <= 0xFFFF {
                            let addr: u16 = a as u16;
                            let v = self.cur_frame[i];
                            self.regs.push((addr, v));
                        }
                    }
                    i = i + 1;
                }
            }
            if op == SIM_CLR_DEVICE_ERRORS {
                self.device_errors = 0;
            }
            if op == SIM_SET_TCXO && self.xosc_fails {
                self.device_errors = self.device_errors | 0x40;
            }
            let mut archived: Vec<u8> = Vec::new();
            let mut j: usize = 0;
            while j < self.cur_frame.len()
                invariant
                    self.cur_frame@ == old(self).cur_frame@,
                    self.log@ == old(self).log@,
                decreases self.cur_frame@.len() - j,
            {
                archived.push(self.cur_frame[j]);
                j = j + 1;
            }
            self.frames.push(archived);
        }
        self.cur_frame = Vec::new();
    }
}

impl RadioBus for SimBus {
    open spec fn events(&self) -> Seq<BusEvent> {
        self.log@
    }

    fn set_nss(&mut self, high: bool) {
        if !high {
            if !self.selected {
                self.selected = true;
                self.cur_frame = Vec::new();
            }
        } else {
            if self.selected {
                self.apply_frame();
                self.selected = false;
            }
        }
        self.log.push(BusEvent::NssSet { high });
    }

    fn set_nrst(&mut self, high: bool) {
        self.log.push(BusEvent::NrstSet { high });
    }

    fn set_txen(&mut self, high: bool) {
        self.log.push(BusEvent::TxenSet { high });
    }

    fn set_rxen(&mut self, high: bool) {
        self.log.push(BusEvent::RxenSet { high });
    }

    fn busy_is_high(&mut self) -> (high: bool) {
        let high = self.busy_reads_high > 0;
        if high {
            self.busy_reads_high = self.busy_reads_high - 1;
        }
        self.log.push(BusEvent::BusyRead { high });
        high
    }

    fn transfer_byte(&mut self, mosi: u8) -> (r: Result<u8, ControlError>) {
        let idx = self.xfer_count;
        if self.xfer_count < u64::MAX {
            self.xfer_count = self.xfer_count + 1;
        }
        let mut fail: bool = false;
        match self.fail_at_xfer {
            Some(n) => {
                if n == idx {
                    fail = true;
                }
            },
            None => {},
        }
        match self.fail_opcode {
            Some(op) => {
                if self.selected && self.cur_frame.len() >= 1 && self.cur_frame[0] == op {
                    fail = true;
                }
            },
            None => {},
        }
        if fail {
            self.log.push(BusEvent::XferFail { mosi });
            return Err(ControlError::SpiError);
        }
        let miso = self.response_byte();
        if self.selected {
            self.cur_frame.push(mosi);
        }
        self.log.push(BusEvent::Xfer { mosi, miso });
        Ok(miso)
    }

    fn delay_ms(&mut self, ms: u32) {
        self.log.push(BusEvent::DelayMs { ms });
    }
}

} // verus!
