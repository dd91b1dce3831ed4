//! The protocol layer: the chip's documented initialization and
//! transmission procedures, sequenced over the transport layer.
//!
//! Every contract is stated against the transaction history of the
//! transport handle: [`init`](Sx1268Driver::init) promises the exact
//! twenty-command configuration trace for a given configuration, and
//! [`transmit`](Sx1268Driver::transmit) promises the exact per-send trace,
//! with the packet parameters cached at initialization reused unchanged
//! except for the payload length.  Both promise that a bus failure aborts
//! the procedure at the failing command and that the antenna-direction
//! lines are never driven against each other and are low again on return.

use vstd::prelude::*;

use crate::bus::{
    antennas_exclusive, appended, extends, lemma_extends_refl, lemma_extends_split,
    lemma_extends_trans, lemma_exclusive_append_neutral, lemma_no_ant_step, lemma_step_events,
    no_antenna_events, read_mosi, rxen_after, txen_after, zero_bytes, BusEvent, Frame, RadioBus,
};
use crate::lora_config::LoRaConfig;
use crate::sx1268_hal::{Sx1268Context, Sx1268HalStatus};

verus! {

/// Opcode: enter standby.
pub const OP_SET_STANDBY: u8 = 0x80;

/// Opcode: start transmitting, with a timeout in chip ticks.
pub const OP_SET_TX: u8 = 0x83;

/// Opcode: select the regulator mode.
pub const OP_SET_REGULATOR_MODE: u8 = 0x96;

/// Opcode: run the calibration selected by a mask.
pub const OP_CALIBRATE: u8 = 0x89;

/// Opcode: configure the power amplifier.
pub const OP_SET_PA_CONFIG: u8 = 0x95;

/// Opcode: select the post-operation fallback mode.
pub const OP_SET_RX_TX_FALLBACK_MODE: u8 = 0x93;

/// Opcode: write registers starting at an address.
pub const OP_WRITE_REGISTER: u8 = 0x0D;

/// Opcode: read registers starting at an address.
pub const OP_READ_REGISTER: u8 = 0x1D;

/// Opcode: write the transmit buffer at an offset.
pub const OP_WRITE_BUFFER: u8 = 0x0E;

/// Opcode: configure the interrupt masks and routing.
pub const OP_SET_DIO_IRQ_PARAMS: u8 = 0x08;

/// Opcode: clear interrupt-status bits.
pub const OP_CLR_IRQ_STATUS: u8 = 0x02;

/// Opcode: enable or disable chip-internal antenna-switch control.
pub const OP_SET_DIO2_AS_RF_SWITCH: u8 = 0x9D;

/// Opcode: enable the crystal-oscillator bias with a voltage and timeout.
pub const OP_SET_DIO3_AS_TCXO: u8 = 0x97;

/// Opcode: set the RF carrier frequency register.
pub const OP_SET_RF_FREQUENCY: u8 = 0x86;

/// Opcode: select the packet type.
pub const OP_SET_PACKET_TYPE: u8 = 0x8A;

/// Opcode: set output power and ramp time.
pub const OP_SET_TX_PARAMS: u8 = 0x8E;

/// Opcode: set the modulation parameters.
pub const OP_SET_MODULATION_PARAMS: u8 = 0x8B;

/// Opcode: set the packet parameters.
pub const OP_SET_PACKET_PARAMS: u8 = 0x8C;

/// Opcode: read the latched device-error flags.
pub const OP_GET_DEVICE_ERRORS: u8 = 0x17;

/// Opcode: clear the latched device-error flags.
pub const OP_CLR_DEVICE_ERRORS: u8 = 0x07;

/// Opcode: read the status byte.
pub const OP_GET_STATUS: u8 = 0xC0;

/// Opcode: set the transmit and receive buffer base addresses.
pub const OP_SET_BUFFER_BASE_ADDRESS: u8 = 0x8F;

/// The byte written to the scratch register during the self test.
pub const SELF_TEST_VALUE: u8 = 0xA5;

/// The oscillator-start-failure bit of the device-error flags.
pub const XOSC_START_ERR: u16 = 0x40;

/// The chip's crystal frequency in Hz.
pub const CRYSTAL_HZ: u32 = 32_000_000;

/// The highest carrier frequency the module's band covers, in Hz.
pub const MAX_FREQUENCY_HZ: u32 = 510_000_000;

/// Timeout handed to the set-TX command, in chip ticks of 15.625 us
/// (about 156 ms), enough to cover the longest configured time on air.
pub const TX_TIMEOUT_TICKS: u32 = 0x2710;

/// Fixed wait after starting a transmission, substituting for
/// transmit-done detection.  A known approximation: under worst-case
/// parameters the chip may still be transmitting when it elapses.
pub const TX_COMPLETION_DELAY_MS: u32 = 100;

/// Ramp time code for 40 us.
pub const RAMP_40_US: u8 = 0x04;

/// The step of a procedure at which a bus transaction can fail.
#[derive(Clone, Copy, Debug, PartialEq, Eq, Structural)]
pub enum Stage {
    /// Clearing the latched device errors.
    ClearDeviceErrors,
    /// Entering standby.
    Standby,
    /// Self test: reading the scratch register's original value.
    SelfTestRead,
    /// Self test: writing the known byte.
    SelfTestWrite,
    /// Self test: reading the byte back.
    SelfTestReadback,
    /// Self test: restoring the original value.
    SelfTestRestore,
    /// Selecting the regulator mode.
    Regulator,
    /// Disabling chip-internal antenna-switch control.
    Dio2RfSwitch,
    /// Enabling the crystal-oscillator bias.
    Tcxo,
    /// Reading the device errors after oscillator start.
    ErrorCheck,
    /// Setting the buffer base addresses.
    BufferBase,
    /// Running calibration.
    Calibrate,
    /// Selecting the packet type.
    PacketType,
    /// Writing the frequency register.
    RfFrequency,
    /// Configuring the power amplifier.
    PaSetup,
    /// Setting output power and ramp time.
    TxParams,
    /// Selecting the fallback mode.
    Fallback,
    /// Setting the modulation parameters.
    Modulation,
    /// Setting the packet parameters.
    PacketParams,
    /// Writing the sync word.
    SyncWord,
    /// Writing the transmit buffer.
    WriteBuffer,
    /// Configuring the interrupt masks.
    IrqParams,
    /// Clearing the interrupt status.
    ClearIrq,
    /// Issuing the set-TX command.
    SetTx,
    /// Reading the status byte.
    StatusRead,
    /// Reading a register.
    RegisterRead,
    /// Writing a register.
    RegisterWrite,
}

/// A hard failure of a driver operation.
#[derive(Clone, Copy, Debug, PartialEq, Eq, Structural)]
pub enum DriverError {
    /// The configuration was rejected before any bus transaction.
    InvalidConfig,
    /// A bus transaction failed at the given stage.
    Bus(Stage),
    /// The scratch-register self test read back the wrong value.
    SelfTest,
    /// The oscillator-start-failure flag was set after enabling the
    /// crystal-oscillator bias.
    OscillatorStart,
}

/// The driver's logical operating state.
#[derive(Clone, Copy, Debug, PartialEq, Eq, Structural)]
pub enum DriverState {
    /// No successful initialization yet; the chip's configuration is
    /// unknown.
    Uninitialized,
    /// Configured and idle in standby; ready to transmit.
    Standby,
}

/// The chip-operating-mode sub-field of a status byte.
pub fn status_mode(status: u8) -> (r: u8)
    ensures
        r == (status >> 4) & 0x07,
{
    (status >> 4) & 0x07
}

/// The last-command-status sub-field of a status byte.
pub fn status_command(status: u8) -> (r: u8)
    ensures
        r == (status >> 1) & 0x07,
{
    (status >> 1) & 0x07
}

/// A 16-bit value as its two big-endian bytes.
pub open spec fn be16(x: u16) -> Seq<u8> {
    seq![(x >> 8) as u8, (x & 0xFF) as u8]
}

/// A 32-bit value as its four big-endian bytes.
pub open spec fn be32(x: u32) -> Seq<u8> {
    seq![
        (x >> 24) as u8,
        ((x >> 16) & 0xFF) as u8,
        ((x >> 8) & 0xFF) as u8,
        (x & 0xFF) as u8,
    ]
}

/// The chip's frequency register for a carrier: `hz * 2^25 / crystal`,
/// rounded down.
pub open spec fn freq_reg(hz: u32) -> u32 {
    ((hz as int) * 0x2000000 / (CRYSTAL_HZ as int)) as u32
}

/// The packet-parameter byte for a CRC flag.
pub open spec fn crc_byte(crc: bool) -> u8 {
    if crc {
        1
    } else {
        0
    }
}

/// The packet-parameter byte for an IQ-invert flag.
pub open spec fn iq_byte(iq: bool) -> u8 {
    if iq {
        1
    } else {
        0
    }
}

/// The packet-parameter byte for a header mode: 0 explicit, 1 implicit.
pub open spec fn header_byte(explicit: bool) -> u8 {
    if explicit {
        0
    } else {
        1
    }
}

/// The low-data-rate-optimization byte: forced on for spreading factors
/// 11 and 12, off below.
pub open spec fn ldro_byte(sf: u8) -> u8 {
    if sf >= 11 {
        1
    } else {
        0
    }
}

/// The bytes of one set-packet-parameters command.
pub open spec fn pkt_params_mosi(
    preamble: u16,
    header: u8,
    payload_len: u8,
    crc: bool,
    iq: bool,
) -> Seq<u8> {
    seq![OP_SET_PACKET_PARAMS] + be16(preamble) + seq![header, payload_len, crc_byte(crc), iq_byte(
        iq,
    )]
}

/// The bytes of the `i`-th scratch-register self-test transaction, given
/// the original value `orig` that the first transaction read back.
pub open spec fn self_test_mosi(orig: u8, i: int) -> Seq<u8> {
    if i == 0 {
        seq![OP_READ_REGISTER, 0x09u8, 0x20u8, 0u8]
    } else if i == 1 {
        seq![OP_WRITE_REGISTER, 0x09u8, 0x20u8, SELF_TEST_VALUE]
    } else if i == 2 {
        seq![OP_READ_REGISTER, 0x09u8, 0x20u8, 0u8]
    } else {
        seq![OP_WRITE_REGISTER, 0x09u8, 0x20u8, orig]
    }
}

/// The stage of the `i`-th self-test transaction.
pub open spec fn self_test_stage(i: int) -> Stage {
    if i == 0 {
        Stage::SelfTestRead
    } else if i == 1 {
        Stage::SelfTestWrite
    } else if i == 2 {
        Stage::SelfTestReadback
    } else {
        Stage::SelfTestRestore
    }
}

/// The scratch byte the self test read first, recovered from its frames.
pub open spec fn self_test_orig(fs: Seq<Frame>) -> u8 {
    if fs.len() >= 1 && fs[0].miso.len() == 4 {
        fs[0].miso[3]
    } else {
        0
    }
}

/// The four completed self-test transactions.
pub open spec fn spi_test_frames(fs: Seq<Frame>) -> bool {
    &&& fs.len() == 4
    &&& forall|i: int|
        0 <= i < 4 ==> (#[trigger] fs[i]).complete() && fs[i].mosi == self_test_mosi(
            self_test_orig(fs),
            i,
        )
}

/// A self test aborted by a bus failure: the completed transactions, then
/// one cut short, and the stage naming it.
pub open spec fn spi_test_failed(fs: Seq<Frame>, st: Stage) -> bool {
    let k = fs.len() - 1;
    let expect = self_test_mosi(self_test_orig(fs), k);
    &&& 1 <= fs.len() <= 4
    &&& forall|i: int|
        0 <= i < k ==> (#[trigger] fs[i]).complete() && fs[i].mosi == self_test_mosi(
            self_test_orig(fs),
            i,
        )
    &&& fs[k].complete()
    &&& fs[k].mosi.len() < expect.len()
    &&& fs[k].mosi == expect.take(fs[k].mosi.len() as int)
    &&& st == self_test_stage(k)
}

/// The bytes of the `i`-th of the twenty initialization commands, given
/// the configuration and the scratch byte `orig` the self test read.
pub open spec fn init_mosi(cfg: LoRaConfig, orig: u8, i: int) -> Seq<u8> {
    if i == 0 {
        seq![OP_CLR_DEVICE_ERRORS, 0u8, 0u8]
    } else if i == 1 {
        seq![OP_SET_STANDBY, 0u8]
    } else if 2 <= i < 6 {
        self_test_mosi(orig, i - 2)
    } else if i == 6 {
        seq![OP_SET_REGULATOR_MODE, 1u8]
    } else if i == 7 {
        seq![OP_SET_DIO2_AS_RF_SWITCH, 0u8]
    } else if i == 8 {
        seq![OP_SET_DIO3_AS_TCXO, 0x07u8] + be16(320) + seq![0u8]
    } else if i == 9 {
        read_mosi(seq![OP_GET_DEVICE_ERRORS, 0u8, 0u8], 2)
    } else if i == 10 {
        seq![OP_SET_BUFFER_BASE_ADDRESS, 0u8, 0u8]
    } else if i == 11 {
        seq![OP_CALIBRATE, 0x7Fu8]
    } else if i == 12 {
        seq![OP_SET_PACKET_TYPE, 1u8]
    } else if i == 13 {
        seq![OP_SET_RF_FREQUENCY] + be32(freq_reg(cfg.frequency.spec_hz()))
    } else if i == 14 {
        seq![
            OP_SET_PA_CONFIG,
            cfg.pa_config.pa_duty_cycle,
            cfg.pa_config.hp_max,
            cfg.pa_config.device_sel,
            cfg.pa_config.pa_lut,
        ]
    } else if i == 15 {
        seq![OP_SET_TX_PARAMS, cfg.tx_power.spec_chip_reg(), RAMP_40_US]
    } else if i == 16 {
        seq![OP_SET_RX_TX_FALLBACK_MODE, 0x40u8]
    } else if i == 17 {
        seq![
            OP_SET_MODULATION_PARAMS,
            cfg.spreading_factor.spec_sf(),
            cfg.bandwidth.spec_reg(),
            cfg.coding_rate.spec_reg(),
            ldro_byte(cfg.spreading_factor.spec_sf()),
        ]
    } else if i == 18 {
        pkt_params_mosi(
            cfg.preamble_length,
            header_byte(cfg.explicit_header),
            0xFF,
            cfg.crc_enabled,
            false,
        )
    } else {
        seq![OP_WRITE_REGISTER, 0x07u8, 0x40u8, cfg.sync_word]
    }
}

/// The stage of the `i`-th initialization command.
pub open spec fn init_stage(i: int) -> Stage {
    if i == 0 {
        Stage::ClearDeviceErrors
    } else if i == 1 {
        Stage::Standby
    } else if 2 <= i < 6 {
        self_test_stage(i - 2)
    } else if i == 6 {
        Stage::Regulator
    } else if i == 7 {
        Stage::Dio2RfSwitch
    } else if i == 8 {
        Stage::Tcxo
    } else if i == 9 {
        Stage::ErrorCheck
    } else if i == 10 {
        Stage::BufferBase
    } else if i == 11 {
        Stage::Calibrate
    } else if i == 12 {
        Stage::PacketType
    } else if i == 13 {
        Stage::RfFrequency
    } else if i == 14 {
        Stage::PaSetup
    } else if i == 15 {
        Stage::TxParams
    } else if i == 16 {
        Stage::Fallback
    } else if i == 17 {
        Stage::Modulation
    } else if i == 18 {
        Stage::PacketParams
    } else {
        Stage::SyncWord
    }
}

/// The scratch byte the self test read, recovered from an initialization
/// trace: the last response byte of the third command.
pub open spec fn init_orig(fs: Seq<Frame>) -> u8 {
    if fs.len() >= 3 && fs[2].miso.len() == 4 {
        fs[2].miso[3]
    } else {
        0
    }
}

/// The first `n` initialization commands were issued exactly as
/// documented, each running to completion.
pub open spec fn init_prefix_ok(cfg: LoRaConfig, fs: Seq<Frame>, n: int) -> bool {
    &&& fs.len() == n
    &&& 0 <= n <= 20
    &&& forall|i: int|
        0 <= i < n ==> (#[trigger] fs[i]).complete() && fs[i].mosi == init_mosi(
            cfg,
            init_orig(fs),
            i,
        )
}

/// An initialization aborted by a bus failure at command `n`: the first
/// `n` commands completed as documented, command `n` was cut short, and
/// nothing was issued past it.
pub open spec fn init_failed(cfg: LoRaConfig, fs: Seq<Frame>, n: int) -> bool {
    let expect = init_mosi(cfg, init_orig(fs), n);
    &&& fs.len() == n + 1
    &&& 0 <= n < 20
    &&& forall|i: int|
        0 <= i < n ==> (#[trigger] fs[i]).complete() && fs[i].mosi == init_mosi(
            cfg,
            init_orig(fs),
            i,
        )
    &&& fs[n].complete()
    &&& fs[n].mosi.len() < expect.len()
    &&& fs[n].mosi == expect.take(fs[n].mosi.len() as int)
}

/// The device-error flags a completed get-device-errors transaction
/// returned.
pub open spec fn device_errors_of(f: Frame) -> u16 {
    (((f.miso[2] as u16) << 8) | (f.miso[3] as u16)) as u16
}

/// Whether a completed get-device-errors transaction reported an
/// oscillator-start failure.
pub open spec fn xosc_failed(f: Frame) -> bool {
    device_errors_of(f) & XOSC_START_ERR != 0
}

/// The bytes of the `i`-th of the seven per-send commands, given the
/// cached packet parameters and the payload.
pub open spec fn tx_mosi(
    preamble: u16,
    header: u8,
    crc: bool,
    iq: bool,
    payload: Seq<u8>,
    i: int,
) -> Seq<u8> {
    if i == 0 {
        seq![OP_SET_STANDBY, 0u8]
    } else if i == 1 {
        seq![OP_WRITE_BUFFER, 0u8] + payload
    } else if i == 2 {
        pkt_params_mosi(preamble, header, payload.len() as u8, crc, iq)
    } else if i == 3 {
        seq![OP_SET_DIO_IRQ_PARAMS] + be16(0x0001) + be16(0x0001) + be16(0x0000) + be16(0x0000)
    } else if i == 4 {
        seq![OP_CLR_IRQ_STATUS] + be16(0xFFFF)
    } else if i == 5 {
        seq![OP_SET_TX] + seq![
            ((TX_TIMEOUT_TICKS >> 16) & 0xFF) as u8,
            ((TX_TIMEOUT_TICKS >> 8) & 0xFF) as u8,
            (TX_TIMEOUT_TICKS & 0xFF) as u8,
        ]
    } else {
        read_mosi(seq![OP_GET_STATUS, 0u8], 1)
    }
}

/// The stage of the `i`-th per-send command.
pub open spec fn tx_stage(i: int) -> Stage {
    if i == 0 {
        Stage::Standby
    } else if i == 1 {
        Stage::WriteBuffer
    } else if i == 2 {
        Stage::PacketParams
    } else if i == 3 {
        Stage::IrqParams
    } else if i == 4 {
        Stage::ClearIrq
    } else {
        Stage::SetTx
    }
}

/// The first `n` per-send commands were issued exactly as documented,
/// each running to completion.
pub open spec fn tx_prefix_ok(
    preamble: u16,
    header: u8,
    crc: bool,
    iq: bool,
    payload: Seq<u8>,
    fs: Seq<Frame>,
    n: int,
) -> bool {
    &&& fs.len() == n
    &&& 0 <= n <= 6
    &&& forall|i: int|
        0 <= i < n ==> (#[trigger] fs[i]).complete() && fs[i].mosi == tx_mosi(
            preamble,
            header,
            crc,
            iq,
            payload,
            i,
        )
}

/// A completed transmission trace: the six commands as documented, then
/// the advisory status read, which may itself have been cut short without
/// failing the send.
pub open spec fn tx_trace_ok(
    preamble: u16,
    header: u8,
    crc: bool,
    iq: bool,
    payload: Seq<u8>,
    fs: Seq<Frame>,
) -> bool {
    let status_expect = tx_mosi(preamble, header, crc, iq, payload, 6);
    &&& fs.len() == 7
    &&& forall|i: int|
        0 <= i < 6 ==> (#[trigger] fs[i]).complete() && fs[i].mosi == tx_mosi(
            preamble,
            header,
            crc,
            iq,
            payload,
            i,
        )
    &&& fs[6].complete()
    &&& fs[6].mosi.len() <= status_expect.len()
    &&& fs[6].mosi == status_expect.take(fs[6].mosi.len() as int)
}

/// A transmission aborted by a bus failure at command `n`: the first `n`
/// commands completed as documented, command `n` was cut short, and
/// nothing was issued past it.
pub open spec fn tx_failed(
    preamble: u16,
    header: u8,
    crc: bool,
    iq: bool,
    payload: Seq<u8>,
    fs: Seq<Frame>,
    n: int,
) -> bool {
    let expect = tx_mosi(preamble, header, crc, iq, payload, n);
    &&& fs.len() == n + 1
    &&& 0 <= n < 6
    &&& forall|i: int|
        0 <= i < n ==> (#[trigger] fs[i]).complete() && fs[i].mosi == tx_mosi(
            preamble,
            header,
            crc,
            iq,
            payload,
            i,
        )
    &&& fs[n].complete()
    &&& fs[n].mosi.len() < expect.len()
    &&& fs[n].mosi == expect.take(fs[n].mosi.len() as int)
}

/// The last ten initialization commands, counted from their own start;
/// none of them depends on the self test's readback byte.
pub open spec fn init_tail_ok(cfg: LoRaConfig, fs: Seq<Frame>, n: int) -> bool {
    &&& fs.len() == n
    &&& 0 <= n <= 10
    &&& forall|i: int|
        0 <= i < n ==> (#[trigger] fs[i]).complete() && fs[i].mosi == init_mosi(cfg, 0, 10 + i)
}

/// The last ten initialization commands aborted by the bus at local
/// command `n`.
pub open spec fn init_tail_failed(cfg: LoRaConfig, fs: Seq<Frame>, n: int) -> bool {
    let expect = init_mosi(cfg, 0, 10 + n);
    &&& fs.len() == n + 1
    &&& 0 <= n < 10
    &&& forall|i: int|
        0 <= i < n ==> (#[trigger] fs[i]).complete() && fs[i].mosi == init_mosi(cfg, 0, 10 + i)
    &&& fs[n].complete()
    &&& fs[n].mosi.len() < expect.len()
    &&& fs[n].mosi == expect.take(fs[n].mosi.len() as int)
}

/// The radio driver: the transport handle and the packet parameters
/// cached at initialization so that each send only rewrites the payload
/// length.
pub struct Sx1268Driver<B: RadioBus> {
    /// The transport handle, owned for the driver's whole lifetime.
    pub hal: Sx1268Context<B>,
    /// Cached preamble length in symbols.
    pub preamble_length: u16,
    /// Cached header-type byte: 0 explicit, 1 implicit.
    pub header_type: u8,
    /// Cached CRC flag.
    pub crc_enabled: bool,
    /// Cached IQ-invert flag; the driver always configures it off.
    pub invert_iq: bool,
    /// The driver's logical operating state.
    pub state: DriverState,
    /// The chip status byte read back after the last set-TX command, if
    /// that advisory read succeeded.
    pub last_status: Option<u8>,
}

impl<B: RadioBus> Sx1268Driver<B> {
    /// The history of physical actions on the underlying bus.
    pub open spec fn events(&self) -> Seq<BusEvent> {
        self.hal.events()
    }

    /// The framed transactions issued so far.
    pub open spec fn cmds(&self) -> Seq<Frame> {
        self.hal.cmds()
    }

    /// The driver at rest: the antenna-direction enables were never
    /// driven against each other and both are low.
    pub open spec fn wf(&self) -> bool {
        &&& antennas_exclusive(self.events())
        &&& txen_after(self.events()) == false
        &&& rxen_after(self.events()) == false
    }

    /// One command was issued through the transport: the history grew by
    /// exactly one transaction holding `mosi` (or a prefix of it when the
    /// bus failed at stage `st`), no antenna line moved, and the driver's
    /// own fields are untouched.
    pub open spec fn cmd_result(
        pre: Self,
        post: Self,
        mosi: Seq<u8>,
        r: Result<(), DriverError>,
        st: Stage,
    ) -> bool {
        &&& extends(pre.events(), post.events())
        &&& no_antenna_events(appended(pre.events(), post.events()))
        &&& post.cmds().len() == pre.cmds().len() + 1
        &&& post.cmds().drop_last() == pre.cmds()
        &&& post.cmds().last().complete()
        &&& post.preamble_length == pre.preamble_length
        &&& post.header_type == pre.header_type
        &&& post.crc_enabled == pre.crc_enabled
        &&& post.invert_iq == pre.invert_iq
        &&& post.state == pre.state
        &&& post.last_status == pre.last_status
        &&& match r {
            Ok(()) => post.cmds().last().mosi == mosi,
            Err(e) => {
                &&& e == DriverError::Bus(st)
                &&& post.cmds().last().mosi.len() < mosi.len()
                &&& post.cmds().last().mosi == mosi.take(post.cmds().last().mosi.len() as int)
            },
        }
    }

    /// Take ownership of the transport.  The packet-parameter cache
    /// starts at the values the chip's documentation gives as defaults;
    /// they are rewritten by initialization before they are ever used.
    pub fn new(context: Sx1268Context<B>) -> (r: Self)
        requires
            antennas_exclusive(context.events()),
            txen_after(context.events()) == false,
            rxen_after(context.events()) == false,
        ensures
            r.wf(),
            r.events() == context.events(),
            r.cmds() == context.cmds(),
            r.state == DriverState::Uninitialized,
            r.preamble_length == 8,
            r.header_type == 0,
            r.crc_enabled == true,
            r.invert_iq == false,
            r.last_status is None,
    {
        Sx1268Driver {
            hal: context,
            preamble_length: 8,
            header_type: 0x00,
            crc_enabled: true,
            invert_iq: false,
            state: DriverState::Uninitialized,
            last_status: None,
        }
    }

    /// Initialize the chip for the given configuration: hardware reset,
    /// wakeup, then the documented twenty-command sequence, fail-fast.
    ///
    /// On success the trace is exactly the twenty commands of
    /// [`init_mosi`], the self test read the known byte back, the chip
    /// reported no oscillator-start failure, and the packet parameters
    /// are cached for per-send updates.  On a bus failure the trace stops
    /// inside the failing command and the error names its stage.  An
    /// invalid configuration is rejected before any bus transaction.
    #[verifier::rlimit(100)]
    #[verifier::spinoff_prover]
    pub fn init(&mut self, config: &LoRaConfig) -> (r: Result<(), DriverError>)
        requires
            old(self).wf(),
        ensures
            final(self).wf(),
            extends(old(self).events(), final(self).events()),
            final(self).cmds().take(old(self).cmds().len() as int) == old(self).cmds(),
            final(self).cmds().len() >= old(self).cmds().len(),
            ({
                let fs = final(self).cmds().skip(old(self).cmds().len() as int);
                match r {
                    Ok(()) => {
                        &&& config.valid()
                        &&& init_prefix_ok(*config, fs, 20)
                        &&& fs[4].miso[3] == SELF_TEST_VALUE
                        &&& !xosc_failed(fs[9])
                        &&& final(self).state == DriverState::Standby
                        &&& final(self).preamble_length == config.preamble_length
                        &&& final(self).header_type == header_byte(config.explicit_header)
                        &&& final(self).crc_enabled == config.crc_enabled
                        &&& final(self).invert_iq == false
                    },
                    Err(DriverError::InvalidConfig) => {
                        &&& !config.valid()
                        &&& final(self).events() == old(self).events()
                        &&& fs.len() == 0
                        &&& final(self).state == old(self).state
                    },
                    Err(DriverError::Bus(st)) => {
                        &&& config.valid()
                        &&& init_failed(*config, fs, fs.len() - 1)
                        &&& st == init_stage(fs.len() - 1)
                        &&& final(self).state == DriverState::Uninitialized
                    },
                    Err(DriverError::SelfTest) => {
                        &&& config.valid()
                        &&& init_prefix_ok(*config, fs, 6)
                        &&& fs[4].miso[3] != SELF_TEST_VALUE
                        &&& final(self).state == DriverState::Uninitialized
                    },
                    Err(DriverError::OscillatorStart) => {
                        &&& config.valid()
                        &&& init_prefix_ok(*config, fs, 10)
                        &&& xosc_failed(fs[9])
                        &&& final(self).state == DriverState::Uninitialized
                    },
                }
            }),
    {
        let ghost n0 = self.cmds().len();
        let ghost cfg = *config;
        // reject out-of-range configurations before any bus transaction
        if config.preamble_length < 6 {
            proof {
                assert(self.cmds().skip(n0 as int) =~= Seq::<Frame>::empty());
                assert(self.cmds().take(n0 as int) =~= self.cmds());
            }
            return Err(DriverError::InvalidConfig);
        }
        self.state = DriverState::Uninitialized;
        let ghost ev0 = self.events();
        // reset, wakeup, and the commands through the oscillator check
        let ghost preh = *self;
        let ghost mut fs_head: Seq<Frame> = Seq::empty();
        match self.init_part_one(config) {
            Ok(()) => {
                proof {
                    fs_head = self.cmds().skip(n0 as int);
                }
            },
            Err(e) => {
                return Err(e);
            },
        }
        // buffer bases, calibration, and the radio parameters
        let ghost pret = *self;
        match self.init_part_two(config) {
            Ok(()) => {
                proof {
                    let tail = self.cmds().skip(pret.cmds().len() as int);
                    assert(self.cmds() =~= pret.cmds() + tail);
                    assert(self.cmds().take(n0 as int) =~= old(self).cmds());
                    assert(self.cmds().skip(n0 as int) =~= fs_head + tail);
                    lemma_init_compose(cfg, fs_head, tail);
                    lemma_extends_trans(ev0, pret.events(), self.events());
                }
            },
            Err(e) => {
                proof {
                    let tail = self.cmds().skip(pret.cmds().len() as int);
                    assert(self.cmds() =~= pret.cmds() + tail);
                    assert(self.cmds().take(n0 as int) =~= old(self).cmds());
                    assert(self.cmds().skip(n0 as int) =~= fs_head + tail);
                    match e {
                        DriverError::Bus(st) => {
                            lemma_init_compose_failed(cfg, fs_head, tail, tail.len() - 1);
                        },
                        _ => {
                            assert(false);
                        },
                    }
                    lemma_extends_trans(ev0, pret.events(), self.events());
                }
                return Err(e);
            },
        }
        self.state = DriverState::Standby;
        Ok(())
    }

    /// Send one payload: standby, buffer write, packet-length update with
    /// the cached parameters, interrupt arming and clearing, antenna to
    /// transmit, set-TX, an advisory status readback, a fixed completion
    /// wait, antenna off.
    ///
    /// On success the trace is exactly the seven commands of [`tx_mosi`]:
    /// the payload written byte for byte, the packet parameters cached at
    /// initialization reused with only the length substituted.  A bus
    /// failure aborts at the failing command; on every exit path the
    /// antenna-direction lines are low again, and they were never driven
    /// against each other.  The fixed completion wait is an approximation:
    /// under worst-case parameters the chip may still be transmitting when
    /// this returns.
    #[verifier::rlimit(100)]
    #[verifier::spinoff_prover]
    pub fn transmit(&mut self, data: &[u8]) -> (r: Result<(), DriverError>)
        requires
            old(self).wf(),
            old(self).state == DriverState::Standby,
            data@.len() <= 255,
        ensures
            final(self).wf(),
            extends(old(self).events(), final(self).events()),
            final(self).cmds().take(old(self).cmds().len() as int) == old(self).cmds(),
            final(self).cmds().len() >= old(self).cmds().len(),
            final(self).state == DriverState::Standby,
            final(self).preamble_length == old(self).preamble_length,
            final(self).header_type == old(self).header_type,
            final(self).crc_enabled == old(self).crc_enabled,
            final(self).invert_iq == old(self).invert_iq,
            txen_after(final(self).events()) == false,
            rxen_after(final(self).events()) == false,
            ({
                let fs = final(self).cmds().skip(old(self).cmds().len() as int);
                let p = old(self).preamble_length;
                let h = old(self).header_type;
                let c = old(self).crc_enabled;
                let q = old(self).invert_iq;
                match r {
                    Ok(()) => {
                        &&& tx_trace_ok(p, h, c, q, data@, fs)
                        &&& (fs[6].mosi.len() == 2 ==> final(self).last_status == Some(
                            fs[6].miso[1],
                        ))
                        &&& (fs[6].mosi.len() < 2 ==> final(self).last_status is None)
                    },
                    Err(DriverError::Bus(st)) => {
                        &&& tx_failed(p, h, c, q, data@, fs, fs.len() - 1)
                        &&& st == tx_stage(fs.len() - 1)
                        &&& final(self).last_status is None
                    },
                    Err(_) => false,
                }
            }),
    {
        self.last_status = None;
        let ghost ev0 = self.events();
        let ghost n0 = self.cmds().len();
        let ghost p = self.preamble_length;
        let ghost h = self.header_type;
        let ghost c = self.crc_enabled;
        let ghost q = self.invert_iq;
        let ghost mut fs: Seq<Frame> = Seq::empty();
        let len8: u8 = data.len() as u8;
        proof {
            lemma_extends_refl(ev0);
            assert(self.cmds().skip(n0 as int) =~= fs);
            assert(self.cmds().take(n0 as int) =~= old(self).cmds());
            assert(tx_prefix_ok(p, h, c, q, data@, fs, 0));
        }
        // standby before touching the buffer
        let ghost pre0 = *self;
        match self.set_standby(0x00) {
            Ok(()) => {
                proof {
                    let f = self.cmds().last();
                    assert(self.cmds() =~= pre0.cmds().push(f));
                    assert(self.cmds().take(n0 as int) =~= old(self).cmds());
                    assert(self.cmds().skip(n0 as int) =~= fs.push(f));
                    assert(f.mosi == tx_mosi(p, h, c, q, data@, 0));
                    lemma_tx_step(p, h, c, q, data@, fs, f, 0);
                    fs = fs.push(f);
                    lemma_step_events(ev0, pre0.events(), self.events());
                }
            },
            Err(e) => {
                proof {
                    let f = self.cmds().last();
                    assert(self.cmds() =~= pre0.cmds().push(f));
                    assert(self.cmds().take(n0 as int) =~= old(self).cmds());
                    assert(self.cmds().skip(n0 as int) =~= fs.push(f));
                    assert(f.mosi == tx_mosi(p, h, c, q, data@, 0).take(f.mosi.len() as int));
                    lemma_tx_fail(p, h, c, q, data@, fs, f, 0);
                    lemma_step_events(ev0, pre0.events(), self.events());
                }
                return Err(e);
            },
        }
        // the payload goes to the buffer at the fixed base offset
        let ghost pre1 = *self;
        match self.write_buffer(0x00, data) {
            Ok(()) => {
                proof {
                    let f = self.cmds().last();
                    assert(self.cmds() =~= pre1.cmds().push(f));
                    assert(self.cmds().take(n0 as int) =~= old(self).cmds());
                    assert(self.cmds().skip(n0 as int) =~= fs.push(f));
                    assert(f.mosi == tx_mosi(p, h, c, q, data@, 1));
                    lemma_tx_step(p, h, c, q, data@, fs, f, 1);
                    fs = fs.push(f);
                    lemma_step_events(ev0, pre1.events(), self.events());
                }
            },
            Err(e) => {
                proof {
                    let f = self.cmds().last();
                    assert(self.cmds() =~= pre1.cmds().push(f));
                    assert(self.cmds().take(n0 as int) =~= old(self).cmds());
                    assert(self.cmds().skip(n0 as int) =~= fs.push(f));
                    assert(f.mosi == tx_mosi(p, h, c, q, data@, 1).take(f.mosi.len() as int));
                    lemma_tx_fail(p, h, c, q, data@, fs, f, 1);
                    lemma_step_events(ev0, pre1.events(), self.events());
                }
                return Err(e);
            },
        }
        // only the payload-length field changes; the rest is the cache
        let ghost pre2 = *self;
        match self.update_packet_length(len8) {
            Ok(()) => {
                proof {
                    let f = self.cmds().last();
                    assert(self.cmds() =~= pre2.cmds().push(f));
                    assert(self.cmds().take(n0 as int) =~= old(self).cmds());
                    assert(self.cmds().skip(n0 as int) =~= fs.push(f));
                    assert(f.mosi == tx_mosi(p, h, c, q, data@, 2));
                    lemma_tx_step(p, h, c, q, data@, fs, f, 2);
                    fs = fs.push(f);
                    lemma_step_events(ev0, pre2.events(), self.events());
                }
            },
            Err(e) => {
                proof {
                    let f = self.cmds().last();
                    assert(self.cmds() =~= pre2.cmds().push(f));
                    assert(self.cmds().take(n0 as int) =~= old(self).cmds());
                    assert(self.cmds().skip(n0 as int) =~= fs.push(f));
                    assert(f.mosi == tx_mosi(p, h, c, q, data@, 2).take(f.mosi.len() as int));
                    lemma_tx_fail(p, h, c, q, data@, fs, f, 2);
                    lemma_step_events(ev0, pre2.events(), self.events());
                }
                return Err(e);
            },
        }
        // arm the transmit-done interrupt
        let ghost pre3 = *self;
        match self.set_dio_irq_params(0x0001, 0x0001, 0x0000, 0x0000) {
            Ok(()) => {
                proof {
                    let f = self.cmds().last();
                    assert(self.cmds() =~= pre3.cmds().push(f));
                    assert(self.cmds().take(n0 as int) =~= old(self).cmds());
                    assert(self.cmds().skip(n0 as int) =~= fs.push(f));
                    assert(f.mosi == tx_mosi(p, h, c, q, data@, 3));
                    lemma_tx_step(p, h, c, q, data@, fs, f, 3);
                    fs = fs.push(f);
                    lemma_step_events(ev0, pre3.events(), self.events());
                }
            },
            Err(e) => {
                proof {
                    let f = self.cmds().last();
                    assert(self.cmds() =~= pre3.cmds().push(f));
                    assert(self.cmds().take(n0 as int) =~= old(self).cmds());
                    assert(self.cmds().skip(n0 as int) =~= fs.push(f));
                    assert(f.mosi == tx_mosi(p, h, c, q, data@, 3).take(f.mosi.len() as int));
                    lemma_tx_fail(p, h, c, q, data@, fs, f, 3);
                    lemma_step_events(ev0, pre3.events(), self.events());
                }
                return Err(e);
            },
        }
        // clear any pending interrupt status
        let ghost pre4 = *self;
        match self.clear_irq_status(0xFFFF) {
            Ok(()) => {
                proof {
                    let f = self.cmds().last();
                    assert(self.cmds() =~= pre4.cmds().push(f));
                    assert(self.cmds().take(n0 as int) =~= old(self).cmds());
                    assert(self.cmds().skip(n0 as int) =~= fs.push(f));
                    assert(f.mosi == tx_mosi(p, h, c, q, data@, 4));
                    lemma_tx_step(p, h, c, q, data@, fs, f, 4);
                    fs = fs.push(f);
                    lemma_step_events(ev0, pre4.events(), self.events());
                }
            },
            Err(e) => {
                proof {
                    let f = self.cmds().last();
                    assert(self.cmds() =~= pre4.cmds().push(f));
                    assert(self.cmds().take(n0 as int) =~= old(self).cmds());
                    assert(self.cmds().skip(n0 as int) =~= fs.push(f));
                    assert(f.mosi == tx_mosi(p, h, c, q, data@, 4).take(f.mosi.len() as int));
                    lemma_tx_fail(p, h, c, q, data@, fs, f, 4);
                    lemma_step_events(ev0, pre4.events(), self.events());
                }
                return Err(e);
            },
        }
        // route the antenna for transmit
        let ghost pre_sw = *self;
        let _ = self.hal.rf_switch_tx();
        proof {
            lemma_extends_trans(ev0, pre_sw.events(), self.events());
        }
        // start transmitting, with the bounded timeout
        let ghost pre5 = *self;
        match self.set_tx(TX_TIMEOUT_TICKS) {
            Ok(()) => {
                proof {
                    let f = self.cmds().last();
                    assert(self.cmds() =~= pre5.cmds().push(f));
                    assert(self.cmds().take(n0 as int) =~= old(self).cmds());
                    assert(self.cmds().skip(n0 as int) =~= fs.push(f));
                    assert(f.mosi == tx_mosi(p, h, c, q, data@, 5));
                    lemma_tx_step(p, h, c, q, data@, fs, f, 5);
                    fs = fs.push(f);
                    lemma_extends_split(pre5.events(), self.events());
                    lemma_exclusive_append_neutral(
                        pre5.events(),
                        appended(pre5.events(), self.events()),
                    );
                    lemma_extends_trans(ev0, pre5.events(), self.events());
                }
            },
            Err(e) => {
                proof {
                    let f = self.cmds().last();
                    assert(self.cmds() =~= pre5.cmds().push(f));
                    assert(self.cmds().take(n0 as int) =~= old(self).cmds());
                    assert(self.cmds().skip(n0 as int) =~= fs.push(f));
                    assert(f.mosi == tx_mosi(p, h, c, q, data@, 5).take(f.mosi.len() as int));
                    lemma_tx_fail(p, h, c, q, data@, fs, f, 5);
                    lemma_extends_split(pre5.events(), self.events());
                    lemma_exclusive_append_neutral(
                        pre5.events(),
                        appended(pre5.events(), self.events()),
                    );
                    lemma_extends_trans(ev0, pre5.events(), self.events());
                }
                // release the antenna before surfacing the failure
                let ghost pre_off = *self;
                let _ = self.hal.rf_switch_off();
                proof {
                    assert(self.cmds().take(n0 as int) =~= old(self).cmds());
                    lemma_extends_trans(ev0, pre_off.events(), self.events());
                }
                return Err(e);
            },
        }
        // advisory status readback: a mismatch or failure here does not
        // fail the send
        let ghost pre6 = *self;
        let ghost mut f6: Frame = Frame { mosi: Seq::empty(), miso: Seq::empty() };
        match self.get_status() {
            Ok(s) => {
                self.last_status = Some(s);
                proof {
                    f6 = self.cmds().last();
                    let fs7 = fs.push(f6);
                    assert(self.cmds() =~= pre6.cmds().push(f6));
                    assert(self.cmds().take(n0 as int) =~= old(self).cmds());
                    assert(self.cmds().skip(n0 as int) =~= fs7);
                    assert(f6.complete());
                    assert(f6.mosi == tx_mosi(p, h, c, q, data@, 6));
                    assert(f6.mosi.len() == 2);
                    assert(f6.mosi == tx_mosi(p, h, c, q, data@, 6).take(f6.mosi.len() as int))
                        by {
                        assert(tx_mosi(p, h, c, q, data@, 6).take(2) =~= tx_mosi(
                            p,
                            h,
                            c,
                            q,
                            data@,
                            6,
                        ));
                    };
                    assert(self.last_status == Some(f6.miso[1]));
                    assert forall|i: int| 0 <= i < 6 implies (#[trigger] fs7[i]).complete()
                        && fs7[i].mosi == tx_mosi(p, h, c, q, data@, i) by {
                        assert(fs7[i] == fs[i]);
                    }
                    assert(fs7[6] == f6);
                    assert(tx_trace_ok(p, h, c, q, data@, fs7));
                    fs = fs7;
                    lemma_extends_split(pre6.events(), self.events());
                    lemma_exclusive_append_neutral(
                        pre6.events(),
                        appended(pre6.events(), self.events()),
                    );
                    lemma_extends_trans(ev0, pre6.events(), self.events());
                }
            },
            Err(_) => {
                self.last_status = None;
                proof {
                    f6 = self.cmds().last();
                    let fs7 = fs.push(f6);
                    assert(self.cmds() =~= pre6.cmds().push(f6));
                    assert(self.cmds().take(n0 as int) =~= old(self).cmds());
                    assert(self.cmds().skip(n0 as int) =~= fs7);
                    assert(f6.complete());
                    assert(f6.mosi.len() < 2);
                    assert(f6.mosi == tx_mosi(p, h, c, q, data@, 6).take(f6.mosi.len() as int));
                    assert forall|i: int| 0 <= i < 6 implies (#[trigger] fs7[i]).complete()
                        && fs7[i].mosi == tx_mosi(p, h, c, q, data@, i) by {
                        assert(fs7[i] == fs[i]);
                    }
                    assert(fs7[6] == f6);
                    assert(tx_trace_ok(p, h, c, q, data@, fs7));
                    fs = fs7;
                    lemma_extends_split(pre6.events(), self.events());
                    lemma_exclusive_append_neutral(
                        pre6.events(),
                        appended(pre6.events(), self.events()),
                    );
                    lemma_extends_trans(ev0, pre6.events(), self.events());
                }
            },
        }
        // fixed completion wait, standing in for transmit-done detection
        let ghost pre_d = *self;
        self.hal.delay(TX_COMPLETION_DELAY_MS);
        proof {
            assert(self.cmds().take(n0 as int) =~= old(self).cmds());
            lemma_extends_split(pre_d.events(), self.events());
            lemma_exclusive_append_neutral(pre_d.events(), appended(pre_d.events(), self.events()));
            lemma_extends_trans(ev0, pre_d.events(), self.events());
        }
        // release the antenna
        let ghost pre_off = *self;
        let _ = self.hal.rf_switch_off();
        proof {
            assert(self.cmds().take(n0 as int) =~= old(self).cmds());
            lemma_extends_trans(ev0, pre_off.events(), self.events());
        }
        Ok(())
    }

    /// The first half of initialization: hardware reset, wakeup, then
    /// the commands through the oscillator-start check, fail-fast.
    #[verifier::rlimit(100)]
    #[verifier::spinoff_prover]
    fn init_part_one(&mut self, config: &LoRaConfig) -> (r: Result<(), DriverError>)
        requires
            antennas_exclusive(old(self).events()),
            txen_after(old(self).events()) == false,
            rxen_after(old(self).events()) == false,
        ensures
            antennas_exclusive(final(self).events()),
            txen_after(final(self).events()) == false,
            rxen_after(final(self).events()) == false,
            extends(old(self).events(), final(self).events()),
            final(self).cmds().take(old(self).cmds().len() as int) == old(self).cmds(),
            final(self).cmds().len() >= old(self).cmds().len(),
            final(self).preamble_length == old(self).preamble_length,
            final(self).header_type == old(self).header_type,
            final(self).crc_enabled == old(self).crc_enabled,
            final(self).invert_iq == old(self).invert_iq,
            final(self).state == old(self).state,
            final(self).last_status == old(self).last_status,
            ({
                let fs = final(self).cmds().skip(old(self).cmds().len() as int);
                let cfg = *config;
                match r {
                    Ok(()) => {
                        &&& init_prefix_ok(cfg, fs, 10)
                        &&& fs[4].miso[3] == SELF_TEST_VALUE
                        &&& !xosc_failed(fs[9])
                    },
                    Err(DriverError::Bus(st)) => {
                        &&& init_failed(cfg, fs, fs.len() - 1)
                        &&& st == init_stage(fs.len() - 1)
                    },
                    Err(DriverError::SelfTest) => {
                        &&& init_prefix_ok(cfg, fs, 6)
                        &&& fs[4].miso[3] != SELF_TEST_VALUE
                    },
                    Err(DriverError::OscillatorStart) => {
                        &&& init_prefix_ok(cfg, fs, 10)
                        &&& xosc_failed(fs[9])
                    },
                    Err(_) => false,
                }
            }),
    {
        let ghost ev0 = self.events();
        let ghost n0 = self.cmds().len();
        let ghost cfg = *config;
        let ghost mut fs: Seq<Frame> = Seq::empty();
        let ghost mut st_rb: Frame = Frame { mosi: Seq::empty(), miso: Seq::empty() };
        proof {
            lemma_extends_refl(ev0);
            assert(self.cmds().skip(n0 as int) =~= fs);
            assert(self.cmds().take(n0 as int) =~= old(self).cmds());
            assert(init_prefix_ok(cfg, fs, 0));
        }
        // hardware reset, then wakeup
        let ghost pre_r = *self;
        let _ = self.hal.reset();
        proof {
            lemma_step_events(ev0, pre_r.events(), self.events());
        }
        let ghost pre_w = *self;
        let _ = self.hal.wakeup();
        proof {
            lemma_step_events(ev0, pre_w.events(), self.events());
        }
        // clear latched device errors
        let ghost pre0 = *self;
        match self.clear_device_errors() {
            Ok(()) => {
                proof {
                    let f = self.cmds().last();
                    assert(self.cmds() =~= pre0.cmds().push(f));
                    assert(self.cmds().take(n0 as int) =~= old(self).cmds());
                    assert(self.cmds().skip(n0 as int) =~= fs.push(f));
                    assert(f.mosi == init_mosi(cfg, init_orig(fs.push(f)), 0));
                    lemma_init_step(cfg, fs, f, 0);
                    fs = fs.push(f);
                    lemma_step_events(ev0, pre0.events(), self.events());
                }
            },
            Err(e) => {
                proof {
                    let f = self.cmds().last();
                    assert(self.cmds() =~= pre0.cmds().push(f));
                    assert(self.cmds().take(n0 as int) =~= old(self).cmds());
                    assert(self.cmds().skip(n0 as int) =~= fs.push(f));
                    assert(f.mosi == init_mosi(cfg, init_orig(fs.push(f)), 0).take(f.mosi.len() as int));
                    lemma_init_fail(cfg, fs, f, 0);
                    lemma_step_events(ev0, pre0.events(), self.events());
                }
                return Err(e);
            },
        }
        // standby on the RC oscillator
        let ghost pre1 = *self;
        match self.set_standby(0x00) {
            Ok(()) => {
                proof {
                    let f = self.cmds().last();
                    assert(self.cmds() =~= pre1.cmds().push(f));
                    assert(self.cmds().take(n0 as int) =~= old(self).cmds());
                    assert(self.cmds().skip(n0 as int) =~= fs.push(f));
                    assert(f.mosi == init_mosi(cfg, init_orig(fs.push(f)), 1));
                    lemma_init_step(cfg, fs, f, 1);
                    fs = fs.push(f);
                    lemma_step_events(ev0, pre1.events(), self.events());
                }
            },
            Err(e) => {
                proof {
                    let f = self.cmds().last();
                    assert(self.cmds() =~= pre1.cmds().push(f));
                    assert(self.cmds().take(n0 as int) =~= old(self).cmds());
                    assert(self.cmds().skip(n0 as int) =~= fs.push(f));
                    assert(f.mosi == init_mosi(cfg, init_orig(fs.push(f)), 1).take(f.mosi.len() as int));
                    lemma_init_fail(cfg, fs, f, 1);
                    lemma_step_events(ev0, pre1.events(), self.events());
                }
                return Err(e);
            },
        }
        // bus self test on the scratch register
        let ghost pre2 = *self;
        match self.spi_test() {
            Ok(()) => {
                proof {
                    let chunk = self.cmds().skip(pre2.cmds().len() as int);
                    assert(self.cmds() =~= pre2.cmds() + chunk);
                    assert(self.cmds().take(n0 as int) =~= old(self).cmds());
                    assert(self.cmds().skip(n0 as int) =~= fs + chunk);
                    lemma_init_merge(cfg, fs, chunk);
                    fs = fs + chunk;
                    st_rb = chunk[2];
                    assert(fs[4] == st_rb);
                    assert(st_rb.miso[3] == SELF_TEST_VALUE);
                    lemma_step_events(ev0, pre2.events(), self.events());
                }
            },
            Err(e) => {
                proof {
                    let chunk = self.cmds().skip(pre2.cmds().len() as int);
                    assert(self.cmds() =~= pre2.cmds() + chunk);
                    assert(self.cmds().take(n0 as int) =~= old(self).cmds());
                    assert(self.cmds().skip(n0 as int) =~= fs + chunk);
                    lemma_step_events(ev0, pre2.events(), self.events());
                    match e {
                        DriverError::SelfTest => {
                            lemma_init_merge(cfg, fs, chunk);
                            assert((fs + chunk)[4] == chunk[2]);
                        },
                        DriverError::Bus(st) => {
                            lemma_init_merge_failed(cfg, fs, chunk, st);
                        },
                        _ => {
                            assert(false);
                        },
                    }
                }
                return Err(e);
            },
        }
        // internal DC-DC regulator
        let ghost pre6 = *self;
        match self.set_regulator_mode(0x01) {
            Ok(()) => {
                proof {
                    let f = self.cmds().last();
                    assert(self.cmds() =~= pre6.cmds().push(f));
                    assert(self.cmds().take(n0 as int) =~= old(self).cmds());
                    assert(self.cmds().skip(n0 as int) =~= fs.push(f));
                    assert(f.mosi == init_mosi(cfg, init_orig(fs.push(f)), 6));
                    lemma_init_step(cfg, fs, f, 6);
                    fs = fs.push(f);
                    assert(fs[4] == st_rb);
                    lemma_step_events(ev0, pre6.events(), self.events());
                }
            },
            Err(e) => {
                proof {
                    let f = self.cmds().last();
                    assert(self.cmds() =~= pre6.cmds().push(f));
                    assert(self.cmds().take(n0 as int) =~= old(self).cmds());
                    assert(self.cmds().skip(n0 as int) =~= fs.push(f));
                    assert(f.mosi == init_mosi(cfg, init_orig(fs.push(f)), 6).take(f.mosi.len() as int));
                    lemma_init_fail(cfg, fs, f, 6);
                    lemma_step_events(ev0, pre6.events(), self.events());
                }
                return Err(e);
            },
        }
        // the external antenna-direction lines are used, not the chip's
        let ghost pre7 = *self;
        match self.set_dio2_as_rf_switch(false) {
            Ok(()) => {
                proof {
                    let f = self.cmds().last();
                    assert(self.cmds() =~= pre7.cmds().push(f));
                    assert(self.cmds().take(n0 as int) =~= old(self).cmds());
                    assert(self.cmds().skip(n0 as int) =~= fs.push(f));
                    assert(f.mosi == init_mosi(cfg, init_orig(fs.push(f)), 7));
                    lemma_init_step(cfg, fs, f, 7);
                    fs = fs.push(f);
                    assert(fs[4] == st_rb);
                    lemma_step_events(ev0, pre7.events(), self.events());
                }
            },
            Err(e) => {
                proof {
                    let f = self.cmds().last();
                    assert(self.cmds() =~= pre7.cmds().push(f));
                    assert(self.cmds().take(n0 as int) =~= old(self).cmds());
                    assert(self.cmds().skip(n0 as int) =~= fs.push(f));
                    assert(f.mosi == init_mosi(cfg, init_orig(fs.push(f)), 7).take(f.mosi.len() as int));
                    lemma_init_fail(cfg, fs, f, 7);
                    lemma_step_events(ev0, pre7.events(), self.events());
                }
                return Err(e);
            },
        }
        // crystal-oscillator bias: 3.3 V, 10 ms stabilization timeout
        let ghost pre8 = *self;
        match self.set_dio3_as_tcxo(0x07, 320) {
            Ok(()) => {
                proof {
                    let f = self.cmds().last();
                    assert(self.cmds() =~= pre8.cmds().push(f));
                    assert(self.cmds().take(n0 as int) =~= old(self).cmds());
                    assert(self.cmds().skip(n0 as int) =~= fs.push(f));
                    assert(f.mosi == init_mosi(cfg, init_orig(fs.push(f)), 8));
                    lemma_init_step(cfg, fs, f, 8);
                    fs = fs.push(f);
                    assert(fs[4] == st_rb);
                    lemma_step_events(ev0, pre8.events(), self.events());
                }
            },
            Err(e) => {
                proof {
                    let f = self.cmds().last();
                    assert(self.cmds() =~= pre8.cmds().push(f));
                    assert(self.cmds().take(n0 as int) =~= old(self).cmds());
                    assert(self.cmds().skip(n0 as int) =~= fs.push(f));
                    assert(f.mosi == init_mosi(cfg, init_orig(fs.push(f)), 8).take(f.mosi.len() as int));
                    lemma_init_fail(cfg, fs, f, 8);
                    lemma_step_events(ev0, pre8.events(), self.events());
                }
                return Err(e);
            },
        }
        // the oscillator must have started
        let ghost pre9 = *self;
        match self.check_xosc_start() {
            Ok(()) => {
                proof {
                    let f = self.cmds().last();
                    assert(self.cmds() =~= pre9.cmds().push(f));
                    assert(self.cmds().take(n0 as int) =~= old(self).cmds());
                    assert(self.cmds().skip(n0 as int) =~= fs.push(f));
                    assert(f.mosi == init_mosi(cfg, init_orig(fs.push(f)), 9));
                    lemma_init_step(cfg, fs, f, 9);
                    fs = fs.push(f);
                    assert(fs[4] == st_rb);
                    assert(fs[9] == f);
                    assert(!xosc_failed(f));
                    lemma_step_events(ev0, pre9.events(), self.events());
                }
            },
            Err(e) => {
                proof {
                    let f = self.cmds().last();
                    assert(self.cmds() =~= pre9.cmds().push(f));
                    assert(self.cmds().take(n0 as int) =~= old(self).cmds());
                    assert(self.cmds().skip(n0 as int) =~= fs.push(f));
                    lemma_step_events(ev0, pre9.events(), self.events());
                    match e {
                        DriverError::OscillatorStart => {
                            assert(f.mosi == init_mosi(cfg, init_orig(fs.push(f)), 9));
                            lemma_init_step(cfg, fs, f, 9);
                            assert(fs.push(f)[9] == f);
                            assert(fs.push(f)[4] == st_rb);
                        },
                        DriverError::Bus(st) => {
                            assert(f.mosi == init_mosi(cfg, init_orig(fs.push(f)), 9).take(
                                f.mosi.len() as int,
                            ));
                            lemma_init_fail(cfg, fs, f, 9);
                        },
                        _ => {
                            assert(false);
                        },
                    }
                }
                return Err(e);
            },
        }
        Ok(())
    }

    /// The second half of initialization: buffer bases, calibration, and
    /// the radio parameters from the configuration, fail-fast.
    #[verifier::rlimit(100)]
    #[verifier::spinoff_prover]
    fn init_part_two(&mut self, config: &LoRaConfig) -> (r: Result<(), DriverError>)
        requires
            antennas_exclusive(old(self).events()),
            txen_after(old(self).events()) == false,
            rxen_after(old(self).events()) == false,
        ensures
            antennas_exclusive(final(self).events()),
            txen_after(final(self).events()) == false,
            rxen_after(final(self).events()) == false,
            extends(old(self).events(), final(self).events()),
            final(self).cmds().take(old(self).cmds().len() as int) == old(self).cmds(),
            final(self).cmds().len() >= old(self).cmds().len(),
            final(self).state == old(self).state,
            final(self).last_status == old(self).last_status,
            ({
                let fs = final(self).cmds().skip(old(self).cmds().len() as int);
                let cfg = *config;
                match r {
                    Ok(()) => {
                        &&& init_tail_ok(cfg, fs, 10)
                        &&& final(self).preamble_length == config.preamble_length
                        &&& final(self).header_type == header_byte(config.explicit_header)
                        &&& final(self).crc_enabled == config.crc_enabled
                        &&& final(self).invert_iq == false
                    },
                    Err(DriverError::Bus(st)) => {
                        &&& init_tail_failed(cfg, fs, fs.len() - 1)
                        &&& st == init_stage(10 + fs.len() - 1)
                    },
                    Err(_) => false,
                }
            }),
    {
        let ghost ev0 = self.events();
        let ghost n0 = self.cmds().len();
        let ghost cfg = *config;
        let ghost mut fs: Seq<Frame> = Seq::empty();
        proof {
            lemma_extends_refl(ev0);
            assert(self.cmds().skip(n0 as int) =~= fs);
            assert(self.cmds().take(n0 as int) =~= old(self).cmds());
            assert(init_tail_ok(cfg, fs, 0));
        }
        // transmit and receive buffers both start at offset zero
        let ghost pre10 = *self;
        match self.set_buffer_base_address(0x00, 0x00) {
            Ok(()) => {
                proof {
                    let f = self.cmds().last();
                    assert(self.cmds() =~= pre10.cmds().push(f));
                    assert(self.cmds().take(n0 as int) =~= old(self).cmds());
                    assert(self.cmds().skip(n0 as int) =~= fs.push(f));
                    assert(f.mosi == init_mosi(cfg, 0, 10));
                    lemma_tail_step(cfg, fs, f, 0);
                    fs = fs.push(f);
                    lemma_step_events(ev0, pre10.events(), self.events());
                }
            },
            Err(e) => {
                proof {
                    let f = self.cmds().last();
                    assert(self.cmds() =~= pre10.cmds().push(f));
                    assert(self.cmds().take(n0 as int) =~= old(self).cmds());
                    assert(self.cmds().skip(n0 as int) =~= fs.push(f));
                    assert(f.mosi == init_mosi(cfg, 0, 10).take(f.mosi.len() as int));
                    lemma_tail_fail(cfg, fs, f, 0);
                    lemma_step_events(ev0, pre10.events(), self.events());
                }
                return Err(e);
            },
        }
        // full calibration: image, RC oscillators, PLL
        let ghost pre11 = *self;
        match self.calibrate(0x7F) {
            Ok(()) => {
                proof {
                    let f = self.cmds().last();
                    assert(self.cmds() =~= pre11.cmds().push(f));
                    assert(self.cmds().take(n0 as int) =~= old(self).cmds());
                    assert(self.cmds().skip(n0 as int) =~= fs.push(f));
                    assert(f.mosi == init_mosi(cfg, 0, 11));
                    lemma_tail_step(cfg, fs, f, 1);
                    fs = fs.push(f);
                    lemma_step_events(ev0, pre11.events(), self.events());
                }
            },
            Err(e) => {
                proof {
                    let f = self.cmds().last();
                    assert(self.cmds() =~= pre11.cmds().push(f));
                    assert(self.cmds().take(n0 as int) =~= old(self).cmds());
                    assert(self.cmds().skip(n0 as int) =~= fs.push(f));
                    assert(f.mosi == init_mosi(cfg, 0, 11).take(f.mosi.len() as int));
                    lemma_tail_fail(cfg, fs, f, 1);
                    lemma_step_events(ev0, pre11.events(), self.events());
                }
                return Err(e);
            },
        }
        // LoRa packet type
        let ghost pre12 = *self;
        match self.set_packet_type(0x01) {
            Ok(()) => {
                proof {
                    let f = self.cmds().last();
                    assert(self.cmds() =~= pre12.cmds().push(f));
                    assert(self.cmds().take(n0 as int) =~= old(self).cmds());
                    assert(self.cmds().skip(n0 as int) =~= fs.push(f));
                    assert(f.mosi == init_mosi(cfg, 0, 12));
                    lemma_tail_step(cfg, fs, f, 2);
                    fs = fs.push(f);
                    lemma_step_events(ev0, pre12.events(), self.events());
                }
            },
            Err(e) => {
                proof {
                    let f = self.cmds().last();
                    assert(self.cmds() =~= pre12.cmds().push(f));
                    assert(self.cmds().take(n0 as int) =~= old(self).cmds());
                    assert(self.cmds().skip(n0 as int) =~= fs.push(f));
                    assert(f.mosi == init_mosi(cfg, 0, 12).take(f.mosi.len() as int));
                    lemma_tail_fail(cfg, fs, f, 2);
                    lemma_step_events(ev0, pre12.events(), self.events());
                }
                return Err(e);
            },
        }
        // RF carrier frequency
        let freq_hz = config.get_frequency_hz();
        let ghost pre13 = *self;
        match self.set_rf_frequency(freq_hz) {
            Ok(()) => {
                proof {
                    let f = self.cmds().last();
                    assert(self.cmds() =~= pre13.cmds().push(f));
                    assert(self.cmds().take(n0 as int) =~= old(self).cmds());
                    assert(self.cmds().skip(n0 as int) =~= fs.push(f));
                    assert(f.mosi == init_mosi(cfg, 0, 13));
                    lemma_tail_step(cfg, fs, f, 3);
                    fs = fs.push(f);
                    lemma_step_events(ev0, pre13.events(), self.events());
                }
            },
            Err(e) => {
                proof {
                    let f = self.cmds().last();
                    assert(self.cmds() =~= pre13.cmds().push(f));
                    assert(self.cmds().take(n0 as int) =~= old(self).cmds());
                    assert(self.cmds().skip(n0 as int) =~= fs.push(f));
                    assert(f.mosi == init_mosi(cfg, 0, 13).take(f.mosi.len() as int));
                    lemma_tail_fail(cfg, fs, f, 3);
                    lemma_step_events(ev0, pre13.events(), self.events());
                }
                return Err(e);
            },
        }
        // power-amplifier tuning
        let ghost pre14 = *self;
        match self.set_pa_config(
            config.pa_config.pa_duty_cycle,
            config.pa_config.hp_max,
            config.pa_config.device_sel,
            config.pa_config.pa_lut,
        ) {
            Ok(()) => {
                proof {
                    let f = self.cmds().last();
                    assert(self.cmds() =~= pre14.cmds().push(f));
                    assert(self.cmds().take(n0 as int) =~= old(self).cmds());
                    assert(self.cmds().skip(n0 as int) =~= fs.push(f));
                    assert(f.mosi == init_mosi(cfg, 0, 14));
                    lemma_tail_step(cfg, fs, f, 4);
                    fs = fs.push(f);
                    lemma_step_events(ev0, pre14.events(), self.events());
                }
            },
            Err(e) => {
                proof {
                    let f = self.cmds().last();
                    assert(self.cmds() =~= pre14.cmds().push(f));
                    assert(self.cmds().take(n0 as int) =~= old(self).cmds());
                    assert(self.cmds().skip(n0 as int) =~= fs.push(f));
                    assert(f.mosi == init_mosi(cfg, 0, 14).take(f.mosi.len() as int));
                    lemma_tail_fail(cfg, fs, f, 4);
                    lemma_step_events(ev0, pre14.events(), self.events());
                }
                return Err(e);
            },
        }
        // chip-stage output power and ramp time
        let chip_power = config.get_chip_power_dbm();
        let power: u8 = if chip_power >= 0 {
            chip_power as u8
        } else {
            ((chip_power as i16) + 256) as u8
        };
        proof {
            assert(power == cfg.tx_power.spec_chip_reg());
        }
        let ghost pre15 = *self;
        match self.set_tx_params(power, RAMP_40_US) {
            Ok(()) => {
                proof {
                    let f = self.cmds().last();
                    assert(self.cmds() =~= pre15.cmds().push(f));
                    assert(self.cmds().take(n0 as int) =~= old(self).cmds());
                    assert(self.cmds().skip(n0 as int) =~= fs.push(f));
                    assert(f.mosi == init_mosi(cfg, 0, 15));
                    lemma_tail_step(cfg, fs, f, 5);
                    fs = fs.push(f);
                    lemma_step_events(ev0, pre15.events(), self.events());
                }
            },
            Err(e) => {
                proof {
                    let f = self.cmds().last();
                    assert(self.cmds() =~= pre15.cmds().push(f));
                    assert(self.cmds().take(n0 as int) =~= old(self).cmds());
                    assert(self.cmds().skip(n0 as int) =~= fs.push(f));
                    assert(f.mosi == init_mosi(cfg, 0, 15).take(f.mosi.len() as int));
                    lemma_tail_fail(cfg, fs, f, 5);
                    lemma_step_events(ev0, pre15.events(), self.events());
                }
                return Err(e);
            },
        }
        // fall back to standby after each transmit or receive
        let ghost pre16 = *self;
        match self.set_rx_tx_fallback_mode(0x40) {
            Ok(()) => {
                proof {
                    let f = self.cmds().last();
                    assert(self.cmds() =~= pre16.cmds().push(f));
                    assert(self.cmds().take(n0 as int) =~= old(self).cmds());
                    assert(self.cmds().skip(n0 as int) =~= fs.push(f));
                    assert(f.mosi == init_mosi(cfg, 0, 16));
                    lemma_tail_step(cfg, fs, f, 6);
                    fs = fs.push(f);
                    lemma_step_events(ev0, pre16.events(), self.events());
                }
            },
            Err(e) => {
                proof {
                    let f = self.cmds().last();
                    assert(self.cmds() =~= pre16.cmds().push(f));
                    assert(self.cmds().take(n0 as int) =~= old(self).cmds());
                    assert(self.cmds().skip(n0 as int) =~= fs.push(f));
                    assert(f.mosi == init_mosi(cfg, 0, 16).take(f.mosi.len() as int));
                    lemma_tail_fail(cfg, fs, f, 6);
                    lemma_step_events(ev0, pre16.events(), self.events());
                }
                return Err(e);
            },
        }
        // modulation parameters
        let ghost pre17 = *self;
        match self.set_lora_mod_params(config) {
            Ok(()) => {
                proof {
                    let f = self.cmds().last();
                    assert(self.cmds() =~= pre17.cmds().push(f));
                    assert(self.cmds().take(n0 as int) =~= old(self).cmds());
                    assert(self.cmds().skip(n0 as int) =~= fs.push(f));
                    assert(f.mosi == init_mosi(cfg, 0, 17));
                    lemma_tail_step(cfg, fs, f, 7);
                    fs = fs.push(f);
                    lemma_step_events(ev0, pre17.events(), self.events());
                }
            },
            Err(e) => {
                proof {
                    let f = self.cmds().last();
                    assert(self.cmds() =~= pre17.cmds().push(f));
                    assert(self.cmds().take(n0 as int) =~= old(self).cmds());
                    assert(self.cmds().skip(n0 as int) =~= fs.push(f));
                    assert(f.mosi == init_mosi(cfg, 0, 17).take(f.mosi.len() as int));
                    lemma_tail_fail(cfg, fs, f, 7);
                    lemma_step_events(ev0, pre17.events(), self.events());
                }
                return Err(e);
            },
        }
        // packet parameters, cached for per-send length updates
        let ghost pre18 = *self;
        match self.set_lora_packet_params(config) {
            Ok(()) => {
                proof {
                    let f = self.cmds().last();
                    assert(self.cmds() =~= pre18.cmds().push(f));
                    assert(self.cmds().take(n0 as int) =~= old(self).cmds());
                    assert(self.cmds().skip(n0 as int) =~= fs.push(f));
                    assert(f.mosi == init_mosi(cfg, 0, 18));
                    lemma_tail_step(cfg, fs, f, 8);
                    fs = fs.push(f);
                    lemma_step_events(ev0, pre18.events(), self.events());
                }
            },
            Err(e) => {
                proof {
                    let f = self.cmds().last();
                    assert(self.cmds() =~= pre18.cmds().push(f));
                    assert(self.cmds().take(n0 as int) =~= old(self).cmds());
                    assert(self.cmds().skip(n0 as int) =~= fs.push(f));
                    assert(f.mosi == init_mosi(cfg, 0, 18).take(f.mosi.len() as int));
                    lemma_tail_fail(cfg, fs, f, 8);
                    lemma_step_events(ev0, pre18.events(), self.events());
                }
                return Err(e);
            },
        }
        // sync word
        let ghost pre19 = *self;
        match self.set_lora_sync_word(config.sync_word) {
            Ok(()) => {
                proof {
                    let f = self.cmds().last();
                    assert(self.cmds() =~= pre19.cmds().push(f));
                    assert(self.cmds().take(n0 as int) =~= old(self).cmds());
                    assert(self.cmds().skip(n0 as int) =~= fs.push(f));
                    assert(f.mosi == init_mosi(cfg, 0, 19));
                    lemma_tail_step(cfg, fs, f, 9);
                    fs = fs.push(f);
                    lemma_step_events(ev0, pre19.events(), self.events());
                }
            },
            Err(e) => {
                proof {
                    let f = self.cmds().last();
                    assert(self.cmds() =~= pre19.cmds().push(f));
                    assert(self.cmds().take(n0 as int) =~= old(self).cmds());
                    assert(self.cmds().skip(n0 as int) =~= fs.push(f));
                    assert(f.mosi == init_mosi(cfg, 0, 19).take(f.mosi.len() as int));
                    lemma_tail_fail(cfg, fs, f, 9);
                    lemma_step_events(ev0, pre19.events(), self.events());
                }
                return Err(e);
            },
        }
        Ok(())
    }

    /// Enter standby; mode byte 0 selects the RC oscillator clock.
    fn set_standby(&mut self, mode: u8) -> (r: Result<(), DriverError>)
        ensures
            Self::cmd_result(*old(self), *final(self), seq![OP_SET_STANDBY, mode], r, Stage::Standby),
    {
        let cmd: [u8; 2] = [OP_SET_STANDBY, mode];
        let none: [u8; 0] = [];
        match self.hal.write(cmd.as_slice(), none.as_slice()) {
            Sx1268HalStatus::Success => {
                proof {
                    assert(cmd@ + none@ =~= seq![OP_SET_STANDBY, mode]);
                }
                Ok(())
            },
            Sx1268HalStatus::Error => {
                proof {
                    assert(cmd@ + none@ =~= seq![OP_SET_STANDBY, mode]);
                }
                Err(DriverError::Bus(Stage::Standby))
            },
        }
    }

    /// Select the regulator mode; 1 selects the internal DC-DC regulator.
    fn set_regulator_mode(&mut self, mode: u8) -> (r: Result<(), DriverError>)
        ensures
            Self::cmd_result(
                *old(self),
                *final(self),
                seq![OP_SET_REGULATOR_MODE, mode],
                r,
                Stage::Regulator,
            ),
    {
        let cmd: [u8; 2] = [OP_SET_REGULATOR_MODE, mode];
        let none: [u8; 0] = [];
        match self.hal.write(cmd.as_slice(), none.as_slice()) {
            Sx1268HalStatus::Success => {
                proof {
                    assert(cmd@ + none@ =~= seq![OP_SET_REGULATOR_MODE, mode]);
                }
                Ok(())
            },
            Sx1268HalStatus::Error => {
                proof {
                    assert(cmd@ + none@ =~= seq![OP_SET_REGULATOR_MODE, mode]);
                }
                Err(DriverError::Bus(Stage::Regulator))
            },
        }
    }

    /// Enable or disable the chip's own antenna-switch control; the
    /// module's external enable lines are used instead, so it is disabled.
    fn set_dio2_as_rf_switch(&mut self, enable: bool) -> (r: Result<(), DriverError>)
        ensures
            Self::cmd_result(
                *old(self),
                *final(self),
                seq![OP_SET_DIO2_AS_RF_SWITCH, if enable { 1u8 } else { 0u8 }],
                r,
                Stage::Dio2RfSwitch,
            ),
    {
        let flag: u8 = if enable {
            0x01
        } else {
            0x00
        };
        let cmd: [u8; 2] = [OP_SET_DIO2_AS_RF_SWITCH, flag];
        let none: [u8; 0] = [];
        match self.hal.write(cmd.as_slice(), none.as_slice()) {
            Sx1268HalStatus::Success => {
                proof {
                    assert(cmd@ + none@ =~= seq![OP_SET_DIO2_AS_RF_SWITCH, flag]);
                }
                Ok(())
            },
            Sx1268HalStatus::Error => {
                proof {
                    assert(cmd@ + none@ =~= seq![OP_SET_DIO2_AS_RF_SWITCH, flag]);
                }
                Err(DriverError::Bus(Stage::Dio2RfSwitch))
            },
        }
    }

    /// Enable the crystal-oscillator bias circuit with a supply voltage
    /// code and a stabilization timeout in chip ticks.
    fn set_dio3_as_tcxo(&mut self, voltage: u8, timeout: u16) -> (r: Result<(), DriverError>)
        ensures
            Self::cmd_result(
                *old(self),
                *final(self),
                seq![OP_SET_DIO3_AS_TCXO, voltage] + be16(timeout) + seq![0u8],
                r,
                Stage::Tcxo,
            ),
    {
        assert((timeout >> 8) < 256) by (bit_vector);
        assert((timeout & 0xFF) < 256) by (bit_vector);
        let data: [u8; 4] = [voltage, (timeout >> 8) as u8, (timeout & 0xFF) as u8, 0x00];
        let cmd: [u8; 1] = [OP_SET_DIO3_AS_TCXO];
        match self.hal.write(cmd.as_slice(), data.as_slice()) {
            Sx1268HalStatus::Success => {
                proof {
                    assert(cmd@ + data@ =~= seq![OP_SET_DIO3_AS_TCXO, voltage] + be16(timeout)
                        + seq![0u8]);
                }
                Ok(())
            },
            Sx1268HalStatus::Error => {
                proof {
                    assert(cmd@ + data@ =~= seq![OP_SET_DIO3_AS_TCXO, voltage] + be16(timeout)
                        + seq![0u8]);
                }
                Err(DriverError::Bus(Stage::Tcxo))
            },
        }
    }

    /// Run the calibrations selected by the mask.
    fn calibrate(&mut self, mask: u8) -> (r: Result<(), DriverError>)
        ensures
            Self::cmd_result(*old(self), *final(self), seq![OP_CALIBRATE, mask], r, Stage::Calibrate),
    {
        let cmd: [u8; 2] = [OP_CALIBRATE, mask];
        let none: [u8; 0] = [];
        match self.hal.write(cmd.as_slice(), none.as_slice()) {
            Sx1268HalStatus::Success => {
                proof {
                    assert(cmd@ + none@ =~= seq![OP_CALIBRATE, mask]);
                }
                Ok(())
            },
            Sx1268HalStatus::Error => {
                proof {
                    assert(cmd@ + none@ =~= seq![OP_CALIBRATE, mask]);
                }
                Err(DriverError::Bus(Stage::Calibrate))
            },
        }
    }

    /// Set the transmit and receive buffer base addresses.
    fn set_buffer_base_address(&mut self, tx_base: u8, rx_base: u8) -> (r: Result<
        (),
        DriverError,
    >)
        ensures
            Self::cmd_result(
                *old(self),
                *final(self),
                seq![OP_SET_BUFFER_BASE_ADDRESS, tx_base, rx_base],
                r,
                Stage::BufferBase,
            ),
    {
        let cmd: [u8; 3] = [OP_SET_BUFFER_BASE_ADDRESS, tx_base, rx_base];
        let none: [u8; 0] = [];
        match self.hal.write(cmd.as_slice(), none.as_slice()) {
            Sx1268HalStatus::Success => {
                proof {
                    assert(cmd@ + none@ =~= seq![OP_SET_BUFFER_BASE_ADDRESS, tx_base, rx_base]);
                }
                Ok(())
            },
            Sx1268HalStatus::Error => {
                proof {
                    assert(cmd@ + none@ =~= seq![OP_SET_BUFFER_BASE_ADDRESS, tx_base, rx_base]);
                }
                Err(DriverError::Bus(Stage::BufferBase))
            },
        }
    }

    /// Select the packet type; 1 selects LoRa.
    fn set_packet_type(&mut self, pkt_type: u8) -> (r: Result<(), DriverError>)
        ensures
            Self::cmd_result(
                *old(self),
                *final(self),
                seq![OP_SET_PACKET_TYPE, pkt_type],
                r,
                Stage::PacketType,
            ),
    {
        let cmd: [u8; 2] = [OP_SET_PACKET_TYPE, pkt_type];
        let none: [u8; 0] = [];
        match self.hal.write(cmd.as_slice(), none.as_slice()) {
            Sx1268HalStatus::Success => {
                proof {
                    assert(cmd@ + none@ =~= seq![OP_SET_PACKET_TYPE, pkt_type]);
                }
                Ok(())
            },
            Sx1268HalStatus::Error => {
                proof {
                    assert(cmd@ + none@ =~= seq![OP_SET_PACKET_TYPE, pkt_type]);
                }
                Err(DriverError::Bus(Stage::PacketType))
            },
        }
    }

    /// Compute the frequency register for a carrier and write it as four
    /// big-endian bytes.
    fn set_rf_frequency(&mut self, freq_hz: u32) -> (r: Result<(), DriverError>)
        requires
            freq_hz <= MAX_FREQUENCY_HZ,
        ensures
            Self::cmd_result(
                *old(self),
                *final(self),
                seq![OP_SET_RF_FREQUENCY] + be32(freq_reg(freq_hz)),
                r,
                Stage::RfFrequency,
            ),
    {
        let wide: u64 = (freq_hz as u64) * 0x2000000u64 / (CRYSTAL_HZ as u64);
        assert(wide == freq_reg(freq_hz)) by {
            assert((freq_hz as int) * 0x2000000 <= (MAX_FREQUENCY_HZ as int) * 0x2000000)
                by (nonlinear_arith)
                requires
                    freq_hz <= MAX_FREQUENCY_HZ,
            ;
            assert((freq_hz as int) * 0x2000000 / (CRYSTAL_HZ as int) < 0x100000000int)
                by (nonlinear_arith)
                requires
                    (freq_hz as int) * 0x2000000 <= (MAX_FREQUENCY_HZ as int) * 0x2000000,
            ;
        };
        let reg: u32 = wide as u32;
        assert((reg >> 24) < 256) by (bit_vector);
        assert(((reg >> 16) & 0xFF) < 256) by (bit_vector);
        assert(((reg >> 8) & 0xFF) < 256) by (bit_vector);
        assert((reg & 0xFF) < 256) by (bit_vector);
        let data: [u8; 4] = [
            (reg >> 24) as u8,
            ((reg >> 16) & 0xFF) as u8,
            ((reg >> 8) & 0xFF) as u8,
            (reg & 0xFF) as u8,
        ];
        let cmd: [u8; 1] = [OP_SET_RF_FREQUENCY];
        match self.hal.write(cmd.as_slice(), data.as_slice()) {
            Sx1268HalStatus::Success => {
                proof {
                    assert(cmd@ + data@ =~= seq![OP_SET_RF_FREQUENCY] + be32(freq_reg(freq_hz)));
                }
                Ok(())
            },
            Sx1268HalStatus::Error => {
                proof {
                    assert(cmd@ + data@ =~= seq![OP_SET_RF_FREQUENCY] + be32(freq_reg(freq_hz)));
                }
                Err(DriverError::Bus(Stage::RfFrequency))
            },
        }
    }

    /// Configure the power amplifier.
    fn set_pa_config(&mut self, duty_cycle: u8, hp_max: u8, device_sel: u8, pa_lut: u8) -> (r:
        Result<(), DriverError>)
        ensures
            Self::cmd_result(
                *old(self),
                *final(self),
                seq![OP_SET_PA_CONFIG, duty_cycle, hp_max, device_sel, pa_lut],
                r,
                Stage::PaSetup,
            ),
    {
        let data: [u8; 4] = [duty_cycle, hp_max, device_sel, pa_lut];
        let cmd: [u8; 1] = [OP_SET_PA_CONFIG];
        match self.hal.write(cmd.as_slice(), data.as_slice()) {
            Sx1268HalStatus::Success => {
                proof {
                    assert(cmd@ + data@ =~= seq![
                        OP_SET_PA_CONFIG,
                        duty_cycle,
                        hp_max,
                        device_sel,
                        pa_lut,
                    ]);
                }
                Ok(())
            },
            Sx1268HalStatus::Error => {
                proof {
                    assert(cmd@ + data@ =~= seq![
                        OP_SET_PA_CONFIG,
                        duty_cycle,
                        hp_max,
                        device_sel,
                        pa_lut,
                    ]);
                }
                Err(DriverError::Bus(Stage::PaSetup))
            },
        }
    }

    /// Set the chip-stage output power (as the raw register byte) and the
    /// ramp-time code.
    fn set_tx_params(&mut self, power: u8, ramp_time: u8) -> (r: Result<(), DriverError>)
        ensures
            Self::cmd_result(
                *old(self),
                *final(self),
                seq![OP_SET_TX_PARAMS, power, ramp_time],
                r,
                Stage::TxParams,
            ),
    {
        let data: [u8; 2] = [power, ramp_time];
        let cmd: [u8; 1] = [OP_SET_TX_PARAMS];
        match self.hal.write(cmd.as_slice(), data.as_slice()) {
            Sx1268HalStatus::Success => {
                proof {
                    assert(cmd@ + data@ =~= seq![OP_SET_TX_PARAMS, power, ramp_time]);
                }
                Ok(())
            },
            Sx1268HalStatus::Error => {
                proof {
                    assert(cmd@ + data@ =~= seq![OP_SET_TX_PARAMS, power, ramp_time]);
                }
                Err(DriverError::Bus(Stage::TxParams))
            },
        }
    }

    /// Select the post-operation fallback mode; 0x40 returns to standby
    /// on the RC oscillator.
    fn set_rx_tx_fallback_mode(&mut self, mode: u8) -> (r: Result<(), DriverError>)
        ensures
            Self::cmd_result(
                *old(self),
                *final(self),
                seq![OP_SET_RX_TX_FALLBACK_MODE, mode],
                r,
                Stage::Fallback,
            ),
    {
        let cmd: [u8; 2] = [OP_SET_RX_TX_FALLBACK_MODE, mode];
        let none: [u8; 0] = [];
        match self.hal.write(cmd.as_slice(), none.as_slice()) {
            Sx1268HalStatus::Success => {
                proof {
                    assert(cmd@ + none@ =~= seq![OP_SET_RX_TX_FALLBACK_MODE, mode]);
                }
                Ok(())
            },
            Sx1268HalStatus::Error => {
                proof {
                    assert(cmd@ + none@ =~= seq![OP_SET_RX_TX_FALLBACK_MODE, mode]);
                }
                Err(DriverError::Bus(Stage::Fallback))
            },
        }
    }

    /// Set the modulation parameters: spreading factor, bandwidth code,
    /// coding-rate code, and the low-data-rate optimization, which is
    /// forced on for spreading factors 11 and 12.
    fn set_lora_mod_params(&mut self, config: &LoRaConfig) -> (r: Result<(), DriverError>)
        ensures
            Self::cmd_result(
                *old(self),
                *final(self),
                seq![
                    OP_SET_MODULATION_PARAMS,
                    config.spreading_factor.spec_sf(),
                    config.bandwidth.spec_reg(),
                    config.coding_rate.spec_reg(),
                    ldro_byte(config.spreading_factor.spec_sf()),
                ],
                r,
                Stage::Modulation,
            ),
    {
        let sf = config.get_sf();
        let bw_val = config.bandwidth.to_sx126x_value();
        let cr_val = config.coding_rate.to_sx126x_value();
        let ldro: u8 = if sf >= 11 {
            0x01
        } else {
            0x00
        };
        let data: [u8; 4] = [sf, bw_val, cr_val, ldro];
        let cmd: [u8; 1] = [OP_SET_MODULATION_PARAMS];
        match self.hal.write(cmd.as_slice(), data.as_slice()) {
            Sx1268HalStatus::Success => {
                proof {
                    assert(cmd@ + data@ =~= seq![
                        OP_SET_MODULATION_PARAMS,
                        config.spreading_factor.spec_sf(),
                        config.bandwidth.spec_reg(),
                        config.coding_rate.spec_reg(),
                        ldro_byte(config.spreading_factor.spec_sf()),
                    ]);
                }
                Ok(())
            },
            Sx1268HalStatus::Error => {
                proof {
                    assert(cmd@ + data@ =~= seq![
                        OP_SET_MODULATION_PARAMS,
                        config.spreading_factor.spec_sf(),
                        config.bandwidth.spec_reg(),
                        config.coding_rate.spec_reg(),
                        ldro_byte(config.spreading_factor.spec_sf()),
                    ]);
                }
                Err(DriverError::Bus(Stage::Modulation))
            },
        }
    }

    /// Issue the full packet-parameters command with the placeholder
    /// maximum payload length, and cache the fields for per-send updates.
    fn set_lora_packet_params(&mut self, config: &LoRaConfig) -> (r: Result<(), DriverError>)
        ensures
            extends(old(self).events(), final(self).events()),
            no_antenna_events(appended(old(self).events(), final(self).events())),
            final(self).cmds().len() == old(self).cmds().len() + 1,
            final(self).cmds().drop_last() == old(self).cmds(),
            final(self).cmds().last().complete(),
            final(self).preamble_length == config.preamble_length,
            final(self).header_type == header_byte(config.explicit_header),
            final(self).crc_enabled == config.crc_enabled,
            final(self).invert_iq == false,
            final(self).state == old(self).state,
            final(self).last_status == old(self).last_status,
            ({
                let expect = pkt_params_mosi(
                    config.preamble_length,
                    header_byte(config.explicit_header),
                    0xFF,
                    config.crc_enabled,
                    false,
                );
                match r {
                    Ok(()) => final(self).cmds().last().mosi == expect,
                    Err(e) => {
                        &&& e == DriverError::Bus(Stage::PacketParams)
                        &&& final(self).cmds().last().mosi.len() < expect.len()
                        &&& final(self).cmds().last().mosi == expect.take(
                            final(self).cmds().last().mosi.len() as int,
                        )
                    },
                }
            }),
    {
        let preamble = config.preamble_length;
        assert((preamble >> 8) < 256) by (bit_vector);
        assert((preamble & 0xFF) < 256) by (bit_vector);
        let header: u8 = if config.explicit_header {
            0x00
        } else {
            0x01
        };
        let crc: u8 = if config.crc_enabled {
            0x01
        } else {
            0x00
        };
        self.preamble_length = config.preamble_length;
        self.header_type = header;
        self.crc_enabled = config.crc_enabled;
        self.invert_iq = false;
        let data: [u8; 6] = [
            (preamble >> 8) as u8,
            (preamble & 0xFF) as u8,
            header,
            0xFF,
            crc,
            0x00,
        ];
        let cmd: [u8; 1] = [OP_SET_PACKET_PARAMS];
        let ghost expect = pkt_params_mosi(
            config.preamble_length,
            header_byte(config.explicit_header),
            0xFF,
            config.crc_enabled,
            false,
        );
        match self.hal.write(cmd.as_slice(), data.as_slice()) {
            Sx1268HalStatus::Success => {
                proof {
                    assert(cmd@ + data@ =~= expect);
                }
                Ok(())
            },
            Sx1268HalStatus::Error => {
                proof {
                    assert(cmd@ + data@ =~= expect);
                }
                Err(DriverError::Bus(Stage::PacketParams))
            },
        }
    }

    /// Reissue the packet-parameters command with the cached fields and
    /// the actual payload length substituted.
    fn update_packet_length(&mut self, payload_len: u8) -> (r: Result<(), DriverError>)
        ensures
            Self::cmd_result(
                *old(self),
                *final(self),
                pkt_params_mosi(
                    old(self).preamble_length,
                    old(self).header_type,
                    payload_len,
                    old(self).crc_enabled,
                    old(self).invert_iq,
                ),
                r,
                Stage::PacketParams,
            ),
    {
        let preamble = self.preamble_length;
        assert((preamble >> 8) < 256) by (bit_vector);
        assert((preamble & 0xFF) < 256) by (bit_vector);
        let crc: u8 = if self.crc_enabled {
            0x01
        } else {
            0x00
        };
        let iq: u8 = if self.invert_iq {
            0x01
        } else {
            0x00
        };
        let data: [u8; 6] = [
            (preamble >> 8) as u8,
            (preamble & 0xFF) as u8,
            self.header_type,
            payload_len,
            crc,
            iq,
        ];
        let cmd: [u8; 1] = [OP_SET_PACKET_PARAMS];
        let ghost expect = pkt_params_mosi(
            self.preamble_length,
            self.header_type,
            payload_len,
            self.crc_enabled,
            self.invert_iq,
        );
        match self.hal.write(cmd.as_slice(), data.as_slice()) {
            Sx1268HalStatus::Success => {
                proof {
                    assert(cmd@ + data@ =~= expect);
                }
                Ok(())
            },
            Sx1268HalStatus::Error => {
                proof {
                    assert(cmd@ + data@ =~= expect);
                }
                Err(DriverError::Bus(Stage::PacketParams))
            },
        }
    }

    /// Write the sync word to its fixed register address.
    fn set_lora_sync_word(&mut self, sync_word: u8) -> (r: Result<(), DriverError>)
        ensures
            Self::cmd_result(
                *old(self),
                *final(self),
                seq![OP_WRITE_REGISTER, 0x07u8, 0x40u8, sync_word],
                r,
                Stage::SyncWord,
            ),
    {
        let cmd: [u8; 3] = [OP_WRITE_REGISTER, 0x07, 0x40];
        let data: [u8; 1] = [sync_word];
        match self.hal.write(cmd.as_slice(), data.as_slice()) {
            Sx1268HalStatus::Success => {
                proof {
                    assert(cmd@ + data@ =~= seq![OP_WRITE_REGISTER, 0x07u8, 0x40u8, sync_word]);
                }
                Ok(())
            },
            Sx1268HalStatus::Error => {
                proof {
                    assert(cmd@ + data@ =~= seq![OP_WRITE_REGISTER, 0x07u8, 0x40u8, sync_word]);
                }
                Err(DriverError::Bus(Stage::SyncWord))
            },
        }
    }

    /// Write the payload into the chip's transmit buffer at an offset.
    fn write_buffer(&mut self, offset: u8, data: &[u8]) -> (r: Result<(), DriverError>)
        ensures
            Self::cmd_result(
                *old(self),
                *final(self),
                seq![OP_WRITE_BUFFER, offset] + data@,
                r,
                Stage::WriteBuffer,
            ),
    {
        let cmd: [u8; 2] = [OP_WRITE_BUFFER, offset];
        match self.hal.write(cmd.as_slice(), data) {
            Sx1268HalStatus::Success => {
                proof {
                    assert(cmd@ + data@ =~= seq![OP_WRITE_BUFFER, offset] + data@);
                }
                Ok(())
            },
            Sx1268HalStatus::Error => {
                proof {
                    assert(cmd@ + data@ =~= seq![OP_WRITE_BUFFER, offset] + data@);
                }
                Err(DriverError::Bus(Stage::WriteBuffer))
            },
        }
    }

    /// Configure which events raise interrupt flags and how they are
    /// routed to the interrupt lines.
    fn set_dio_irq_params(
        &mut self,
        irq_mask: u16,
        dio1_mask: u16,
        dio2_mask: u16,
        dio3_mask: u16,
    ) -> (r: Result<(), DriverError>)
        ensures
            Self::cmd_result(
                *old(self),
                *final(self),
                seq![OP_SET_DIO_IRQ_PARAMS] + be16(irq_mask) + be16(dio1_mask) + be16(dio2_mask)
                    + be16(dio3_mask),
                r,
                Stage::IrqParams,
            ),
    {
        assert((irq_mask >> 8) < 256 && (irq_mask & 0xFF) < 256) by (bit_vector);
        assert((dio1_mask >> 8) < 256 && (dio1_mask & 0xFF) < 256) by (bit_vector);
        assert((dio2_mask >> 8) < 256 && (dio2_mask & 0xFF) < 256) by (bit_vector);
        assert((dio3_mask >> 8) < 256 && (dio3_mask & 0xFF) < 256) by (bit_vector);
        let data: [u8; 8] = [
            (irq_mask >> 8) as u8,
            (irq_mask & 0xFF) as u8,
            (dio1_mask >> 8) as u8,
            (dio1_mask & 0xFF) as u8,
            (dio2_mask >> 8) as u8,
            (dio2_mask & 0xFF) as u8,
            (dio3_mask >> 8) as u8,
            (dio3_mask & 0xFF) as u8,
        ];
        let cmd: [u8; 1] = [OP_SET_DIO_IRQ_PARAMS];
        let ghost expect = seq![OP_SET_DIO_IRQ_PARAMS] + be16(irq_mask) + be16(dio1_mask) + be16(
            dio2_mask,
        ) + be16(dio3_mask);
        match self.hal.write(cmd.as_slice(), data.as_slice()) {
            Sx1268HalStatus::Success => {
                proof {
                    assert(cmd@ + data@ =~= expect);
                }
                Ok(())
            },
            Sx1268HalStatus::Error => {
                proof {
                    assert(cmd@ + data@ =~= expect);
                }
                Err(DriverError::Bus(Stage::IrqParams))
            },
        }
    }

    /// Clear the interrupt-status bits selected by the mask.
    fn clear_irq_status(&mut self, irq_mask: u16) -> (r: Result<(), DriverError>)
        ensures
            Self::cmd_result(
                *old(self),
                *final(self),
                seq![OP_CLR_IRQ_STATUS] + be16(irq_mask),
                r,
                Stage::ClearIrq,
            ),
    {
        assert((irq_mask >> 8) < 256 && (irq_mask & 0xFF) < 256) by (bit_vector);
        let cmd: [u8; 3] = [OP_CLR_IRQ_STATUS, (irq_mask >> 8) as u8, (irq_mask & 0xFF) as u8];
        let none: [u8; 0] = [];
        match self.hal.write(cmd.as_slice(), none.as_slice()) {
            Sx1268HalStatus::Success => {
                proof {
                    assert(cmd@ + none@ =~= seq![OP_CLR_IRQ_STATUS] + be16(irq_mask));
                }
                Ok(())
            },
            Sx1268HalStatus::Error => {
                proof {
                    assert(cmd@ + none@ =~= seq![OP_CLR_IRQ_STATUS] + be16(irq_mask));
                }
                Err(DriverError::Bus(Stage::ClearIrq))
            },
        }
    }

    /// Start transmitting, with a timeout in chip ticks (three bytes,
    /// big-endian).
    fn set_tx(&mut self, timeout: u32) -> (r: Result<(), DriverError>)
        ensures
            Self::cmd_result(
                *old(self),
                *final(self),
                seq![
                    OP_SET_TX,
                    ((timeout >> 16) & 0xFF) as u8,
                    ((timeout >> 8) & 0xFF) as u8,
                    (timeout & 0xFF) as u8,
                ],
                r,
                Stage::SetTx,
            ),
    {
        assert(((timeout >> 16) & 0xFF) < 256) by (bit_vector);
        assert(((timeout >> 8) & 0xFF) < 256) by (bit_vector);
        assert((timeout & 0xFF) < 256) by (bit_vector);
        let data: [u8; 3] = [
            ((timeout >> 16) & 0xFF) as u8,
            ((timeout >> 8) & 0xFF) as u8,
            (timeout & 0xFF) as u8,
        ];
        let cmd: [u8; 1] = [OP_SET_TX];
        let ghost expect = seq![
            OP_SET_TX,
            ((timeout >> 16) & 0xFF) as u8,
            ((timeout >> 8) & 0xFF) as u8,
            (timeout & 0xFF) as u8,
        ];
        match self.hal.write(cmd.as_slice(), data.as_slice()) {
            Sx1268HalStatus::Success => {
                proof {
                    assert(cmd@ + data@ =~= expect);
                }
                Ok(())
            },
            Sx1268HalStatus::Error => {
                proof {
                    assert(cmd@ + data@ =~= expect);
                }
                Err(DriverError::Bus(Stage::SetTx))
            },
        }
    }

    /// Read the chip's status byte: operating mode and last-command
    /// status.
    pub fn get_status(&mut self) -> (r: Result<u8, DriverError>)
        ensures
            extends(old(self).events(), final(self).events()),
            no_antenna_events(appended(old(self).events(), final(self).events())),
            final(self).cmds().len() == old(self).cmds().len() + 1,
            final(self).cmds().drop_last() == old(self).cmds(),
            final(self).cmds().last().complete(),
            final(self).preamble_length == old(self).preamble_length,
            final(self).header_type == old(self).header_type,
            final(self).crc_enabled == old(self).crc_enabled,
            final(self).invert_iq == old(self).invert_iq,
            final(self).state == old(self).state,
            final(self).last_status == old(self).last_status,
            ({
                let f = final(self).cmds().last();
                let expect = read_mosi(seq![OP_GET_STATUS, 0u8], 1);
                match r {
                    Ok(v) => f.mosi == expect && v == f.miso[1],
                    Err(e) => {
                        &&& e == DriverError::Bus(Stage::StatusRead)
                        &&& f.mosi.len() < expect.len()
                        &&& f.mosi == expect.take(f.mosi.len() as int)
                    },
                }
            }),
    {
        let cmd: [u8; 2] = [OP_GET_STATUS, 0x00];
        let mut response: Vec<u8> = Vec::new();
        response.push(0);
        proof {
            assert(cmd@ + zero_bytes(0) =~= read_mosi(seq![OP_GET_STATUS, 0u8], 1));
            assert(cmd@ =~= seq![OP_GET_STATUS, 0u8]);
        }
        match self.hal.read(cmd.as_slice(), &mut response) {
            Sx1268HalStatus::Success => {
                let v = response[0];
                proof {
                    let f = self.hal.cmds().last();
                    assert(response@ == f.miso.skip(1));
                    assert(response@[0] == f.miso[1]);
                }
                Ok(v)
            },
            Sx1268HalStatus::Error => Err(DriverError::Bus(Stage::StatusRead)),
        }
    }

    /// Read the latched device-error flags.
    pub fn get_device_errors(&mut self) -> (r: Result<u16, DriverError>)
        ensures
            extends(old(self).events(), final(self).events()),
            no_antenna_events(appended(old(self).events(), final(self).events())),
            final(self).cmds().len() == old(self).cmds().len() + 1,
            final(self).cmds().drop_last() == old(self).cmds(),
            final(self).cmds().last().complete(),
            final(self).preamble_length == old(self).preamble_length,
            final(self).header_type == old(self).header_type,
            final(self).crc_enabled == old(self).crc_enabled,
            final(self).invert_iq == old(self).invert_iq,
            final(self).state == old(self).state,
            final(self).last_status == old(self).last_status,
            ({
                let f = final(self).cmds().last();
                let expect = read_mosi(seq![OP_GET_DEVICE_ERRORS, 0u8, 0u8], 2);
                match r {
                    Ok(v) => f.mosi == expect && v == device_errors_of(f),
                    Err(e) => {
                        &&& e == DriverError::Bus(Stage::ErrorCheck)
                        &&& f.mosi.len() < expect.len()
                        &&& f.mosi == expect.take(f.mosi.len() as int)
                    },
                }
            }),
    {
        let cmd: [u8; 3] = [OP_GET_DEVICE_ERRORS, 0x00, 0x00];
        let mut response: Vec<u8> = Vec::new();
        response.push(0);
        response.push(0);
        proof {
            assert(cmd@ + zero_bytes(1) =~= read_mosi(seq![OP_GET_DEVICE_ERRORS, 0u8, 0u8], 2));
            assert(cmd@ =~= seq![OP_GET_DEVICE_ERRORS, 0u8, 0u8]);
        }
        match self.hal.read(cmd.as_slice(), &mut response) {
            Sx1268HalStatus::Success => {
                let hi = response[0];
                let lo = response[1];
                let v: u16 = ((hi as u16) << 8) | (lo as u16);
                proof {
                    let f = self.hal.cmds().last();
                    assert(response@ == f.miso.skip(2));
                    assert(response@[0] == f.miso[2]);
                    assert(response@[1] == f.miso[3]);
                }
                Ok(v)
            },
            Sx1268HalStatus::Error => Err(DriverError::Bus(Stage::ErrorCheck)),
        }
    }

    /// Clear the latched device-error flags.
    pub fn clear_device_errors(&mut self) -> (r: Result<(), DriverError>)
        ensures
            Self::cmd_result(
                *old(self),
                *final(self),
                seq![OP_CLR_DEVICE_ERRORS, 0u8, 0u8],
                r,
                Stage::ClearDeviceErrors,
            ),
    {
        let cmd: [u8; 3] = [OP_CLR_DEVICE_ERRORS, 0x00, 0x00];
        let none: [u8; 0] = [];
        match self.hal.write(cmd.as_slice(), none.as_slice()) {
            Sx1268HalStatus::Success => {
                proof {
                    assert(cmd@ + none@ =~= seq![OP_CLR_DEVICE_ERRORS, 0u8, 0u8]);
                }
                Ok(())
            },
            Sx1268HalStatus::Error => {
                proof {
                    assert(cmd@ + none@ =~= seq![OP_CLR_DEVICE_ERRORS, 0u8, 0u8]);
                }
                Err(DriverError::Bus(Stage::ClearDeviceErrors))
            },
        }
    }

    /// The bus self test: read the scratch register, write a known byte,
    /// read it back, restore the original value.  A readback mismatch is
    /// reported as [`DriverError::SelfTest`], distinctly from a bus
    /// failure.
    fn spi_test(&mut self) -> (r: Result<(), DriverError>)
        ensures
            extends(old(self).events(), final(self).events()),
            no_antenna_events(appended(old(self).events(), final(self).events())),
            final(self).cmds().take(old(self).cmds().len() as int) == old(self).cmds(),
            final(self).cmds().len() > old(self).cmds().len(),
            final(self).cmds().len() <= old(self).cmds().len() + 4,
            final(self).preamble_length == old(self).preamble_length,
            final(self).header_type == old(self).header_type,
            final(self).crc_enabled == old(self).crc_enabled,
            final(self).invert_iq == old(self).invert_iq,
            final(self).state == old(self).state,
            final(self).last_status == old(self).last_status,
            ({
                let fs = final(self).cmds().skip(old(self).cmds().len() as int);
                match r {
                    Ok(()) => spi_test_frames(fs) && fs[2].miso[3] == SELF_TEST_VALUE,
                    Err(DriverError::SelfTest) => spi_test_frames(fs) && fs[2].miso[3]
                        != SELF_TEST_VALUE,
                    Err(DriverError::Bus(st)) => spi_test_failed(fs, st),
                    Err(_) => false,
                }
            }),
    {
        let ghost ev0 = self.events();
        let ghost n0 = self.cmds().len();
        proof {
            lemma_extends_refl(ev0);
            assert((0x0920u16 >> 8) == 0x09u16 && (0x0920u16 & 0xFF) == 0x20u16) by (bit_vector);
            assert(read_mosi(seq![OP_READ_REGISTER] + be16(0x0920) + seq![0u8], 1)
                =~= self_test_mosi(0, 0));
        }
        // read the original value
        let ghost pre0 = *self;
        let orig: u8 = match self.read_register(0x0920) {
            Ok(v) => v,
            Err(_) => {
                proof {
                    let f = self.cmds().last();
                    assert(self.cmds() =~= pre0.cmds().push(f));
                    assert(self.cmds().take(n0 as int) =~= old(self).cmds());
                    assert(self.cmds().skip(n0 as int) =~= seq![f]);
                    let fs = seq![f];
                    assert(fs[0] == f);
                    assert(self_test_orig(fs) == 0);
                    assert(f.mosi == self_test_mosi(0, 0).take(f.mosi.len() as int));
                    assert(spi_test_failed(fs, Stage::SelfTestRead));
                }
                return Err(DriverError::Bus(Stage::SelfTestRead));
            },
        };
        let ghost f0 = self.cmds().last();
        proof {
            assert(self.cmds() =~= pre0.cmds().push(f0));
            assert(f0.mosi =~= self_test_mosi(0, 0));
            assert(f0.miso.len() == 4);
            assert(orig == f0.miso[3]);
        }
        // write the known byte
        let ghost pre1 = *self;
        match self.write_register(0x0920, SELF_TEST_VALUE) {
            Ok(()) => {},
            Err(_) => {
                proof {
                    let f = self.cmds().last();
                    assert(self.cmds() =~= pre1.cmds().push(f));
                    assert(self.cmds().take(n0 as int) =~= old(self).cmds());
                    assert(self.cmds().skip(n0 as int) =~= seq![f0, f]);
                    let fs = seq![f0, f];
                    assert(fs[0] == f0 && fs[1] == f);
                    assert(self_test_orig(fs) == orig);
                    assert(seq![OP_WRITE_REGISTER] + be16(0x0920) + seq![SELF_TEST_VALUE]
                        =~= self_test_mosi(orig, 1));
                    assert(f.mosi == self_test_mosi(orig, 1).take(f.mosi.len() as int));
                    assert(spi_test_failed(fs, Stage::SelfTestWrite));
                    lemma_no_ant_step(old(self).events(), pre1.events(), self.events());
                }
                return Err(DriverError::Bus(Stage::SelfTestWrite));
            },
        }
        let ghost f1 = self.cmds().last();
        proof {
            assert(self.cmds() =~= pre1.cmds().push(f1));
            assert(f1.mosi =~= self_test_mosi(orig, 1));
            lemma_no_ant_step(old(self).events(), pre1.events(), self.events());
        }
        // read the byte back
        let ghost pre2 = *self;
        let readback: u8 = match self.read_register(0x0920) {
            Ok(v) => v,
            Err(_) => {
                proof {
                    let f = self.cmds().last();
                    assert(self.cmds() =~= pre2.cmds().push(f));
                    assert(self.cmds().take(n0 as int) =~= old(self).cmds());
                    assert(self.cmds().skip(n0 as int) =~= seq![f0, f1, f]);
                    let fs = seq![f0, f1, f];
                    assert(fs[0] == f0 && fs[1] == f1 && fs[2] == f);
                    assert(self_test_orig(fs) == orig);
                    assert(f.mosi == self_test_mosi(orig, 2).take(f.mosi.len() as int));
                    assert(spi_test_failed(fs, Stage::SelfTestReadback));
                    lemma_no_ant_step(old(self).events(), pre2.events(), self.events());
                }
                return Err(DriverError::Bus(Stage::SelfTestReadback));
            },
        };
        let ghost f2 = self.cmds().last();
        proof {
            assert(self.cmds() =~= pre2.cmds().push(f2));
            assert(f2.mosi =~= self_test_mosi(orig, 2));
            assert(readback == f2.miso[3]);
            lemma_no_ant_step(old(self).events(), pre2.events(), self.events());
        }
        // restore the original value
        let ghost pre3 = *self;
        match self.write_register(0x0920, orig) {
            Ok(()) => {},
            Err(_) => {
                proof {
                    let f = self.cmds().last();
                    assert(self.cmds() =~= pre3.cmds().push(f));
                    assert(self.cmds().take(n0 as int) =~= old(self).cmds());
                    assert(self.cmds().skip(n0 as int) =~= seq![f0, f1, f2, f]);
                    let fs = seq![f0, f1, f2, f];
                    assert(fs[0] == f0 && fs[1] == f1 && fs[2] == f2 && fs[3] == f);
                    assert(self_test_orig(fs) == orig);
                    assert(seq![OP_WRITE_REGISTER] + be16(0x0920) + seq![orig] =~= self_test_mosi(
                        orig,
                        3,
                    ));
                    assert(f.mosi == self_test_mosi(orig, 3).take(f.mosi.len() as int));
                    assert(spi_test_failed(fs, Stage::SelfTestRestore));
                    lemma_no_ant_step(old(self).events(), pre3.events(), self.events());
                }
                return Err(DriverError::Bus(Stage::SelfTestRestore));
            },
        }
        let ghost f3 = self.cmds().last();
        proof {
            assert(self.cmds() =~= pre3.cmds().push(f3));
            assert(f3.mosi =~= self_test_mosi(orig, 3));
            assert(self.cmds().take(n0 as int) =~= old(self).cmds());
            assert(self.cmds().skip(n0 as int) =~= seq![f0, f1, f2, f3]);
            let fs = seq![f0, f1, f2, f3];
            assert(fs[0] == f0 && fs[1] == f1 && fs[2] == f2 && fs[3] == f3);
            assert(self_test_orig(fs) == orig);
            assert(spi_test_frames(fs));
            lemma_no_ant_step(old(self).events(), pre3.events(), self.events());
        }
        if readback == SELF_TEST_VALUE {
            Ok(())
        } else {
            Err(DriverError::SelfTest)
        }
    }

    /// Read the device-error flags and fail if the chip reports that the
    /// crystal oscillator did not start.
    fn check_xosc_start(&mut self) -> (r: Result<(), DriverError>)
        ensures
            extends(old(self).events(), final(self).events()),
            no_antenna_events(appended(old(self).events(), final(self).events())),
            final(self).cmds().len() == old(self).cmds().len() + 1,
            final(self).cmds().drop_last() == old(self).cmds(),
            final(self).cmds().last().complete(),
            final(self).preamble_length == old(self).preamble_length,
            final(self).header_type == old(self).header_type,
            final(self).crc_enabled == old(self).crc_enabled,
            final(self).invert_iq == old(self).invert_iq,
            final(self).state == old(self).state,
            final(self).last_status == old(self).last_status,
            ({
                let f = final(self).cmds().last();
                let expect = read_mosi(seq![OP_GET_DEVICE_ERRORS, 0u8, 0u8], 2);
                match r {
                    Ok(()) => f.mosi == expect && !xosc_failed(f),
                    Err(DriverError::OscillatorStart) => f.mosi == expect && xosc_failed(f),
                    Err(DriverError::Bus(st)) => {
                        &&& st == Stage::ErrorCheck
                        &&& f.mosi.len() < expect.len()
                        &&& f.mosi == expect.take(f.mosi.len() as int)
                    },
                    Err(_) => false,
                }
            }),
    {
        match self.get_device_errors() {
            Ok(errors) => {
                if errors & XOSC_START_ERR != 0 {
                    Err(DriverError::OscillatorStart)
                } else {
                    Ok(())
                }
            },
            Err(e) => Err(e),
        }
    }

    /// Read one chip register.
    pub fn read_register(&mut self, addr: u16) -> (r: Result<u8, DriverError>)
        ensures
            extends(old(self).events(), final(self).events()),
            no_antenna_events(appended(old(self).events(), final(self).events())),
            final(self).cmds().len() == old(self).cmds().len() + 1,
            final(self).cmds().drop_last() == old(self).cmds(),
            final(self).cmds().last().complete(),
            final(self).preamble_length == old(self).preamble_length,
            final(self).header_type == old(self).header_type,
            final(self).crc_enabled == old(self).crc_enabled,
            final(self).invert_iq == old(self).invert_iq,
            final(self).state == old(self).state,
            final(self).last_status == old(self).last_status,
            ({
                let f = final(self).cmds().last();
                let expect = read_mosi(seq![OP_READ_REGISTER] + be16(addr) + seq![0u8], 1);
                match r {
                    Ok(v) => f.mosi == expect && v == f.miso[3],
                    Err(e) => {
                        &&& e == DriverError::Bus(Stage::RegisterRead)
                        &&& f.mosi.len() < expect.len()
                        &&& f.mosi == expect.take(f.mosi.len() as int)
                    },
                }
            }),
    {
        assert((addr >> 8) < 256 && (addr & 0xFF) < 256) by (bit_vector);
        let cmd: [u8; 4] = [OP_READ_REGISTER, (addr >> 8) as u8, (addr & 0xFF) as u8, 0x00];
        let mut response: Vec<u8> = Vec::new();
        response.push(0);
        proof {
            assert(cmd@ + zero_bytes(0) =~= read_mosi(
                seq![OP_READ_REGISTER] + be16(addr) + seq![0u8],
                1,
            ));
            assert(cmd@ =~= seq![OP_READ_REGISTER] + be16(addr) + seq![0u8]);
        }
        match self.hal.read(cmd.as_slice(), &mut response) {
            Sx1268HalStatus::Success => {
                let v = response[0];
                proof {
                    let f = self.hal.cmds().last();
                    assert(response@ == f.miso.skip(3));
                    assert(response@[0] == f.miso[3]);
                }
                Ok(v)
            },
            Sx1268HalStatus::Error => Err(DriverError::Bus(Stage::RegisterRead)),
        }
    }

    /// Write one chip register.
    pub fn write_register(&mut self, addr: u16, value: u8) -> (r: Result<(), DriverError>)
        ensures
            Self::cmd_result(
                *old(self),
                *final(self),
                seq![OP_WRITE_REGISTER] + be16(addr) + seq![value],
                r,
                Stage::RegisterWrite,
            ),
    {
        assert((addr >> 8) < 256 && (addr & 0xFF) < 256) by (bit_vector);
        let cmd: [u8; 3] = [OP_WRITE_REGISTER, (addr >> 8) as u8, (addr & 0xFF) as u8];
        let data: [u8; 1] = [value];
        match self.hal.write(cmd.as_slice(), data.as_slice()) {
            Sx1268HalStatus::Success => {
                proof {
                    assert(cmd@ + data@ =~= seq![OP_WRITE_REGISTER] + be16(addr) + seq![value]);
                }
                Ok(())
            },
            Sx1268HalStatus::Error => {
                proof {
                    assert(cmd@ + data@ =~= seq![OP_WRITE_REGISTER] + be16(addr) + seq![value]);
                }
                Err(DriverError::Bus(Stage::RegisterWrite))
            },
        }
    }
}

/// One more initialization command completed as documented extends the
/// documented prefix by one.
proof fn lemma_init_step(cfg: LoRaConfig, fs: Seq<Frame>, f: Frame, k: int)
    requires
        init_prefix_ok(cfg, fs, k),
        k < 20,
        f.complete(),
        f.mosi == init_mosi(cfg, init_orig(fs.push(f)), k),
    ensures
        init_prefix_ok(cfg, fs.push(f), k + 1),
{
    let fs2 = fs.push(f);
    let o1 = init_orig(fs);
    let o2 = init_orig(fs2);
    if fs.len() >= 3 {
        assert(fs2[2] == fs[2]);
        assert(o2 == o1);
    }
    assert forall|i: int| 0 <= i < k + 1 implies (#[trigger] fs2[i]).complete() && fs2[i].mosi
        == init_mosi(cfg, o2, i) by {
        if i < k {
            assert(fs2[i] == fs[i]);
            assert(fs[i].complete() && fs[i].mosi == init_mosi(cfg, o1, i));
            if o1 != o2 {
                assert(fs.len() <= 2);
                assert(i < 2);
                assert(init_mosi(cfg, o1, i) == init_mosi(cfg, o2, i));
            }
        } else {
            assert(fs2[k] == f);
        }
    }
}

/// An initialization command cut short by the bus after a documented
/// prefix leaves a documented failed trace.
proof fn lemma_init_fail(cfg: LoRaConfig, fs: Seq<Frame>, f: Frame, k: int)
    requires
        init_prefix_ok(cfg, fs, k),
        k < 20,
        f.complete(),
        f.mosi.len() < init_mosi(cfg, init_orig(fs.push(f)), k).len(),
        f.mosi == init_mosi(cfg, init_orig(fs.push(f)), k).take(f.mosi.len() as int),
    ensures
        init_failed(cfg, fs.push(f), k),
{
    let fs2 = fs.push(f);
    let o1 = init_orig(fs);
    let o2 = init_orig(fs2);
    if fs.len() >= 3 {
        assert(fs2[2] == fs[2]);
        assert(o2 == o1);
    }
    assert(fs2[k as int] == f);
    assert forall|i: int| 0 <= i < k implies (#[trigger] fs2[i]).complete() && fs2[i].mosi
        == init_mosi(cfg, o2, i) by {
        assert(fs2[i] == fs[i]);
        assert(fs[i].complete() && fs[i].mosi == init_mosi(cfg, o1, i));
        if o1 != o2 {
            assert(fs.len() <= 2);
            assert(i < 2);
            assert(init_mosi(cfg, o1, i) == init_mosi(cfg, o2, i));
        }
    }
}

/// Folding a completed self test into an initialization prefix of two
/// commands gives the documented prefix of six.
proof fn lemma_init_merge(cfg: LoRaConfig, fs: Seq<Frame>, chunk: Seq<Frame>)
    requires
        init_prefix_ok(cfg, fs, 2),
        spi_test_frames(chunk),
    ensures
        init_prefix_ok(cfg, fs + chunk, 6),
        (fs + chunk)[4] == chunk[2],
        init_orig(fs + chunk) == self_test_orig(chunk),
{
    let fs2 = fs + chunk;
    let o = self_test_orig(chunk);
    assert(fs2.len() == 6);
    assert(fs2[2] == chunk[0]);
    assert(fs2[4] == chunk[2]);
    assert(chunk[0].mosi == self_test_mosi(o, 0));
    assert(chunk[0].miso.len() == 4);
    assert(init_orig(fs2) == chunk[0].miso[3]);
    assert(o == chunk[0].miso[3]);
    assert forall|i: int| 0 <= i < 6 implies (#[trigger] fs2[i]).complete() && fs2[i].mosi
        == init_mosi(cfg, init_orig(fs2), i) by {
        if i < 2 {
            assert(fs2[i] == fs[i]);
            assert(fs[i].complete() && fs[i].mosi == init_mosi(cfg, init_orig(fs), i));
            assert(init_mosi(cfg, init_orig(fs), i) == init_mosi(cfg, init_orig(fs2), i));
        } else {
            assert(fs2[i] == chunk[i - 2]);
            assert(chunk[i - 2].complete() && chunk[i - 2].mosi == self_test_mosi(o, i - 2));
        }
    }
}

/// Folding a self test aborted by the bus into an initialization prefix
/// of two commands gives the documented failed trace.
proof fn lemma_init_merge_failed(cfg: LoRaConfig, fs: Seq<Frame>, chunk: Seq<Frame>, st: Stage)
    requires
        init_prefix_ok(cfg, fs, 2),
        spi_test_failed(chunk, st),
    ensures
        init_failed(cfg, fs + chunk, 1 + chunk.len() as int),
        st == init_stage(1 + chunk.len() as int),
{
    let fs2 = fs + chunk;
    let k = chunk.len() - 1;
    let n = 2 + k;
    let o = self_test_orig(chunk);
    assert(fs2.len() == n + 1);
    assert(fs2[2] == chunk[0]);
    if k == 0 {
        assert(chunk[0].mosi.len() < 4);
        assert(chunk[0].miso.len() < 4);
        assert(init_orig(fs2) == 0);
        assert(o == 0);
    } else {
        assert(chunk[0].mosi == self_test_mosi(o, 0));
        assert(chunk[0].miso.len() == 4);
        assert(init_orig(fs2) == chunk[0].miso[3]);
        assert(o == chunk[0].miso[3]);
    }
    assert(fs2[n as int] == chunk[k as int]);
    assert forall|i: int| 0 <= i < n implies (#[trigger] fs2[i]).complete() && fs2[i].mosi
        == init_mosi(cfg, init_orig(fs2), i) by {
        if i < 2 {
            assert(fs2[i] == fs[i]);
            assert(fs[i].complete() && fs[i].mosi == init_mosi(cfg, init_orig(fs), i));
            assert(init_mosi(cfg, init_orig(fs), i) == init_mosi(cfg, init_orig(fs2), i));
        } else {
            assert(fs2[i] == chunk[i - 2]);
            assert(chunk[i - 2].complete() && chunk[i - 2].mosi == self_test_mosi(o, i - 2));
        }
    }
}

/// One more per-send command completed as documented extends the
/// documented prefix by one.
proof fn lemma_tx_step(
    p: u16,
    h: u8,
    c: bool,
    q: bool,
    payload: Seq<u8>,
    fs: Seq<Frame>,
    f: Frame,
    k: int,
)
    requires
        tx_prefix_ok(p, h, c, q, payload, fs, k),
        k < 6,
        f.complete(),
        f.mosi == tx_mosi(p, h, c, q, payload, k),
    ensures
        tx_prefix_ok(p, h, c, q, payload, fs.push(f), k + 1),
{
    let fs2 = fs.push(f);
    assert forall|i: int| 0 <= i < k + 1 implies (#[trigger] fs2[i]).complete() && fs2[i].mosi
        == tx_mosi(p, h, c, q, payload, i) by {
        if i < k {
            assert(fs2[i] == fs[i]);
        } else {
            assert(fs2[k] == f);
        }
    }
}

/// A per-send command cut short by the bus after a documented prefix
/// leaves a documented failed trace.
proof fn lemma_tx_fail(
    p: u16,
    h: u8,
    c: bool,
    q: bool,
    payload: Seq<u8>,
    fs: Seq<Frame>,
    f: Frame,
    k: int,
)
    requires
        tx_prefix_ok(p, h, c, q, payload, fs, k),
        k < 6,
        f.complete(),
        f.mosi.len() < tx_mosi(p, h, c, q, payload, k).len(),
        f.mosi == tx_mosi(p, h, c, q, payload, k).take(f.mosi.len() as int),
    ensures
        tx_failed(p, h, c, q, payload, fs.push(f), k),
{
    let fs2 = fs.push(f);
    assert(fs2[k as int] == f);
    assert forall|i: int| 0 <= i < k implies (#[trigger] fs2[i]).complete() && fs2[i].mosi
        == tx_mosi(p, h, c, q, payload, i) by {
        assert(fs2[i] == fs[i]);
    }
}

/// One more of the last ten initialization commands extends their
/// documented prefix by one.
proof fn lemma_tail_step(cfg: LoRaConfig, fs: Seq<Frame>, f: Frame, k: int)
    requires
        init_tail_ok(cfg, fs, k),
        k < 10,
        f.complete(),
        f.mosi == init_mosi(cfg, 0, 10 + k),
    ensures
        init_tail_ok(cfg, fs.push(f), k + 1),
{
    let fs2 = fs.push(f);
    assert forall|i: int| 0 <= i < k + 1 implies (#[trigger] fs2[i]).complete() && fs2[i].mosi
        == init_mosi(cfg, 0, 10 + i) by {
        if i < k {
            assert(fs2[i] == fs[i]);
        } else {
            assert(fs2[k] == f);
        }
    }
}

/// One of the last ten initialization commands cut short by the bus
/// leaves a documented failed tail.
proof fn lemma_tail_fail(cfg: LoRaConfig, fs: Seq<Frame>, f: Frame, k: int)
    requires
        init_tail_ok(cfg, fs, k),
        k < 10,
        f.complete(),
        f.mosi.len() < init_mosi(cfg, 0, 10 + k).len(),
        f.mosi == init_mosi(cfg, 0, 10 + k).take(f.mosi.len() as int),
    ensures
        init_tail_failed(cfg, fs.push(f), k),
{
    let fs2 = fs.push(f);
    assert(fs2[k as int] == f);
    assert forall|i: int| 0 <= i < k implies (#[trigger] fs2[i]).complete() && fs2[i].mosi
        == init_mosi(cfg, 0, 10 + i) by {
        assert(fs2[i] == fs[i]);
    }
}

/// The two documented halves of initialization concatenate to the
/// documented whole.
proof fn lemma_init_compose(cfg: LoRaConfig, a: Seq<Frame>, b: Seq<Frame>)
    requires
        init_prefix_ok(cfg, a, 10),
        init_tail_ok(cfg, b, 10),
    ensures
        init_prefix_ok(cfg, a + b, 20),
        (a + b)[4] == a[4],
        (a + b)[9] == a[9],
{
    let fs2 = a + b;
    assert(fs2[2] == a[2]);
    assert(a[2].mosi == init_mosi(cfg, init_orig(a), 2));
    assert(a[2].miso.len() == 4);
    assert(init_orig(fs2) == init_orig(a));
    assert forall|i: int| 0 <= i < 20 implies (#[trigger] fs2[i]).complete() && fs2[i].mosi
        == init_mosi(cfg, init_orig(fs2), i) by {
        if i < 10 {
            assert(fs2[i] == a[i]);
            assert(a[i].complete() && a[i].mosi == init_mosi(cfg, init_orig(a), i));
        } else {
            assert(fs2[i] == b[i - 10]);
            assert(b[i - 10].complete() && b[i - 10].mosi == init_mosi(cfg, 0, i));
            assert(init_mosi(cfg, 0, i) == init_mosi(cfg, init_orig(fs2), i));
        }
    }
}

/// A documented first half followed by a failed tail is the documented
/// failed whole.
proof fn lemma_init_compose_failed(cfg: LoRaConfig, a: Seq<Frame>, b: Seq<Frame>, k: int)
    requires
        init_prefix_ok(cfg, a, 10),
        init_tail_failed(cfg, b, k),
    ensures
        init_failed(cfg, a + b, 10 + k),
{
    let fs2 = a + b;
    assert(fs2[2] == a[2]);
    assert(a[2].mosi == init_mosi(cfg, init_orig(a), 2));
    assert(a[2].miso.len() == 4);
    assert(init_orig(fs2) == init_orig(a));
    assert(fs2[10 + k] == b[k as int]);
    assert(init_mosi(cfg, 0, 10 + k) == init_mosi(cfg, init_orig(fs2), 10 + k));
    assert forall|i: int| 0 <= i < 10 + k implies (#[trigger] fs2[i]).complete() && fs2[i].mosi
        == init_mosi(cfg, init_orig(fs2), i) by {
        if i < 10 {
            assert(fs2[i] == a[i]);
            assert(a[i].complete() && a[i].mosi == init_mosi(cfg, init_orig(a), i));
        } else {
            assert(fs2[i] == b[i - 10]);
            assert(b[i - 10].complete() && b[i - 10].mosi == init_mosi(cfg, 0, i));
            assert(init_mosi(cfg, 0, i) == init_mosi(cfg, init_orig(fs2), i));
        }
    }
}

} // verus!
