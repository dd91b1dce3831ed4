//! Radio configuration values and their chip register encodings.
//!
//! A [`LoRaConfig`] is built once and handed to the driver by reference;
//! the driver never mutates it.  Every field maps onto a fixed-width chip
//! register encoding, given here both as spec functions (the mathematical
//! model the driver contracts are stated over) and as executable methods.

use vstd::prelude::*;

verus! {

/// Carrier frequency, restricted to the discrete bands the module supports.
#[derive(Clone, Copy, Debug, PartialEq, Eq, Structural)]
pub enum Frequency {
    Freq410MHz,
    Freq433MHz,
    Freq441MHz,
    Freq470MHz,
    Freq490MHz,
    Freq510MHz,
}

impl Frequency {
    /// The carrier frequency in MHz.
    pub open spec fn spec_mhz(self) -> u16 {
        match self {
            Frequency::Freq410MHz => 410,
            Frequency::Freq433MHz => 433,
            Frequency::Freq441MHz => 441,
            Frequency::Freq470MHz => 470,
            Frequency::Freq490MHz => 490,
            Frequency::Freq510MHz => 510,
        }
    }

    /// The carrier frequency in Hz.
    pub open spec fn spec_hz(self) -> u32 {
        (self.spec_mhz() * 1_000_000) as u32
    }

    /// The carrier frequency in Hz, as fed to the frequency-register computation.
    pub fn to_hz(&self) -> (r: u32)
        ensures
            r == self.spec_hz(),
    {
        match self {
            Frequency::Freq410MHz => 410_000_000,
            Frequency::Freq433MHz => 433_000_000,
            Frequency::Freq441MHz => 441_000_000,
            Frequency::Freq470MHz => 470_000_000,
            Frequency::Freq490MHz => 490_000_000,
            Frequency::Freq510MHz => 510_000_000,
        }
    }
}

/// Transmit power after the module's power amplifier, in dBm.
///
/// The module has two power levels: the chip-stage output that software
/// configures, and the PA-stage output that leaves the antenna.  The two
/// are related by a fixed characterized lookup, not by a formula.
#[derive(Clone, Copy, Debug, PartialEq, Eq, Structural)]
pub enum TxPower {
    Power10dBm,
    Power15dBm,
    Power18dBm,
    Power21dBm,
    Power24dBm,
    Power27dBm,
    Power30dBm,
}

impl TxPower {
    /// PA-stage (final output) power in dBm.
    pub open spec fn spec_output_dbm(self) -> u8 {
        match self {
            TxPower::Power10dBm => 10,
            TxPower::Power15dBm => 15,
            TxPower::Power18dBm => 18,
            TxPower::Power21dBm => 21,
            TxPower::Power24dBm => 24,
            TxPower::Power27dBm => 27,
            TxPower::Power30dBm => 30,
        }
    }

    /// Chip-stage power in dBm, the value the chip's TX-parameter command takes.
    pub open spec fn spec_chip_dbm(self) -> i8 {
        match self {
            TxPower::Power10dBm => -5i8,
            TxPower::Power15dBm => 1i8,
            TxPower::Power18dBm => 4i8,
            TxPower::Power21dBm => 7i8,
            TxPower::Power24dBm => 10i8,
            TxPower::Power27dBm => 15i8,
            TxPower::Power30dBm => 20i8,
        }
    }

    /// The chip-stage power as the raw register byte (two's complement).
    pub open spec fn spec_chip_reg(self) -> u8 {
        if self.spec_chip_dbm() >= 0 {
            self.spec_chip_dbm() as u8
        } else {
            (self.spec_chip_dbm() + 256) as u8
        }
    }

    /// PA-stage (final output) power in dBm.
    pub fn get_output_dbm(&self) -> (r: u8)
        ensures
            r == self.spec_output_dbm(),
    {
        match self {
            TxPower::Power10dBm => 10,
            TxPower::Power15dBm => 15,
            TxPower::Power18dBm => 18,
            TxPower::Power21dBm => 21,
            TxPower::Power24dBm => 24,
            TxPower::Power27dBm => 27,
            TxPower::Power30dBm => 30,
        }
    }

    /// Chip-stage power in dBm for the TX-parameter command.
    pub fn get_chip_power(&self) -> (r: i8)
        ensures
            r == self.spec_chip_dbm(),
    {
        match self {
            TxPower::Power10dBm => -5,
            TxPower::Power15dBm => 1,
            TxPower::Power18dBm => 4,
            TxPower::Power21dBm => 7,
            TxPower::Power24dBm => 10,
            TxPower::Power27dBm => 15,
            TxPower::Power30dBm => 20,
        }
    }
}

/// Modulation bandwidth.
#[derive(Clone, Copy, Debug, PartialEq, Eq, Structural)]
pub enum Bandwidth {
    Bw125kHz,
    Bw250kHz,
    Bw500kHz,
}

impl Bandwidth {
    /// The bandwidth in kHz.
    pub open spec fn spec_khz(self) -> u16 {
        match self {
            Bandwidth::Bw125kHz => 125,
            Bandwidth::Bw250kHz => 250,
            Bandwidth::Bw500kHz => 500,
        }
    }

    /// The chip's bandwidth code for the modulation-parameter command.
    pub open spec fn spec_reg(self) -> u8 {
        match self {
            Bandwidth::Bw125kHz => 0x04,
            Bandwidth::Bw250kHz => 0x05,
            Bandwidth::Bw500kHz => 0x06,
        }
    }

    /// The chip's bandwidth code for the modulation-parameter command.
    pub fn to_sx126x_value(&self) -> (r: u8)
        ensures
            r == self.spec_reg(),
    {
        match self {
            Bandwidth::Bw125kHz => 0x04,
            Bandwidth::Bw250kHz => 0x05,
            Bandwidth::Bw500kHz => 0x06,
        }
    }
}

/// Spreading factor.
#[derive(Clone, Copy, Debug, PartialEq, Eq, Structural)]
pub enum SpreadingFactor {
    SF7,
    SF8,
    SF9,
    SF10,
    SF11,
    SF12,
}

impl SpreadingFactor {
    /// The spreading factor as a number, which is also the chip's register code.
    pub open spec fn spec_sf(self) -> u8 {
        match self {
            SpreadingFactor::SF7 => 7,
            SpreadingFactor::SF8 => 8,
            SpreadingFactor::SF9 => 9,
            SpreadingFactor::SF10 => 10,
            SpreadingFactor::SF11 => 11,
            SpreadingFactor::SF12 => 12,
        }
    }

    /// The chip's spreading-factor code for the modulation-parameter command.
    pub fn to_sx126x_value(&self) -> (r: u8)
        ensures
            r == self.spec_sf(),
    {
        match self {
            SpreadingFactor::SF7 => 7,
            SpreadingFactor::SF8 => 8,
            SpreadingFactor::SF9 => 9,
            SpreadingFactor::SF10 => 10,
            SpreadingFactor::SF11 => 11,
            SpreadingFactor::SF12 => 12,
        }
    }
}

/// Forward error-correction coding rate, 4/n.
#[derive(Clone, Copy, Debug, PartialEq, Eq, Structural)]
pub enum CodingRate {
    CR45,
    CR46,
    CR47,
    CR48,
}

impl CodingRate {
    /// The n of the 4/n coding rate.
    pub open spec fn spec_ratio(self) -> u8 {
        match self {
            CodingRate::CR45 => 5,
            CodingRate::CR46 => 6,
            CodingRate::CR47 => 7,
            CodingRate::CR48 => 8,
        }
    }

    /// The chip's coding-rate code: 1 for 4/5 up to 4 for 4/8.
    pub open spec fn spec_reg(self) -> u8 {
        (self.spec_ratio() - 4) as u8
    }

    /// The chip's coding-rate code for the modulation-parameter command.
    pub fn to_sx126x_value(&self) -> (r: u8)
        ensures
            r == self.spec_reg(),
    {
        match self {
            CodingRate::CR45 => 1,
            CodingRate::CR46 => 2,
            CodingRate::CR47 => 3,
            CodingRate::CR48 => 4,
        }
    }
}

/// Power-amplifier tuning for the chip's PA-configuration command.
#[derive(Clone, Copy, Debug, PartialEq, Eq, Structural)]
pub struct PaConfig {
    /// PA duty cycle.
    pub pa_duty_cycle: u8,
    /// High-power maximum index.
    pub hp_max: u8,
    /// Device selector.
    pub device_sel: u8,
    /// PA lookup-table selector.
    pub pa_lut: u8,
}

impl PaConfig {
    /// The module's characterized PA tuning.
    pub fn default() -> (r: Self)
        ensures
            r == (PaConfig { pa_duty_cycle: 0x04, hp_max: 0x07, device_sel: 0x00, pa_lut: 0x01 }),
    {
        PaConfig { pa_duty_cycle: 0x04, hp_max: 0x07, device_sel: 0x00, pa_lut: 0x01 }
    }
}

/// The complete radio configuration, immutable once built.
#[derive(Clone, Copy, Debug, PartialEq, Eq, Structural)]
pub struct LoRaConfig {
    /// Carrier frequency.
    pub frequency: Frequency,
    /// PA-stage transmit power.
    pub tx_power: TxPower,
    /// Modulation bandwidth.
    pub bandwidth: Bandwidth,
    /// Spreading factor.
    pub spreading_factor: SpreadingFactor,
    /// Coding rate.
    pub coding_rate: CodingRate,
    /// Preamble length in symbols; at least 6.
    pub preamble_length: u16,
    /// Whether the payload CRC is enabled.
    pub crc_enabled: bool,
    /// Explicit (true) or implicit (false) header mode.
    pub explicit_header: bool,
    /// Sync word; 0x12 marks a public network, 0x14 a private one.
    pub sync_word: u8,
    /// Power-amplifier tuning.
    pub pa_config: PaConfig,
}

impl LoRaConfig {
    /// A configuration the driver accepts: the preamble must be at least
    /// 6 symbols.  Every other field already fits its register encoding by
    /// construction.
    pub open spec fn valid(self) -> bool {
        self.preamble_length >= 6
    }

    /// Balanced defaults: 433 MHz, full power, 500 kHz, SF11, 4/5, private network.
    pub fn default() -> (r: Self)
        ensures
            r == (LoRaConfig {
                frequency: Frequency::Freq433MHz,
                tx_power: TxPower::Power30dBm,
                bandwidth: Bandwidth::Bw500kHz,
                spreading_factor: SpreadingFactor::SF11,
                coding_rate: CodingRate::CR45,
                preamble_length: 8,
                crc_enabled: true,
                explicit_header: true,
                sync_word: 0x14,
                pa_config: PaConfig { pa_duty_cycle: 0x04, hp_max: 0x07, device_sel: 0x00, pa_lut: 0x01 },
            }),
            r.valid(),
    {
        LoRaConfig {
            frequency: Frequency::Freq433MHz,
            tx_power: TxPower::Power30dBm,
            bandwidth: Bandwidth::Bw500kHz,
            spreading_factor: SpreadingFactor::SF11,
            coding_rate: CodingRate::CR45,
            preamble_length: 8,
            crc_enabled: true,
            explicit_header: true,
            sync_word: 0x14,
            pa_config: PaConfig::default(),
        }
    }

    /// Longest range: narrow band, maximal spreading, strongest coding.
    pub fn long_range() -> (r: Self)
        ensures
            r == (LoRaConfig {
                frequency: Frequency::Freq433MHz,
                tx_power: TxPower::Power30dBm,
                bandwidth: Bandwidth::Bw125kHz,
                spreading_factor: SpreadingFactor::SF12,
                coding_rate: CodingRate::CR48,
                preamble_length: 12,
                crc_enabled: true,
                explicit_header: true,
                sync_word: 0x14,
                pa_config: PaConfig { pa_duty_cycle: 0x04, hp_max: 0x07, device_sel: 0x00, pa_lut: 0x01 },
            }),
            r.valid(),
    {
        LoRaConfig {
            frequency: Frequency::Freq433MHz,
            tx_power: TxPower::Power30dBm,
            bandwidth: Bandwidth::Bw125kHz,
            spreading_factor: SpreadingFactor::SF12,
            coding_rate: CodingRate::CR48,
            preamble_length: 12,
            crc_enabled: true,
            explicit_header: true,
            sync_word: 0x14,
            pa_config: PaConfig::default(),
        }
    }

    /// Fastest data rate: wide band, minimal spreading, least coding overhead.
    pub fn fast_mode() -> (r: Self)
        ensures
            r == (LoRaConfig {
                frequency: Frequency::Freq433MHz,
                tx_power: TxPower::Power27dBm,
                bandwidth: Bandwidth::Bw500kHz,
                spreading_factor: SpreadingFactor::SF7,
                coding_rate: CodingRate::CR45,
                preamble_length: 6,
                crc_enabled: true,
                explicit_header: true,
                sync_word: 0x14,
                pa_config: PaConfig { pa_duty_cycle: 0x04, hp_max: 0x07, device_sel: 0x00, pa_lut: 0x01 },
            }),
            r.valid(),
    {
        LoRaConfig {
            frequency: Frequency::Freq433MHz,
            tx_power: TxPower::Power27dBm,
            bandwidth: Bandwidth::Bw500kHz,
            spreading_factor: SpreadingFactor::SF7,
            coding_rate: CodingRate::CR45,
            preamble_length: 6,
            crc_enabled: true,
            explicit_header: true,
            sync_word: 0x14,
            pa_config: PaConfig::default(),
        }
    }

    /// Lowest power draw.
    pub fn low_power() -> (r: Self)
        ensures
            r == (LoRaConfig {
                frequency: Frequency::Freq433MHz,
                tx_power: TxPower::Power10dBm,
                bandwidth: Bandwidth::Bw125kHz,
                spreading_factor: SpreadingFactor::SF9,
                coding_rate: CodingRate::CR47,
                preamble_length: 8,
                crc_enabled: true,
                explicit_header: true,
                sync_word: 0x14,
                pa_config: PaConfig { pa_duty_cycle: 0x04, hp_max: 0x07, device_sel: 0x00, pa_lut: 0x01 },
            }),
            r.valid(),
    {
        LoRaConfig {
            frequency: Frequency::Freq433MHz,
            tx_power: TxPower::Power10dBm,
            bandwidth: Bandwidth::Bw125kHz,
            spreading_factor: SpreadingFactor::SF9,
            coding_rate: CodingRate::CR47,
            preamble_length: 8,
            crc_enabled: true,
            explicit_header: true,
            sync_word: 0x14,
            pa_config: PaConfig::default(),
        }
    }

    /// Carrier frequency in MHz.
    pub fn get_frequency_mhz(&self) -> (r: u16)
        ensures
            r == self.frequency.spec_mhz(),
    {
        match self.frequency {
            Frequency::Freq410MHz => 410,
            Frequency::Freq433MHz => 433,
            Frequency::Freq441MHz => 441,
            Frequency::Freq470MHz => 470,
            Frequency::Freq490MHz => 490,
            Frequency::Freq510MHz => 510,
        }
    }

    /// Carrier frequency in Hz.
    pub fn get_frequency_hz(&self) -> (r: u32)
        ensures
            r == self.frequency.spec_hz(),
    {
        self.frequency.to_hz()
    }

    /// PA-stage (final output) power in dBm.
    pub fn get_power_dbm(&self) -> (r: u8)
        ensures
            r == self.tx_power.spec_output_dbm(),
    {
        self.tx_power.get_output_dbm()
    }

    /// Chip-stage power in dBm.
    pub fn get_chip_power_dbm(&self) -> (r: i8)
        ensures
            r == self.tx_power.spec_chip_dbm(),
    {
        self.tx_power.get_chip_power()
    }

    /// Bandwidth in kHz.
    pub fn get_bandwidth_khz(&self) -> (r: u16)
        ensures
            r == self.bandwidth.spec_khz(),
    {
        match self.bandwidth {
            Bandwidth::Bw125kHz => 125,
            Bandwidth::Bw250kHz => 250,
            Bandwidth::Bw500kHz => 500,
        }
    }

    /// Spreading factor as a number.
    pub fn get_sf(&self) -> (r: u8)
        ensures
            r == self.spreading_factor.spec_sf(),
    {
        self.spreading_factor.to_sx126x_value()
    }

    /// The n of the 4/n coding rate.
    pub fn get_cr_ratio(&self) -> (r: u8)
        ensures
            r == self.coding_rate.spec_ratio(),
    {
        match self.coding_rate {
            CodingRate::CR45 => 5,
            CodingRate::CR46 => 6,
            CodingRate::CR47 => 7,
            CodingRate::CR48 => 8,
        }
    }

    /// The chip's coding-rate code.
    pub fn get_cr_sx126x(&self) -> (r: u8)
        ensures
            r == self.coding_rate.spec_reg(),
    {
        self.coding_rate.to_sx126x_value()
    }
}

} // verus!
