//! Configuration values and their chip register encodings.

use bluehigh::lora_config::{
    Bandwidth, CodingRate, Frequency, LoRaConfig, PaConfig, SpreadingFactor, TxPower,
};

#[test]
fn frequency_to_hz_values() {
    assert_eq!(Frequency::Freq410MHz.to_hz(), 410_000_000);
    assert_eq!(Frequency::Freq433MHz.to_hz(), 433_000_000);
    assert_eq!(Frequency::Freq441MHz.to_hz(), 441_000_000);
    assert_eq!(Frequency::Freq470MHz.to_hz(), 470_000_000);
    assert_eq!(Frequency::Freq490MHz.to_hz(), 490_000_000);
    assert_eq!(Frequency::Freq510MHz.to_hz(), 510_000_000);
}

#[test]
fn tx_power_two_stage_mapping() {
    let pairs: [(TxPower, u8, i8); 7] = [
        (TxPower::Power10dBm, 10, -5),
        (TxPower::Power15dBm, 15, 1),
        (TxPower::Power18dBm, 18, 4),
        (TxPower::Power21dBm, 21, 7),
        (TxPower::Power24dBm, 24, 10),
        (TxPower::Power27dBm, 27, 15),
        (TxPower::Power30dBm, 30, 20),
    ];
    for (p, out_dbm, chip_dbm) in pairs {
        assert_eq!(p.get_output_dbm(), out_dbm);
        assert_eq!(p.get_chip_power(), chip_dbm);
    }
}

#[test]
fn bandwidth_codes() {
    assert_eq!(Bandwidth::Bw125kHz.to_sx126x_value(), 0x04);
    assert_eq!(Bandwidth::Bw250kHz.to_sx126x_value(), 0x05);
    assert_eq!(Bandwidth::Bw500kHz.to_sx126x_value(), 0x06);
}

#[test]
fn spreading_factor_codes() {
    assert_eq!(SpreadingFactor::SF7.to_sx126x_value(), 7);
    assert_eq!(SpreadingFactor::SF8.to_sx126x_value(), 8);
    assert_eq!(SpreadingFactor::SF9.to_sx126x_value(), 9);
    assert_eq!(SpreadingFactor::SF10.to_sx126x_value(), 10);
    assert_eq!(SpreadingFactor::SF11.to_sx126x_value(), 11);
    assert_eq!(SpreadingFactor::SF12.to_sx126x_value(), 12);
}

#[test]
fn coding_rate_codes() {
    assert_eq!(CodingRate::CR45.to_sx126x_value(), 1);
    assert_eq!(CodingRate::CR46.to_sx126x_value(), 2);
    assert_eq!(CodingRate::CR47.to_sx126x_value(), 3);
    assert_eq!(CodingRate::CR48.to_sx126x_value(), 4);
}

#[test]
fn pa_config_default_values() {
    let pa = PaConfig::default();
    assert_eq!(pa.pa_duty_cycle, 0x04);
    assert_eq!(pa.hp_max, 0x07);
    assert_eq!(pa.device_sel, 0x00);
    assert_eq!(pa.pa_lut, 0x01);
}

#[test]
fn default_config_values() {
    let cfg = LoRaConfig::default();
    assert_eq!(cfg.get_frequency_mhz(), 433);
    assert_eq!(cfg.get_frequency_hz(), 433_000_000);
    assert_eq!(cfg.get_power_dbm(), 30);
    assert_eq!(cfg.get_chip_power_dbm(), 20);
    assert_eq!(cfg.get_bandwidth_khz(), 500);
    assert_eq!(cfg.get_sf(), 11);
    assert_eq!(cfg.get_cr_ratio(), 5);
    assert_eq!(cfg.get_cr_sx126x(), 1);
    assert_eq!(cfg.preamble_length, 8);
    assert!(cfg.crc_enabled);
    assert!(cfg.explicit_header);
    assert_eq!(cfg.sync_word, 0x14);
}

#[test]
fn long_range_config_values() {
    let cfg = LoRaConfig::long_range();
    assert_eq!(cfg.get_bandwidth_khz(), 125);
    assert_eq!(cfg.get_sf(), 12);
    assert_eq!(cfg.get_cr_ratio(), 8);
    assert_eq!(cfg.preamble_length, 12);
    assert_eq!(cfg.get_power_dbm(), 30);
}

#[test]
fn fast_mode_config_values() {
    let cfg = LoRaConfig::fast_mode();
    assert_eq!(cfg.get_bandwidth_khz(), 500);
    assert_eq!(cfg.get_sf(), 7);
    assert_eq!(cfg.get_cr_ratio(), 5);
    assert_eq!(cfg.preamble_length, 6);
    assert_eq!(cfg.get_power_dbm(), 27);
}

#[test]
fn low_power_config_values() {
    let cfg = LoRaConfig::low_power();
    assert_eq!(cfg.get_power_dbm(), 10);
    assert_eq!(cfg.get_chip_power_dbm(), -5);
    assert_eq!(cfg.get_bandwidth_khz(), 125);
    assert_eq!(cfg.get_sf(), 9);
    assert_eq!(cfg.get_cr_ratio(), 7);
}
