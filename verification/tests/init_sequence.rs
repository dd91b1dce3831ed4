//! The initialization command trace against the simulated chip.

use bluehigh::chip_sim::SimBus;
use bluehigh::lora_config::{Frequency, LoRaConfig, SpreadingFactor, TxPower};
use bluehigh::sx1268_driver::{DriverError, Sx1268Driver};
use bluehigh::sx1268_hal::Sx1268Context;

fn driver_on(sim: SimBus) -> Sx1268Driver<SimBus> {
    Sx1268Driver::new(Sx1268Context::new(sim))
}

/// The twenty command frames initialization issues for a configuration,
/// on a chip whose scratch register read zero before the self test.
fn expected_init_frames(cfg: &LoRaConfig) -> Vec<Vec<u8>> {
    let freq_reg: u32 = ((cfg.get_frequency_hz() as u64) * (1u64 << 25) / 32_000_000) as u32;
    let chip_power = cfg.get_chip_power_dbm() as u8;
    let preamble = cfg.preamble_length.to_be_bytes();
    let header: u8 = if cfg.explicit_header { 0x00 } else { 0x01 };
    let crc: u8 = if cfg.crc_enabled { 0x01 } else { 0x00 };
    let ldro: u8 = if cfg.get_sf() >= 11 { 0x01 } else { 0x00 };
    vec![
        vec![0x07, 0x00, 0x00],
        vec![0x80, 0x00],
        vec![0x1D, 0x09, 0x20, 0x00],
        vec![0x0D, 0x09, 0x20, 0xA5],
        vec![0x1D, 0x09, 0x20, 0x00],
        vec![0x0D, 0x09, 0x20, 0x00],
        vec![0x96, 0x01],
        vec![0x9D, 0x00],
        vec![0x97, 0x07, 0x01, 0x40, 0x00],
        vec![0x17, 0x00, 0x00, 0x00],
        vec![0x8F, 0x00, 0x00],
        vec![0x89, 0x7F],
        vec![0x8A, 0x01],
        {
            let b = freq_reg.to_be_bytes();
            vec![0x86, b[0], b[1], b[2], b[3]]
        },
        vec![
            0x95,
            cfg.pa_config.pa_duty_cycle,
            cfg.pa_config.hp_max,
            cfg.pa_config.device_sel,
            cfg.pa_config.pa_lut,
        ],
        vec![0x8E, chip_power, 0x04],
        vec![0x93, 0x40],
        vec![0x8B, cfg.get_sf(), cfg.bandwidth.to_sx126x_value(), cfg.get_cr_sx126x(), ldro],
        vec![0x8C, preamble[0], preamble[1], header, 0xFF, crc, 0x00],
        vec![0x0D, 0x07, 0x40, cfg.sync_word],
    ]
}

#[test]
fn init_default_trace_matches() {
    let cfg = LoRaConfig::default();
    let mut drv = driver_on(SimBus::new());
    assert!(drv.init(&cfg).is_ok());
    let expected = expected_init_frames(&cfg);
    assert_eq!(drv.hal.bus.frames, expected);
}

#[test]
fn init_frequency_register_each_band() {
    let cases: [(Frequency, [u8; 4]); 6] = [
        (Frequency::Freq410MHz, [0x19, 0xA0, 0x00, 0x00]),
        (Frequency::Freq433MHz, [0x1B, 0x10, 0x00, 0x00]),
        (Frequency::Freq441MHz, [0x1B, 0x90, 0x00, 0x00]),
        (Frequency::Freq470MHz, [0x1D, 0x60, 0x00, 0x00]),
        (Frequency::Freq490MHz, [0x1E, 0xA0, 0x00, 0x00]),
        (Frequency::Freq510MHz, [0x1F, 0xE0, 0x00, 0x00]),
    ];
    for (freq, bytes) in cases {
        let mut cfg = LoRaConfig::default();
        cfg.frequency = freq;
        let mut drv = driver_on(SimBus::new());
        assert!(drv.init(&cfg).is_ok());
        let frame = &drv.hal.bus.frames[13];
        assert_eq!(frame[0], 0x86);
        assert_eq!(&frame[1..], &bytes);
        // exactly one frequency-register write in the whole sequence
        let writes = drv.hal.bus.frames.iter().filter(|f| f[0] == 0x86).count();
        assert_eq!(writes, 1);
    }
}

#[test]
fn ldro_forced_by_spreading_factor() {
    let cases: [(SpreadingFactor, u8); 6] = [
        (SpreadingFactor::SF7, 0x00),
        (SpreadingFactor::SF8, 0x00),
        (SpreadingFactor::SF9, 0x00),
        (SpreadingFactor::SF10, 0x00),
        (SpreadingFactor::SF11, 0x01),
        (SpreadingFactor::SF12, 0x01),
    ];
    for (sf, ldro) in cases {
        let mut cfg = LoRaConfig::default();
        cfg.spreading_factor = sf;
        let mut drv = driver_on(SimBus::new());
        assert!(drv.init(&cfg).is_ok());
        let modulation = &drv.hal.bus.frames[17];
        assert_eq!(modulation[0], 0x8B);
        assert_eq!(modulation[1], sf.to_sx126x_value());
        assert_eq!(modulation[4], ldro);
    }
}

#[test]
fn init_is_idempotent() {
    let cfg = LoRaConfig::default();
    let mut drv = driver_on(SimBus::new());
    assert!(drv.init(&cfg).is_ok());
    let first: Vec<Vec<u8>> = drv.hal.bus.frames.clone();
    assert!(drv.init(&cfg).is_ok());
    let second = &drv.hal.bus.frames[first.len()..];
    assert_eq!(second, &first[..]);
}

#[test]
fn init_fail_fast_at_every_byte() {
    let cfg = LoRaConfig::default();
    let expected = expected_init_frames(&cfg);
    let total_bytes: usize = expected.iter().map(|f| f.len()).sum();
    assert_eq!(total_bytes, 72);
    for k in 0..total_bytes {
        let mut sim = SimBus::new();
        sim.fail_at_xfer = Some(k as u64);
        let mut drv = driver_on(sim);
        let r = drv.init(&cfg);
        assert!(r.is_err(), "injected failure at byte {k} must abort");
        match r.unwrap_err() {
            DriverError::Bus(_) => {}
            other => panic!("unexpected error at byte {k}: {other:?}"),
        }
        // nothing was issued past the failing command: every recorded
        // frame matches the documented sequence, except the last, which
        // is a proper prefix of its documented command
        let frames = &drv.hal.bus.frames;
        assert!(frames.len() <= expected.len());
        for (i, f) in frames.iter().enumerate() {
            if i + 1 < frames.len() {
                assert_eq!(f, &expected[i], "complete frame {i} differs (failure at {k})");
            } else {
                assert!(
                    f.len() <= expected[i].len() && *f == expected[i][..f.len()],
                    "last frame is not a prefix (failure at {k})"
                );
            }
        }
    }
}

#[test]
fn init_rejects_short_preamble() {
    let mut cfg = LoRaConfig::default();
    cfg.preamble_length = 5;
    let mut drv = driver_on(SimBus::new());
    assert_eq!(drv.init(&cfg), Err(DriverError::InvalidConfig));
    assert!(drv.hal.bus.log.is_empty());
    assert!(drv.hal.bus.frames.is_empty());
}

#[test]
fn init_reports_self_test_mismatch() {
    let cfg = LoRaConfig::default();
    let mut sim = SimBus::new();
    sim.ignore_reg_writes = true;
    let mut drv = driver_on(sim);
    assert_eq!(drv.init(&cfg), Err(DriverError::SelfTest));
    // the four self-test transactions were issued, nothing after them
    assert_eq!(drv.hal.bus.frames.len(), 6);
    assert_eq!(drv.hal.bus.frames[3], vec![0x0D, 0x09, 0x20, 0xA5]);
}

#[test]
fn init_reports_oscillator_start_failure() {
    let cfg = LoRaConfig::default();
    let mut sim = SimBus::new();
    sim.xosc_fails = true;
    let mut drv = driver_on(sim);
    assert_eq!(drv.init(&cfg), Err(DriverError::OscillatorStart));
    // aborted right after the device-error readback
    assert_eq!(drv.hal.bus.frames.len(), 10);
    assert_eq!(drv.hal.bus.frames[9], vec![0x17, 0x00, 0x00, 0x00]);
}

#[test]
fn init_encodes_negative_chip_power() {
    let mut cfg = LoRaConfig::default();
    cfg.tx_power = TxPower::Power10dBm;
    let mut drv = driver_on(SimBus::new());
    assert!(drv.init(&cfg).is_ok());
    // -5 dBm as the two's-complement register byte, 40 us ramp
    assert_eq!(drv.hal.bus.frames[15], vec![0x8E, 0xFB, 0x04]);
}

#[test]
fn packet_params_encode_all_fields() {
    let mut cfg = LoRaConfig::default();
    cfg.preamble_length = 520; // 0x0208, exercises both big-endian bytes
    cfg.explicit_header = false;
    cfg.crc_enabled = false;
    let mut drv = driver_on(SimBus::new());
    assert!(drv.init(&cfg).is_ok());
    // preamble big-endian, implicit header, placeholder length, CRC off
    assert_eq!(drv.hal.bus.frames[18], vec![0x8C, 0x02, 0x08, 0x01, 0xFF, 0x00, 0x00]);
    // the sync word lands in its register
    assert_eq!(drv.hal.bus.frames[19], vec![0x0D, 0x07, 0x40, 0x14]);
}
