//! The per-send command trace, the antenna-direction discipline, and the
//! failure paths of transmission.

use bluehigh::bus::BusEvent;
use bluehigh::chip_sim::SimBus;
use bluehigh::lora_config::LoRaConfig;
use bluehigh::sx1268_driver::{DriverError, Stage, Sx1268Driver};
use bluehigh::sx1268_hal::Sx1268Context;

fn ready_driver(sim: SimBus) -> Sx1268Driver<SimBus> {
    let mut drv = Sx1268Driver::new(Sx1268Context::new(sim));
    assert!(drv.init(&LoRaConfig::default()).is_ok());
    drv
}

/// The levels of the two antenna-direction enables over a log.
fn antenna_states(log: &[BusEvent]) -> Vec<(bool, bool)> {
    let mut txen = false;
    let mut rxen = false;
    let mut states = vec![(txen, rxen)];
    for e in log {
        match e {
            BusEvent::TxenSet { high } => txen = *high,
            BusEvent::RxenSet { high } => rxen = *high,
            _ => {}
        }
        states.push((txen, rxen));
    }
    states
}

/// Only the antenna-direction events of a log.
fn antenna_events(log: &[BusEvent]) -> Vec<BusEvent> {
    log.iter()
        .copied()
        .filter(|e| matches!(e, BusEvent::TxenSet { .. } | BusEvent::RxenSet { .. }))
        .collect()
}

#[test]
fn transmit_trace_matches() {
    let mut drv = ready_driver(SimBus::new());
    assert!(drv.transmit(&[1, 2, 3, 4, 5]).is_ok());
    let frames = &drv.hal.bus.frames[20..];
    let expected: Vec<Vec<u8>> = vec![
        vec![0x80, 0x00],
        vec![0x0E, 0x00, 1, 2, 3, 4, 5],
        vec![0x8C, 0x00, 0x08, 0x00, 0x05, 0x01, 0x00],
        vec![0x08, 0x00, 0x01, 0x00, 0x01, 0x00, 0x00, 0x00, 0x00],
        vec![0x02, 0xFF, 0xFF],
        vec![0x83, 0x00, 0x27, 0x10],
        vec![0xC0, 0x00],
    ];
    assert_eq!(frames, &expected[..]);
    // the antenna went to transmit and back off, in that order
    assert_eq!(
        antenna_events(&drv.hal.bus.log),
        vec![
            BusEvent::RxenSet { high: false },
            BusEvent::TxenSet { high: true },
            BusEvent::TxenSet { high: false },
            BusEvent::RxenSet { high: false },
        ]
    );
}

#[test]
fn antenna_enables_never_both_high() {
    let mut drv = ready_driver(SimBus::new());
    assert!(drv.transmit(&[0xAA; 64]).is_ok());
    assert!(drv.transmit(&[0x55; 3]).is_ok());
    for (txen, rxen) in antenna_states(&drv.hal.bus.log) {
        assert!(!(txen && rxen));
    }
    let last = *antenna_states(&drv.hal.bus.log).last().unwrap();
    assert_eq!(last, (false, false));
}

#[test]
fn transmit_writes_exact_payload_length() {
    let mut drv = ready_driver(SimBus::new());
    let payload: Vec<u8> = (0..64).collect();
    assert!(drv.transmit(&payload).is_ok());
    let buffer_write = &drv.hal.bus.frames[21];
    assert_eq!(buffer_write[0], 0x0E);
    assert_eq!(buffer_write[1], 0x00);
    assert_eq!(&buffer_write[2..], &payload[..]);
    assert_eq!(buffer_write.len(), 2 + 64);
    let params = &drv.hal.bus.frames[22];
    assert_eq!(params[4], 64);
}

#[test]
fn transmit_keeps_params_across_sends() {
    let mut drv = ready_driver(SimBus::new());
    assert!(drv.transmit(&[9, 9, 9]).is_ok());
    assert!(drv.transmit(&[7]).is_ok());
    let first = drv.hal.bus.frames[22].clone();
    let second = drv.hal.bus.frames[29].clone();
    assert_eq!(first.len(), 7);
    assert_eq!(second.len(), 7);
    for j in 0..7 {
        if j == 4 {
            assert_eq!(first[j], 3);
            assert_eq!(second[j], 1);
        } else {
            assert_eq!(first[j], second[j], "packet-parameter byte {j} drifted");
        }
    }
}

#[test]
fn transmit_reads_back_chip_status() {
    let mut sim = SimBus::new();
    // operating mode 6 (transmitting), command status 1 (success)
    sim.status_byte = 0x62;
    let mut drv = ready_driver(sim);
    assert!(drv.transmit(&[1]).is_ok());
    assert_eq!(drv.last_status, Some(0x62));
}

#[test]
fn transmit_set_tx_rejected_releases_antenna() {
    let mut sim = SimBus::new();
    sim.fail_opcode = Some(0x83);
    let mut drv = ready_driver(sim);
    let r = drv.transmit(&[1, 2, 3, 4, 5]);
    assert_eq!(r, Err(DriverError::Bus(Stage::SetTx)));
    // the set-TX command was cut short and nothing was issued after it
    let frames = &drv.hal.bus.frames[20..];
    assert_eq!(frames.len(), 6);
    assert_eq!(frames[5], vec![0x83]);
    // the antenna-direction lines are both low again on return
    let last = *antenna_states(&drv.hal.bus.log).last().unwrap();
    assert_eq!(last, (false, false));
    for (txen, rxen) in antenna_states(&drv.hal.bus.log) {
        assert!(!(txen && rxen));
    }
}

#[test]
fn transmit_buffer_write_failure_keeps_antenna_off() {
    let mut sim = SimBus::new();
    sim.fail_opcode = Some(0x0E);
    let mut drv = ready_driver(sim);
    let r = drv.transmit(&[1, 2, 3]);
    assert_eq!(r, Err(DriverError::Bus(Stage::WriteBuffer)));
    // the antenna was never switched on at all
    assert!(antenna_events(&drv.hal.bus.log).is_empty());
}

#[test]
fn transmit_status_read_failure_is_advisory() {
    let mut sim = SimBus::new();
    sim.fail_opcode = Some(0xC0);
    let mut drv = ready_driver(sim);
    // the status readback fails on the bus, yet the send still succeeds
    assert!(drv.transmit(&[4, 2]).is_ok());
    assert_eq!(drv.last_status, None);
    let last = *antenna_states(&drv.hal.bus.log).last().unwrap();
    assert_eq!(last, (false, false));
}

#[test]
fn transmit_handles_maximum_payload() {
    let mut drv = ready_driver(SimBus::new());
    let payload: Vec<u8> = (0..255u16).map(|b| b as u8).collect();
    assert!(drv.transmit(&payload).is_ok());
    let buffer_write = &drv.hal.bus.frames[21];
    assert_eq!(buffer_write.len(), 2 + 255);
    assert_eq!(&buffer_write[2..], &payload[..]);
    assert_eq!(drv.hal.bus.frames[22][4], 255);
}

#[test]
fn transmit_inherits_implicit_header_and_crc_off() {
    let mut cfg = LoRaConfig::default();
    cfg.explicit_header = false;
    cfg.crc_enabled = false;
    let mut drv = Sx1268Driver::new(Sx1268Context::new(SimBus::new()));
    assert!(drv.init(&cfg).is_ok());
    assert!(drv.transmit(&[1, 2]).is_ok());
    // header-type, CRC and IQ bytes as established at initialization
    assert_eq!(drv.hal.bus.frames[22], vec![0x8C, 0x00, 0x08, 0x01, 0x02, 0x00, 0x00]);
}
