//! The transport layer's busy wait, framing and control-line pulses, and
//! the driver's diagnostics commands.

use bluehigh::bus::BusEvent;
use bluehigh::chip_sim::SimBus;
use bluehigh::sx1268_driver::{status_command, status_mode, DriverError, Stage, Sx1268Driver};
use bluehigh::sx1268_hal::{Sx1268Context, Sx1268HalStatus};

#[test]
fn busy_held_high_returns_after_ceiling() {
    let mut sim = SimBus::new();
    sim.busy_reads_high = u32::MAX;
    let mut ctx = Sx1268Context::new(sim);
    let free = ctx.wait_on_busy();
    assert!(!free);
    assert_eq!(ctx.bus.log.len(), 10_000);
    for e in &ctx.bus.log {
        assert_eq!(*e, BusEvent::BusyRead { high: true });
    }
}

#[test]
fn busy_wait_stops_at_first_low_reading() {
    let mut sim = SimBus::new();
    sim.busy_reads_high = 3;
    let mut ctx = Sx1268Context::new(sim);
    let free = ctx.wait_on_busy();
    assert!(free);
    assert_eq!(ctx.bus.log.len(), 4);
    assert_eq!(*ctx.bus.log.last().unwrap(), BusEvent::BusyRead { high: false });
}

#[test]
fn busy_timeout_does_not_decide_the_transaction() {
    // busy held high forever, but the bus itself is healthy: the write
    // that follows the exhausted wait still goes through
    let mut sim = SimBus::new();
    sim.busy_reads_high = u32::MAX;
    let mut ctx = Sx1268Context::new(sim);
    let r = ctx.write(&[0x80, 0x00], &[]);
    assert_eq!(r, Sx1268HalStatus::Success);
    assert_eq!(ctx.bus.frames, vec![vec![0x80, 0x00]]);

    // same busy line, but now the bus fails: the transaction fails on its
    // own, not because of the busy signal
    let mut sim2 = SimBus::new();
    sim2.busy_reads_high = u32::MAX;
    sim2.fail_at_xfer = Some(0);
    let mut ctx2 = Sx1268Context::new(sim2);
    let r2 = ctx2.write(&[0x80, 0x00], &[]);
    assert_eq!(r2, Sx1268HalStatus::Error);
    assert!(ctx2.bus.frames.is_empty());
}

#[test]
fn write_frames_opcode_and_payload_together() {
    let mut ctx = Sx1268Context::new(SimBus::new());
    let r = ctx.write(&[0x0E, 0x00], &[0xDE, 0xAD]);
    assert_eq!(r, Sx1268HalStatus::Success);
    assert_eq!(ctx.bus.frames, vec![vec![0x0E, 0x00, 0xDE, 0xAD]]);
    // chip select framed exactly one transaction
    let nss: Vec<BusEvent> = ctx
        .bus
        .log
        .iter()
        .copied()
        .filter(|e| matches!(e, BusEvent::NssSet { .. }))
        .collect();
    assert_eq!(
        nss,
        vec![BusEvent::NssSet { high: false }, BusEvent::NssSet { high: true }]
    );
}

#[test]
fn read_captures_response_bytes() {
    let mut sim = SimBus::new();
    sim.status_byte = 0xAB;
    let mut ctx = Sx1268Context::new(sim);
    let mut resp = vec![0u8];
    let r = ctx.read(&[0xC0, 0x00], &mut resp);
    assert_eq!(r, Sx1268HalStatus::Success);
    assert_eq!(resp, vec![0xAB]);
}

#[test]
fn reset_pulses_the_reset_line() {
    let mut ctx = Sx1268Context::new(SimBus::new());
    assert_eq!(ctx.reset(), Sx1268HalStatus::Success);
    assert_eq!(
        ctx.bus.log,
        vec![
            BusEvent::NrstSet { high: false },
            BusEvent::DelayMs { ms: 10 },
            BusEvent::NrstSet { high: true },
            BusEvent::DelayMs { ms: 10 },
        ]
    );
}

#[test]
fn wakeup_toggles_chip_select() {
    let mut ctx = Sx1268Context::new(SimBus::new());
    assert_eq!(ctx.wakeup(), Sx1268HalStatus::Success);
    assert_eq!(
        ctx.bus.log,
        vec![
            BusEvent::NssSet { high: false },
            BusEvent::DelayMs { ms: 1 },
            BusEvent::NssSet { high: true },
            BusEvent::DelayMs { ms: 1 },
        ]
    );
    // an empty chip-select toggle is no command frame
    assert!(ctx.bus.frames.is_empty());
}

#[test]
fn rf_switch_orders_the_enables_safely() {
    let mut ctx = Sx1268Context::new(SimBus::new());
    assert_eq!(ctx.rf_switch_tx(), Sx1268HalStatus::Success);
    assert_eq!(ctx.rf_switch_rx(), Sx1268HalStatus::Success);
    assert_eq!(ctx.rf_switch_off(), Sx1268HalStatus::Success);
    assert_eq!(
        ctx.bus.log,
        vec![
            BusEvent::RxenSet { high: false },
            BusEvent::TxenSet { high: true },
            BusEvent::TxenSet { high: false },
            BusEvent::RxenSet { high: true },
            BusEvent::TxenSet { high: false },
            BusEvent::RxenSet { high: false },
        ]
    );
}

#[test]
fn get_status_returns_the_status_byte() {
    let mut sim = SimBus::new();
    sim.status_byte = 0x2C;
    let mut drv = Sx1268Driver::new(Sx1268Context::new(sim));
    assert_eq!(drv.get_status(), Ok(0x2C));
}

#[test]
fn get_device_errors_decodes_big_endian() {
    let mut sim = SimBus::new();
    sim.device_errors = 0x1234;
    let mut drv = Sx1268Driver::new(Sx1268Context::new(sim));
    assert_eq!(drv.get_device_errors(), Ok(0x1234));
}

#[test]
fn clear_device_errors_clears_the_flags() {
    let mut sim = SimBus::new();
    sim.device_errors = 0x0040;
    let mut drv = Sx1268Driver::new(Sx1268Context::new(sim));
    assert_eq!(drv.clear_device_errors(), Ok(()));
    assert_eq!(drv.get_device_errors(), Ok(0));
}

#[test]
fn register_write_read_round_trip() {
    let mut drv = Sx1268Driver::new(Sx1268Context::new(SimBus::new()));
    assert_eq!(drv.read_register(0x0740), Ok(0));
    assert_eq!(drv.write_register(0x0740, 0x99), Ok(()));
    assert_eq!(drv.read_register(0x0740), Ok(0x99));
}

#[test]
fn diagnostics_report_bus_failures() {
    let mut sim = SimBus::new();
    sim.fail_opcode = Some(0xC0);
    let mut drv = Sx1268Driver::new(Sx1268Context::new(sim));
    assert_eq!(drv.get_status(), Err(DriverError::Bus(Stage::StatusRead)));
}

#[test]
fn status_byte_sub_fields() {
    // mode 6 (transmitting), command status 1 (success)
    assert_eq!(status_mode(0x62), 6);
    assert_eq!(status_command(0x62), 1);
    // standby-RC readback
    assert_eq!(status_mode(0x22), 2);
    assert_eq!(status_command(0x22), 1);
}
