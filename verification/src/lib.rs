//! Verified driver core for an SX1268-class LoRa radio module.
//!
//! The crate is organised bottom-up:
//!
//! * [`bus`] defines the hardware capability the driver runs on — the
//!   chip-select, reset, busy and antenna-direction lines and the
//!   full-duplex SPI byte exchange — together with the event model that
//!   every contract in the crate is stated over.
//! * [`lora_config`] holds the radio configuration and its chip register
//!   encodings.
//! * [`sx1268_hal`] is the transport layer: it frames byte exchanges into
//!   chip command transactions, polls the busy line with a bounded
//!   ceiling, and drives the antenna-direction lines.
//! * [`sx1268_driver`] is the protocol layer: it sequences the chip's
//!   documented initialization and transmission procedures and promises
//!   their exact command traces.
//! * [`laws`] proves trace properties that span several operations.
//! * [`chip_sim`] is an in-memory implementation of the capability
//!   interface, modelling the chip far enough to exercise the driver.

pub mod bus;
pub mod chip_sim;
pub mod laws;
pub mod lora_config;
pub mod sx1268_driver;
pub mod sx1268_hal;
