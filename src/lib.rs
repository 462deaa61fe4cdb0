//! A polling console driver for NS16550-compatible UARTs, together with the
//! platform interfaces that a board binds its console and firmware calls to.
//!
//! The driver logic is generic over [`ns16550a::UartDevice`], whose model is
//! what a device has sent, what its receive polls returned and whether it has
//! been initialised. [`mmio::MmioUart`] drives the memory-mapped port of the
//! `uart_16550` crate; [`recording::RecordingUart`] stands in for hardware.
pub mod console;
pub mod mmio;
pub mod ns16550a;
pub mod psci;
pub mod recording;
