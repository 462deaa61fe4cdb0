//! The memory-mapped 16550 port of the `uart_16550` crate as a [`UartDevice`].
use crate::ns16550a::UartDevice;
use uart_16550::{MmioSerialPort, WouldBlockError};
use vstd::prelude::*;

verus! {

/// The memory-mapped serial port, carried through as an opaque value.
#[verifier::external_type_specification]
#[verifier::external_body]
pub struct ExMmioSerialPort(MmioSerialPort);

/// The error of a receive attempt that found no byte waiting.
#[verifier::external_type_specification]
#[verifier::external_body]
pub struct ExWouldBlockError(WouldBlockError);

/// Relies on `MmioSerialPort::init`: writes the configuration registers once
/// and returns.
pub assume_specification[ MmioSerialPort::init ](port: &mut MmioSerialPort);

/// Relies on `MmioSerialPort::send_raw`: waits until the transmitter is empty,
/// then writes the byte, unchanged, to the data register.
pub assume_specification[ MmioSerialPort::send_raw ](port: &mut MmioSerialPort, data: u8);

/// Relies on `MmioSerialPort::try_receive`: reads the data register when the
/// line status reports a byte, and fails with `WouldBlockError` otherwise.
pub assume_specification[ MmioSerialPort::try_receive ](port: &mut MmioSerialPort) -> Result<
    u8,
    WouldBlockError,
>;

/// A memory-mapped UART together with the record of what was done with it:
/// each byte written to its data register and each receive poll's result.
pub struct MmioUart {
    port: MmioSerialPort,
    tx: Ghost<Seq<u8>>,
    polls: Ghost<Seq<Option<u8>>>,
    ready: Ghost<bool>,
}

impl MmioUart {
    /// Takes over a port that has not been initialised yet.
    pub fn new(port: MmioSerialPort) -> (r: MmioUart)
        ensures
            !r.ready(),
            r.tx() == Seq::<u8>::empty(),
            r.rx_polls() == Seq::<Option<u8>>::empty(),
    {
        MmioUart { port, tx: Ghost(Seq::empty()), polls: Ghost(Seq::empty()), ready: Ghost(false) }
    }
}

impl UartDevice for MmioUart {
    closed spec fn tx(&self) -> Seq<u8> {
        self.tx@
    }

    closed spec fn rx_polls(&self) -> Seq<Option<u8>> {
        self.polls@
    }

    closed spec fn ready(&self) -> bool {
        self.ready@
    }

    fn initialize(&mut self) {
        MmioSerialPort::init(&mut self.port);
        self.ready = Ghost(true);
    }

    fn transmit(&mut self, byte: u8) {
        MmioSerialPort::send_raw(&mut self.port, byte);
        self.tx = Ghost(self.tx@.push(byte));
    }

    fn poll_receive(&mut self) -> (r: Option<u8>) {
        let r = match MmioSerialPort::try_receive(&mut self.port) {
            Ok(b) => Some(b),
            Err(_) => None,
        };
        self.polls = Ghost(self.polls@.push(r));
        r
    }
}

} // verus!
