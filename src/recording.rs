//! A stand-in for UART hardware: it keeps every byte it is sent and hands out
//! a fixed queue of input, one byte per poll, then reports nothing waiting.
use crate::ns16550a::UartDevice;
use vstd::prelude::*;

verus! {

/// A device that records its output and replays queued input.
pub struct RecordingUart {
    ready: bool,
    sent: Vec<u8>,
    input: Vec<u8>,
    next: usize,
    polls: Ghost<Seq<Option<u8>>>,
}

impl RecordingUart {
    /// The input not yet received.
    pub closed spec fn pending(&self) -> Seq<u8> {
        if self.next <= self.input.len() {
            self.input@.skip(self.next as int)
        } else {
            Seq::empty()
        }
    }

    /// A device, not yet initialised, with nothing sent and `input` queued.
    pub fn new(input: Vec<u8>) -> (r: RecordingUart)
        ensures
            !r.ready(),
            r.tx() == Seq::<u8>::empty(),
            r.rx_polls() == Seq::<Option<u8>>::empty(),
            r.pending() == input@,
    {
        let r = RecordingUart {
            ready: false,
            sent: Vec::new(),
            input,
            next: 0,
            polls: Ghost(Seq::empty()),
        };
        assert(r.input@.skip(0) =~= r.input@);
        r
    }

    /// Whether the initialisation sequence has run.
    pub fn is_ready(&self) -> (r: bool)
        ensures
            r == self.ready(),
    {
        self.ready
    }

    /// Every byte sent so far, oldest first.
    pub fn sent(&self) -> (r: &Vec<u8>)
        ensures
            r@ == self.tx(),
    {
        &self.sent
    }

    /// How many queued input bytes are still waiting.
    pub fn pending_len(&self) -> (r: usize)
        ensures
            r == self.pending().len(),
    {
        if self.next <= self.input.len() {
            self.input.len() - self.next
        } else {
            0
        }
    }
}

impl UartDevice for RecordingUart {
    closed spec fn tx(&self) -> Seq<u8> {
        self.sent@
    }

    closed spec fn rx_polls(&self) -> Seq<Option<u8>> {
        self.polls@
    }

    closed spec fn ready(&self) -> bool {
        self.ready
    }

    fn initialize(&mut self) {
        self.ready = true;
    }

    fn transmit(&mut self, byte: u8) {
        self.sent.push(byte);
    }

    fn poll_receive(&mut self) -> (r: Option<u8>) {
        let r = if self.next < self.input.len() {
            let b = self.input[self.next];
            self.next = self.next + 1;
            Some(b)
        } else {
            None
        };
        self.polls = Ghost(self.polls@.push(r));
        r
    }
}

} // verus!
