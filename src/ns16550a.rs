//! NS16550A UART console driver.
use vstd::prelude::*;

verus! {

/// The line-feed byte, written on the wire as carriage return then line feed.
pub const LF: u8 = 10;

/// The carriage-return byte inserted before every line feed.
pub const CR: u8 = 13;

/// What the driver hands to the device for one byte of output.
pub open spec fn cooked_byte(c: u8) -> Seq<u8> {
    if c == LF {
        seq![CR, LF]
    } else {
        seq![c]
    }
}

/// What the driver hands to the device for a whole buffer of output: every
/// byte in order, each line feed preceded by a carriage return.
pub open spec fn cooked(s: Seq<u8>) -> Seq<u8>
    decreases s.len(),
{
    if s.len() == 0 {
        Seq::empty()
    } else {
        cooked(s.drop_last()) + cooked_byte(s.last())
    }
}

/// The receive polls that reading into a buffer makes: one that yields each
/// byte of `got`, then, unless the buffer was `filled`, one that found nothing.
pub open spec fn read_polls(got: Seq<u8>, filled: bool) -> Seq<Option<u8>> {
    got.map_values(|b: u8| Some(b)) + if filled {
        Seq::<Option<u8>>::empty()
    } else {
        seq![None::<u8>]
    }
}

/// A serial device that the driver polls: it accepts one byte at a time and
/// reports, without waiting, whether a received byte is available. Its model
/// is what it has sent, what its receive polls returned, and whether its
/// initialisation sequence has run.
pub trait UartDevice {
    /// The bytes the device has sent, oldest first.
    spec fn tx(&self) -> Seq<u8>;

    /// The results of the device's receive polls, oldest first.
    spec fn rx_polls(&self) -> Seq<Option<u8>>;

    /// Whether the device's initialisation sequence has run.
    spec fn ready(&self) -> bool;

    /// Runs the device's initialisation sequence.
    fn initialize(&mut self)
        ensures
            final(self).ready(),
            final(self).tx() == old(self).tx(),
            final(self).rx_polls() == old(self).rx_polls(),
    ;

    /// Sends one byte.
    fn transmit(&mut self, byte: u8)
        requires
            old(self).ready(),
        ensures
            final(self).ready(),
            final(self).tx() == old(self).tx().push(byte),
            final(self).rx_polls() == old(self).rx_polls(),
    ;

    /// Takes one received byte, or `None` when nothing is waiting.
    fn poll_receive(&mut self) -> (r: Option<u8>)
        requires
            old(self).ready(),
        ensures
            final(self).ready(),
            final(self).tx() == old(self).tx(),
            final(self).rx_polls() == old(self).rx_polls().push(r),
    ;
}

/// An initialised UART: the only way to obtain one is [`init_early`], so every
/// console operation reaches a device whose initialisation has run.
pub struct Ns16550<P> {
    port: P,
}

impl<P> Ns16550<P> {
    /// The device that the driver drives.
    pub closed spec fn dev(&self) -> P {
        self.port
    }

    /// The device itself.
    pub fn device(&self) -> (r: &P)
        ensures
            *r == self.dev(),
    {
        &self.port
    }
}

fn do_putchar<P: UartDevice>(uart: &mut Ns16550<P>, c: u8)
    requires
        old(uart).dev().ready(),
    ensures
        final(uart).dev().ready(),
        final(uart).dev().tx() == old(uart).dev().tx() + cooked_byte(c),
        final(uart).dev().rx_polls() == old(uart).dev().rx_polls(),
{
    if c == LF {
        uart.port.transmit(CR);
        uart.port.transmit(LF);
    } else {
        uart.port.transmit(c);
    }
    assert(uart.dev().tx() =~= old(uart).dev().tx() + cooked_byte(c));
}

/// Early stage initialisation: runs the device's initialisation sequence and
/// takes the device over. Before it runs there is no driver, so no console
/// operation can reach a device that was not initialised.
pub fn init_early<P: UartDevice>(port: P) -> (r: Ns16550<P>)
    ensures
        r.dev().ready(),
        r.dev().tx() == port.tx(),
        r.dev().rx_polls() == port.rx_polls(),
{
    let mut port = port;
    port.initialize();
    Ns16550 { port }
}

/// Writes a byte to the console; a line feed goes out as carriage return then
/// line feed.
pub fn putchar<P: UartDevice>(uart: &mut Ns16550<P>, c: u8)
    requires
        old(uart).dev().ready(),
    ensures
        final(uart).dev().ready(),
        final(uart).dev().tx() == old(uart).dev().tx() + cooked_byte(c),
        final(uart).dev().rx_polls() == old(uart).dev().rx_polls(),
{
    do_putchar(uart, c);
}

/// Reads a byte from the console, or reports that none is waiting.
pub fn getchar<P: UartDevice>(uart: &mut Ns16550<P>) -> (r: Result<u8, WouldBlock>)
    requires
        old(uart).dev().ready(),
    ensures
        final(uart).dev().ready(),
        final(uart).dev().tx() == old(uart).dev().tx(),
        final(uart).dev().rx_polls() == old(uart).dev().rx_polls().push(
            match r {
                Ok(b) => Some(b),
                Err(_) => None,
            },
        ),
{
    let r = uart.port.poll_receive();
    match r {
        Some(b) => Ok(b),
        None => Err(WouldBlock),
    }
}

/// Writes a slice of bytes to the console, translating each line feed as
/// [`putchar`] does.
pub fn write_bytes<P: UartDevice>(uart: &mut Ns16550<P>, bytes: &[u8])
    requires
        old(uart).dev().ready(),
    ensures
        final(uart).dev().ready(),
        final(uart).dev().tx() == old(uart).dev().tx() + cooked(bytes@),
        final(uart).dev().rx_polls() == old(uart).dev().rx_polls(),
{
    let n = bytes.len();
    let mut i: usize = 0;
    while i < n
        invariant
            n == bytes@.len(),
            i <= n,
            uart.dev().ready(),
            uart.dev().tx() == old(uart).dev().tx() + cooked(bytes@.take(i as int)),
            uart.dev().rx_polls() == old(uart).dev().rx_polls(),
        decreases n - i,
    {
        do_putchar(uart, bytes[i]);
        assert(bytes@.take(i + 1).drop_last() =~= bytes@.take(i as int));
        i = i + 1;
    }
    assert(bytes@.take(n as int) =~= bytes@);
}

/// Reads bytes from the console into `bytes` until it is full or the device
/// has nothing more waiting, and returns how many were read. The bytes past
/// that count are left as they were.
pub fn read_bytes<P: UartDevice>(uart: &mut Ns16550<P>, bytes: &mut [u8]) -> (n: usize)
    requires
        old(uart).dev().ready(),
    ensures
        final(uart).dev().ready(),
        n <= old(bytes)@.len(),
        final(bytes)@.len() == old(bytes)@.len(),
        final(bytes)@.skip(n as int) == old(bytes)@.skip(n as int),
        final(uart).dev().rx_polls() == old(uart).dev().rx_polls() + read_polls(
            final(bytes)@.take(n as int),
            n == old(bytes)@.len(),
        ),
        final(uart).dev().tx() == old(uart).dev().tx(),
{
    let len = bytes.len();
    let mut read_len: usize = 0;
    while read_len < len
        invariant_except_break
            read_len <= len,
            len == bytes@.len(),
            len == old(bytes)@.len(),
            forall|j: int| read_len <= j < len ==> bytes@[j] == old(bytes)@[j],
            uart.dev().ready(),
            uart.dev().rx_polls() == old(uart).dev().rx_polls() + read_polls(
                bytes@.take(read_len as int),
                true,
            ),
            uart.dev().tx() == old(uart).dev().tx(),
        ensures
            read_len <= len,
            len == bytes@.len(),
            len == old(bytes)@.len(),
            forall|j: int| read_len <= j < len ==> bytes@[j] == old(bytes)@[j],
            uart.dev().ready(),
            uart.dev().rx_polls() == old(uart).dev().rx_polls() + read_polls(
                bytes@.take(read_len as int),
                read_len == len,
            ),
            uart.dev().tx() == old(uart).dev().tx(),
        decreases len - read_len,
    {
        match getchar(uart) {
            Ok(c) => {
                let ghost before = bytes@;
                bytes[read_len] = c;
                assert(bytes@.take(read_len + 1) =~= before.take(read_len as int).push(c));
                read_len = read_len + 1;
            }
            Err(_) => {
                break;
            }
        }
    }
    assert(bytes@.skip(read_len as int) =~= old(bytes)@.skip(read_len as int));
    read_len
}

/// The number of line feeds in `s`.
pub open spec fn lf_count(s: Seq<u8>) -> nat
    decreases s.len(),
{
    if s.len() == 0 {
        0
    } else {
        lf_count(s.drop_last()) + if s.last() == LF {
            1nat
        } else {
            0nat
        }
    }
}

/// A prefix holds no more line feeds than the whole.
pub proof fn lemma_lf_count_prefix(s: Seq<u8>, k: int)
    requires
        0 <= k <= s.len(),
    ensures
        lf_count(s.take(k)) <= lf_count(s),
    decreases s.len(),
{
    if k == s.len() {
        assert(s.take(k) =~= s);
    } else {
        assert(s.take(k) =~= s.drop_last().take(k));
        lemma_lf_count_prefix(s.drop_last(), k);
    }
}

/// Output that holds no line feed reaches the device unchanged and in order.
pub proof fn lemma_cooked_without_lf(s: Seq<u8>)
    requires
        forall|i: int| 0 <= i < s.len() ==> s[i] != LF,
    ensures
        cooked(s) == s,
    decreases s.len(),
{
    if s.len() > 0 {
        lemma_cooked_without_lf(s.drop_last());
        assert(s.drop_last().push(s.last()) =~= s);
        assert(cooked_byte(s.last()) =~= seq![s.last()]);
    }
}

/// Each line feed of the output reaches the device right after one inserted
/// carriage return, and nothing else is inserted: byte `i` of `s` lands at
/// `i` plus the number of line feeds up to and including it, a line feed has
/// a carriage return just before it, and the stream is exactly as long as
/// `s` plus its line feeds.
pub proof fn lemma_cooked_inserts_cr(s: Seq<u8>)
    ensures
        cooked(s).len() == s.len() + lf_count(s),
        forall|i: int|
            0 <= i < s.len() ==> #[trigger] cooked(s)[i + lf_count(s.take(i + 1))] == s[i],
        forall|i: int|
            0 <= i < s.len() && s[i] == LF ==> #[trigger] cooked(s)[i + lf_count(s.take(i))] == CR,
    decreases s.len(),
{
    if s.len() > 0 {
        let t = s.drop_last();
        let c = s.last();
        lemma_cooked_inserts_cr(t);
        assert(s.take(s.len() as int) =~= s);
        assert(s.take(s.len() - 1) =~= t);
        assert forall|i: int| 0 <= i < s.len() implies #[trigger] cooked(s)[i + lf_count(
            s.take(i + 1),
        )] == s[i] by {
            if i < t.len() {
                assert(s.take(i + 1) =~= t.take(i + 1));
                lemma_lf_count_prefix(t, i + 1);
                assert(cooked(t)[i + lf_count(t.take(i + 1))] == t[i]);
            }
        }
        assert forall|i: int| 0 <= i < s.len() && s[i] == LF implies #[trigger] cooked(s)[i
            + lf_count(s.take(i))] == CR by {
            if i < t.len() {
                assert(s.take(i) =~= t.take(i));
                lemma_lf_count_prefix(t, i);
                assert(cooked(t)[i + lf_count(t.take(i))] == CR);
            }
        }
    }
}

/// Writing `a` and then `b` hands the device the same bytes as writing
/// `a + b` at once: each buffer arrives as one unbroken block.
pub proof fn lemma_cooked_concat(a: Seq<u8>, b: Seq<u8>)
    ensures
        cooked(a + b) == cooked(a) + cooked(b),
    decreases b.len(),
{
    if b.len() == 0 {
        assert(a + b =~= a);
        assert(cooked(a) + cooked(b) =~= cooked(a));
    } else {
        assert((a + b).drop_last() =~= a + b.drop_last());
        assert((a + b).last() == b.last());
        lemma_cooked_concat(a, b.drop_last());
        assert(cooked(a + b) =~= cooked(a) + cooked(b));
    }
}

/// Draining a device that holds `queued` and stays idle after it, into a
/// buffer of `capacity` bytes with room for more than that, reads exactly the
/// queued bytes: where `polls` are the polls that [`read_bytes`] made and
/// `got` the bytes it read, the count is the queued amount, not the buffer's
/// length.
pub proof fn lemma_drain_reads_queued(
    queued: Seq<u8>,
    got: Seq<u8>,
    capacity: nat,
    polls: Seq<Option<u8>>,
)
    requires
        queued.len() < capacity,
        got.len() <= capacity,
        polls == read_polls(got, got.len() == capacity),
        forall|k: int|
            0 <= k < polls.len() ==> #[trigger] polls[k] == if k < queued.len() {
                Some(queued[k])
            } else {
                None
            },
    ensures
        got == queued,
{
    let p = polls;
    if got.len() > queued.len() {
        assert(p[queued.len() as int] == Some(got[queued.len() as int]));
    } else if got.len() < queued.len() {
        assert(p[got.len() as int] == None::<u8>);
    } else {
        assert forall|k: int| 0 <= k < got.len() implies got[k] == queued[k] by {
            assert(p[k] == Some(got[k]));
        }
        assert(got =~= queued);
    }
}

/// The outcome of a receive poll that found no byte waiting. This is the
/// ordinary state of an idle line, not a fault.
#[derive(Clone, Copy, Debug, PartialEq, Eq, Structural)]
pub struct WouldBlock;

} // verus!
