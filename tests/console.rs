use ns16550_console::ns16550a::{
    getchar, init_early, putchar, read_bytes, write_bytes, Ns16550, WouldBlock,
};
use ns16550_console::recording::RecordingUart;

fn console(input: &[u8]) -> Ns16550<RecordingUart> {
    init_early(RecordingUart::new(input.to_vec()))
}

#[test]
fn init_early_initializes_the_device() {
    let uart = console(b"");
    assert!(uart.device().is_ready());
    assert!(uart.device().sent().is_empty());
}

#[test]
fn bytes_without_line_feed_pass_unchanged() {
    let mut uart = console(b"");
    write_bytes(&mut uart, b"plain text\r\t\x00\xff");
    assert_eq!(uart.device().sent().clone(), b"plain text\r\t\x00\xff".to_vec());
}

#[test]
fn every_line_feed_gets_a_carriage_return() {
    let mut uart = console(b"");
    write_bytes(&mut uart, b"\na\n\nb\n");
    assert_eq!(uart.device().sent().clone(), b"\r\na\r\n\r\nb\r\n".to_vec());
}

#[test]
fn empty_write_sends_nothing() {
    let mut uart = console(b"");
    write_bytes(&mut uart, b"");
    assert!(uart.device().sent().is_empty());
}

#[test]
fn putchar_translates_line_feed_only() {
    let mut uart = console(b"");
    putchar(&mut uart, b'x');
    putchar(&mut uart, b'\n');
    putchar(&mut uart, b'\r');
    assert_eq!(uart.device().sent().clone(), vec![b'x', b'\r', b'\n', b'\r']);
}

#[test]
fn consecutive_writes_arrive_as_whole_blocks() {
    let mut uart = console(b"");
    write_bytes(&mut uart, b"one\n");
    write_bytes(&mut uart, b"two\n");
    assert_eq!(uart.device().sent().clone(), b"one\r\ntwo\r\n".to_vec());
}

#[test]
fn getchar_returns_waiting_byte_then_would_block() {
    let mut uart = console(b"z");
    assert_eq!(getchar(&mut uart), Ok(b'z'));
    assert_eq!(getchar(&mut uart), Err(WouldBlock));
}

#[test]
fn read_drains_only_what_is_queued() {
    let mut uart = console(b"abc");
    let mut buf = [0u8; 8];
    assert_eq!(read_bytes(&mut uart, &mut buf), 3);
    assert_eq!(&buf[..3], b"abc");
    assert_eq!(&buf[3..], &[0u8; 5]);
    assert_eq!(read_bytes(&mut uart, &mut buf), 0);
}

#[test]
fn read_stops_when_buffer_is_full() {
    let mut uart = console(b"abcdef");
    let mut buf = [0u8; 4];
    assert_eq!(read_bytes(&mut uart, &mut buf), 4);
    assert_eq!(&buf, b"abcd");
    assert_eq!(read_bytes(&mut uart, &mut buf), 2);
    assert_eq!(&buf, b"efcd");
}

#[test]
fn read_into_empty_buffer_reads_nothing() {
    let mut uart = console(b"q");
    let mut buf: [u8; 0] = [];
    assert_eq!(read_bytes(&mut uart, &mut buf), 0);
    assert_eq!(getchar(&mut uart), Ok(b'q'));
}

#[test]
fn write_then_read_scenario() {
    let mut uart = console(b"ok");
    write_bytes(&mut uart, b"hi\n");
    assert_eq!(uart.device().sent().clone(), vec![b'h', b'i', b'\r', b'\n']);
    let mut buf = [0u8; 4];
    assert_eq!(read_bytes(&mut uart, &mut buf), 2);
    assert_eq!(&buf[0..2], b"ok");
}

#[test]
fn fresh_device_is_not_ready() {
    let dev = RecordingUart::new(b"ab".to_vec());
    assert!(!dev.is_ready());
    assert_eq!(dev.pending_len(), 2);
}

#[test]
fn backspace_and_delete_pass_unchanged() {
    let mut uart = console(b"");
    write_bytes(&mut uart, &[8, 0x7f]);
    assert_eq!(uart.device().sent().clone(), vec![8, 0x7f]);
}

#[test]
fn draining_again_reads_nothing() {
    let mut uart = console(b"xy");
    let mut buf = [7u8; 4];
    assert_eq!(read_bytes(&mut uart, &mut buf), 2);
    assert_eq!(uart.device().pending_len(), 0);
    let mut again = [9u8; 4];
    assert_eq!(read_bytes(&mut uart, &mut again), 0);
    assert_eq!(again, [9u8; 4]);
}
