use uart_matrix::crc::{crc8_ccitt, crc8_ccitt_response};
use uart_matrix::uart::{encode_response, UartController};

fn frame(payload: &[u8]) -> Vec<u8> {
    let mut bytes = vec![85, 77, 88, (payload.len() >> 8) as u8, payload.len() as u8];
    bytes.extend_from_slice(payload);
    bytes
}

fn padded(payload: &[u8]) -> [u8; 16] {
    let mut buffer = [0u8; 16];
    buffer[..payload.len()].copy_from_slice(payload);
    buffer
}

#[test]
fn crc_of_nothing_and_of_zero() {
    assert_eq!(crc8_ccitt(&[]), 0);
    assert_eq!(crc8_ccitt(&[0]), 0);
    assert_eq!(crc8_ccitt(&[0, 0, 0, 0]), 0);
}

#[test]
fn crc_known_values() {
    assert_eq!(crc8_ccitt(b"123456789"), 0xF4);
    assert_eq!(crc8_ccitt(&[0x01]), 0x07);
    assert_eq!(crc8_ccitt(&[0xFF]), 0xF3);
}

#[test]
fn crc_of_a_response_covers_opcode_and_text() {
    assert_eq!(crc8_ccitt_response(0x0F, b"Pong"), 0x5F);
    assert_eq!(crc8_ccitt_response(0x0F, b"Pong"), crc8_ccitt(b"\x0FPong"));
    assert_eq!(crc8_ccitt_response(0x00, b"Mode:Text"), 0x28);
    assert_eq!(crc8_ccitt_response(7, &[]), crc8_ccitt(&[7]));
}

#[test]
fn response_frame_layout() {
    assert_eq!(
        encode_response(0x0F, b"Pong"),
        vec![0x55, 0x4D, 0x58, 0x00, 0x05, 0x0F, 0x50, 0x6F, 0x6E, 0x67, 0x5F]
    );
    assert_eq!(encode_response(3, &[]), vec![0x55, 0x4D, 0x58, 0x00, 0x01, 3, crc8_ccitt(&[3])]);
    let long = vec![b'x'; 300];
    let bytes = encode_response(9, &long);
    assert_eq!(&bytes[..6], &[0x55, 0x4D, 0x58, 0x01, 0x2D, 9]);
    assert_eq!(bytes.len(), 5 + 301 + 1);
    assert_eq!(bytes[306], crc8_ccitt_response(9, &long));
}

#[test]
fn frame_is_received_byte_by_byte() {
    let mut uart = UartController::<16>::new();
    let bytes = frame(&[6, 1, 2, 3, 4, 5]);
    for (i, byte) in bytes.iter().enumerate() {
        assert_eq!(uart.get_command(), None, "complete before byte {}", i);
        uart.read_byte(*byte);
    }
    assert_eq!(uart.get_command(), Some(padded(&[6, 1, 2, 3, 4, 5])));
    assert_eq!(uart.get_command(), None);
}

#[test]
fn chunks_and_single_bytes_give_the_same() {
    let mut stream = vec![1, 2, 85, 85, 77];
    stream.extend(frame(&[15]));
    stream.extend([9, 9]);
    let mut single = UartController::<16>::new();
    for byte in &stream {
        single.read_byte(*byte);
    }
    let mut whole = UartController::<16>::new();
    whole.read_bytes(&stream);
    let mut halves = UartController::<16>::new();
    halves.read_bytes(&stream[..4]);
    halves.read_bytes(&stream[4..]);
    let expected = single.get_command();
    assert_eq!(whole.get_command(), expected);
    assert_eq!(halves.get_command(), expected);
    assert_eq!(expected, Some(padded(&[15])));
}

#[test]
fn garbage_before_a_frame_is_skipped() {
    let mut uart = UartController::<16>::new();
    uart.read_bytes(&[0, 255, 77, 88, 85, 1, 85, 77, 2, 85, 77, 88, 0, 200]);
    assert_eq!(uart.get_command(), None);
    uart.read_bytes(&frame(&[1, 0]));
    assert_eq!(uart.get_command(), Some(padded(&[1, 0])));
}

#[test]
fn a_broken_header_swallows_the_byte_that_broke_it() {
    // The second U breaks the header that the first began and is dropped
    // with it, so the frame that it starts is lost.
    let mut uart = UartController::<16>::new();
    uart.read_byte(85);
    uart.read_bytes(&frame(&[15]));
    assert_eq!(uart.get_command(), None);
    // From there the reassembler is in step again.
    uart.read_bytes(&frame(&[12]));
    assert_eq!(uart.get_command(), Some(padded(&[12])));
}

#[test]
fn length_beyond_the_buffer_is_rejected() {
    let mut uart = UartController::<16>::new();
    uart.read_bytes(&[85, 77, 88, 0, 17]);
    // the reassembler waits for a header again and takes the next frame
    uart.read_bytes(&frame(&[0]));
    assert_eq!(uart.get_command(), Some(padded(&[0])));

    let mut uart = UartController::<16>::new();
    uart.read_bytes(&[85, 77, 88, 1, 0]);
    uart.read_bytes(&frame(&[13]));
    assert_eq!(uart.get_command(), Some(padded(&[13])));
}

#[test]
fn payload_that_fills_the_buffer() {
    let mut uart = UartController::<16>::new();
    let payload: Vec<u8> = (1..=16).collect();
    uart.read_bytes(&frame(&payload));
    assert_eq!(uart.get_command(), Some(padded(&payload)));
}

#[test]
fn bytes_after_a_complete_payload_are_dropped() {
    let mut uart = UartController::<16>::new();
    let mut stream = frame(&[15]);
    stream.extend(frame(&[12]));
    uart.read_bytes(&stream);
    assert_eq!(uart.get_command(), Some(padded(&[15])));
    assert_eq!(uart.get_command(), None);
}

#[test]
fn empty_frame_takes_one_more_byte() {
    let mut uart = UartController::<16>::new();
    uart.read_bytes(&[85, 77, 88, 0, 0]);
    assert_eq!(uart.get_command(), None);
    uart.read_byte(42);
    assert_eq!(uart.get_command(), Some(padded(&[42])));
}

#[test]
fn reset_forgets_what_was_received() {
    let mut uart = UartController::<16>::new();
    uart.read_bytes(&[85, 77, 88, 0, 3, 1, 2]);
    uart.reset();
    uart.read_byte(3);
    assert_eq!(uart.get_command(), None);
    uart.read_bytes(&frame(&[14]));
    assert_eq!(uart.get_command(), Some(padded(&[14])));
}

#[test]
fn response_frame_reads_back_as_opcode_and_text() {
    let mut uart = UartController::<16>::new();
    uart.read_bytes(&encode_response(0x0F, b"Pong"));
    assert_eq!(uart.get_command(), Some(padded(b"\x0FPong")));
}
