use nvdaremoteaudio_server::error::ErrorKind;
use nvdaremoteaudio_server::framing::{
    frame_line, invalid_json, json_encode_error, timed_out, LineError, LineReader, LineStep,
};

fn read(input: &[u8], max: usize) -> Result<Vec<u8>, LineError> {
    let mut reader = LineReader::new(max);
    for byte in input {
        match reader.push(*byte) {
            LineStep::More => {}
            LineStep::Line(line) => return Ok(line),
            LineStep::Failed(error) => return Err(error),
        }
    }
    Err(reader.end_of_input())
}

#[test]
fn framed_line_reads_back() {
    let line = frame_line(b"{\"key\":\"audiostatus\"}".to_vec());
    assert_eq!(line.last(), Some(&b'\n'));
    assert_eq!(read(&line, 1024), Ok(b"{\"key\":\"audiostatus\"}".to_vec()));
}

#[test]
fn carriage_returns_are_dropped() {
    assert_eq!(read(b"ab\rc\r\nrest", 3), Ok(b"abc".to_vec()));
}

#[test]
fn line_may_be_as_long_as_the_limit() {
    assert_eq!(read(b"1234\n", 4), Ok(b"1234".to_vec()));
    assert_eq!(read(b"12345\n", 4), Err(LineError::TooLarge));
}

#[test]
fn empty_and_unfinished_lines_fail() {
    assert_eq!(read(b"\n", 4), Err(LineError::Empty));
    assert_eq!(read(b"\r\n", 4), Err(LineError::Empty));
    assert_eq!(read(b"123", 4), Err(LineError::ConnectionClosed));
    assert_eq!(read(b"", 4), Err(LineError::ConnectionClosed));
}

#[test]
fn line_failures_have_kinds_and_messages() {
    let closed = LineError::ConnectionClosed.to_io_error();
    assert_eq!(closed.kind, ErrorKind::UnexpectedEof);
    assert_eq!(closed.message, "connection closed before request finished");
    let large = LineError::TooLarge.to_io_error();
    assert_eq!(large.kind, ErrorKind::InvalidData);
    assert_eq!(large.message, "request is too large");
    let empty = LineError::Empty.to_io_error();
    assert_eq!(empty.kind, ErrorKind::InvalidData);
    assert_eq!(empty.message, "request must not be empty");
    let late = timed_out("handshake");
    assert_eq!(late.kind, ErrorKind::TimedOut);
    assert_eq!(late.message, "handshake timed out");
    let wrong = invalid_json("control message", "expected value");
    assert_eq!(wrong.kind, ErrorKind::InvalidData);
    assert_eq!(wrong.message, "invalid control message json: expected value");
    let unwritable = json_encode_error("recursion");
    assert_eq!(unwritable.kind, ErrorKind::InvalidData);
    assert_eq!(unwritable.message, "json encode error: recursion");
}
