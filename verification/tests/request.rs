use vsock_muxer::error::Error;
use vsock_muxer::muxer::ack_message;
use vsock_muxer::request::{PortRequest, MIN_READ_LEN};

/// Hands over `bytes` as a stream would: the first read, then byte by byte.
/// Gives the request, and how many bytes it took.
fn read_from(bytes: &[u8]) -> (PortRequest, usize) {
    let first = bytes.len().min(MIN_READ_LEN);
    let mut req = PortRequest::new(&bytes[..first]);
    let mut taken = first;
    while req.wants_byte() && taken < bytes.len() {
        req.push(bytes[taken]);
        taken += 1;
    }
    (req, taken)
}

fn port_of(bytes: &[u8]) -> Result<u32, Error> {
    read_from(bytes).0.port()
}

#[test]
fn shortest_command() {
    let (req, taken) = read_from(b"connect 0\n");
    assert_eq!(taken, 10);
    assert!(!req.wants_byte());
    assert_eq!(req.port(), Ok(0));
}

#[test]
fn command_is_understood_for_every_length_of_port() {
    for port in [
        0, 7, 10, 99, 123, 1024, 65536, 999_999, 1_234_567, 12_345_678, 123_456_789, u32::MAX,
    ] {
        let command = format!("connect {}\n", port);
        let (req, taken) = read_from(command.as_bytes());
        assert_eq!(taken, command.len());
        assert!(!req.wants_byte());
        assert_eq!(req.port(), Ok(port));
    }
}

#[test]
fn nothing_is_read_beyond_the_line_end() {
    let (req, taken) = read_from(b"connect 52\nhello");
    assert_eq!(taken, 11);
    assert_eq!(req.port(), Ok(52));
}

#[test]
fn case_does_not_matter() {
    assert_eq!(port_of(b"CONNECT 1234\n"), Ok(1234));
    assert_eq!(port_of(b"CoNnEcT 1234\n"), Ok(1234));
}

#[test]
fn white_space_separates() {
    assert_eq!(port_of(b"  connect \t 77\n"), Ok(77));
    assert_eq!(port_of("connect\u{a0}\u{2003}77\n".as_bytes()), Ok(77));
    assert_eq!(port_of(b"connect 77 more\n"), Ok(77));
    assert_eq!(port_of(b"connect77 88\n"), Err(Error::InvalidPortRequest));
}

#[test]
fn plus_sign_is_accepted() {
    assert_eq!(port_of(b"connect +80\n"), Ok(80));
    assert_eq!(port_of(b"connect 0080\n"), Ok(80));
    assert_eq!(port_of(b"connect ++80\n"), Err(Error::InvalidPortRequest));
    assert_eq!(port_of(b"connect +  \n"), Err(Error::InvalidPortRequest));
    assert_eq!(port_of(b"connect -80\n"), Err(Error::InvalidPortRequest));
}

#[test]
fn port_must_fit() {
    assert_eq!(port_of(b"connect 4294967295\n"), Ok(4294967295));
    assert_eq!(port_of(b"connect 4294967296\n"), Err(Error::InvalidPortRequest));
    assert_eq!(
        port_of(b"connect 99999999999999999999999\n"),
        Err(Error::InvalidPortRequest)
    );
}

#[test]
fn other_commands_are_refused() {
    assert_eq!(port_of(b"connects 80\n"), Err(Error::InvalidPortRequest));
    assert_eq!(port_of(b"listen 1234\n"), Err(Error::InvalidPortRequest));
    assert_eq!(port_of(b"connect abc\n"), Err(Error::InvalidPortRequest));
    assert_eq!(port_of(b"connect 12a\n"), Err(Error::InvalidPortRequest));
    assert_eq!(port_of(b"           \n"), Err(Error::InvalidPortRequest));
    assert_eq!(port_of(b"connect  \n"), Err(Error::InvalidPortRequest));
}

#[test]
fn command_must_be_utf8() {
    assert_eq!(port_of(b"connect 80\xff\n"), Err(Error::InvalidPortRequest));
    assert_eq!(port_of(b"\xc3onnect 80\n"), Err(Error::InvalidPortRequest));
    // The bytes behind the port are looked at as well.
    assert_eq!(port_of(b"connect 8\n"), Ok(8));
    assert_eq!(port_of(b"connect 8 \x80\n"), Err(Error::InvalidPortRequest));
    assert_eq!(port_of("connect 8 \u{20ac}\n".as_bytes()), Ok(8));
}

#[test]
fn reading_stops_when_the_buffer_is_full() {
    let long = b"connect 1                       2 3 4 5";
    let (req, taken) = read_from(long);
    assert_eq!(taken, 32);
    assert!(!req.wants_byte());
    assert_eq!(req.port(), Ok(1));
    // A number that goes up to the end of the buffer is read as it stands.
    let cut = format!("connect{}1234567", " ".repeat(24));
    let (req, taken) = read_from(cut.as_bytes());
    assert_eq!(taken, 32);
    assert_eq!(req.port(), Ok(1));
}

#[test]
fn short_first_read_counts_as_complete() {
    // The bytes that the first read did not bring are zero, and no part of a
    // number.
    let mut req = PortRequest::new(b"connect 5");
    assert!(req.wants_byte());
    req.push(b'\n');
    assert!(!req.wants_byte());
    assert_eq!(req.port(), Err(Error::InvalidPortRequest));
    let empty = PortRequest::new(b"");
    assert!(empty.wants_byte());
    assert_eq!(empty.port(), Err(Error::InvalidPortRequest));
    // A line end in the midst of the first read does not end the command.
    let req = PortRequest::new(b"connect\n5 ");
    assert!(req.wants_byte());
    assert_eq!(req.port(), Ok(5));
}

#[test]
fn acknowledgement_tells_the_port() {
    assert_eq!(ack_message(0), b"OK 0\n".to_vec());
    assert_eq!(ack_message(1073741824), b"OK 1073741824\n".to_vec());
    assert_eq!(ack_message(u32::MAX), b"OK 4294967295\n".to_vec());
    for port in [9, 10, 100, 65535] {
        assert_eq!(ack_message(port), format!("OK {}\n", port).into_bytes());
    }
}
