use fetchline::websocket::{
    handshake_response, offered_key, read_http_request, read_payload_len, read_text, upgrade,
    validate_handshake, write_frame, write_text, Error, FrameReader, PayloadLen, ReadStep,
};

const REQUEST: &str = "GET /rpc HTTP/1.1\r\nHost: 192.168.1.123:3333\r\nUpgrade: websocket\r\nConnection: keep-alive, Upgrade\r\nSec-WebSocket-Key: dGhlIHNhbXBsZSBub25jZQ==\r\nSec-WebSocket-Version: 13\r\n\r\n";

fn masked(payload: &[u8], mask: [u8; 4]) -> Vec<u8> {
    payload
        .iter()
        .enumerate()
        .map(|(index, byte)| byte ^ mask[index % 4])
        .collect()
}

/// Feeds a byte stream to the frame reader until it has something to report.
fn read_stream(mut stream: &[u8], capacity: usize) -> (ReadStep, usize) {
    let total = stream.len();
    let mut reader = FrameReader::Header;
    loop {
        let count = reader.wanted().min(stream.len());
        let step = read_text(reader, &stream[..count], capacity);
        stream = &stream[count..];
        match step {
            ReadStep::Continue(FrameReader::Header) => {
                return (ReadStep::Continue(FrameReader::Header), total - stream.len());
            }
            ReadStep::Continue(next) => reader = next,
            step => return (step, total - stream.len()),
        }
    }
}

fn client_frame(first: u8, mask: [u8; 4], payload: &[u8]) -> Vec<u8> {
    let mut frame = vec![first];
    if payload.len() <= 125 {
        frame.push(0x80 | payload.len() as u8);
    } else {
        frame.push(0xfe);
        frame.extend_from_slice(&(payload.len() as u16).to_be_bytes());
    }
    frame.extend_from_slice(&mask);
    frame.extend_from_slice(&masked(payload, mask));
    frame
}

#[test]
fn accepts_a_handshake_for_the_controller_endpoint() {
    assert_eq!(validate_handshake(REQUEST), Ok("dGhlIHNhbXBsZSBub25jZQ=="));
}

#[test]
fn answers_the_key_of_the_protocol_document() {
    assert_eq!(
        upgrade(REQUEST.as_bytes()).unwrap(),
        "HTTP/1.1 101 Switching Protocols\r\nUpgrade: websocket\r\nConnection: Upgrade\r\nSec-WebSocket-Accept: s3pPLMBiTxaQ9kYGzzhZRbK+xOo=\r\n\r\n"
    );
    assert_eq!(
        handshake_response("accepted"),
        "HTTP/1.1 101 Switching Protocols\r\nUpgrade: websocket\r\nConnection: Upgrade\r\nSec-WebSocket-Accept: accepted\r\n\r\n"
    );
}

#[test]
fn ignores_the_case_of_headers_and_the_space_around_values() {
    let request = REQUEST
        .replace("Upgrade: websocket", "uPGRADE:   WebSocket\t")
        .replace("Connection: keep-alive, Upgrade", "CONNECTION:x ,  upgrade ")
        .replace("Sec-WebSocket-Version: 13", "sec-websocket-version:13 ");
    assert!(validate_handshake(&request).is_ok());
}

#[test]
fn uses_the_last_key() {
    let request = REQUEST.replace(
        "Sec-WebSocket-Version: 13",
        "Sec-WebSocket-Key: AAAA\r\nSec-WebSocket-Version: 13",
    );
    assert_eq!(offered_key(&request), Some("AAAA"));
}

#[test]
fn refuses_incomplete_handshakes() {
    for (from, to) in [
        ("GET /rpc HTTP/1.1", "GET / HTTP/1.1"),
        ("GET /rpc HTTP/1.1", "GET /rpc HTTP/1.1 "),
        ("Upgrade: websocket", "Upgrade: http2"),
        ("keep-alive, Upgrade", "keep-alive"),
        ("Version: 13", "Version: 8"),
        ("Sec-WebSocket-Key", "X-Key"),
        ("dGhlIHNhbXBsZSBub25jZQ==", "dGhlIHNhbXBsZSBub25jZQ="),
        ("dGhlIHNhbXBsZSBub25jZQ==", "dGhlIHNhbXBsZSBub25jZSB0b28gbG9uZw=="),
        ("dGhlIHNhbXBsZSBub25jZQ==", "not base64!"),
        ("Upgrade: websocket", "Upgrade : websocket"),
    ] {
        let request = REQUEST.replacen(from, to, 1);
        assert_ne!(request, REQUEST);
        assert_eq!(validate_handshake(&request), Err(Error::InvalidHandshake));
        assert_eq!(upgrade(request.as_bytes()), Err(Error::InvalidHandshake));
    }
    assert_eq!(upgrade(&[0xff, 0xfe]), Err(Error::InvalidHandshake));
}

#[test]
fn keys_of_an_offer_are_checked_separately() {
    let request = REQUEST.replace("dGhlIHNhbXBsZSBub25jZQ==", "not base64!");
    assert_eq!(offered_key(&request), Some("not base64!"));
    assert_eq!(offered_key("GET /rpc HTTP/1.1"), None);
    assert_eq!(offered_key(""), None);
}

#[test]
fn reads_an_http_request_up_to_its_empty_line() {
    let mut request = Vec::new();
    let bytes = REQUEST.as_bytes();
    for (index, &byte) in bytes.iter().enumerate() {
        assert_eq!(read_http_request(&mut request, byte), Ok(index + 1 == bytes.len()));
    }
    assert_eq!(request, bytes);
}

#[test]
fn refuses_an_http_request_that_fills_the_buffer() {
    let mut request = Vec::new();
    for _ in 0..1023 {
        assert_eq!(read_http_request(&mut request, b'x'), Ok(false));
    }
    assert_eq!(read_http_request(&mut request, b'x'), Err(Error::InvalidHandshake));
    assert_eq!(request.len(), 1024);
    assert_eq!(read_http_request(&mut request, b'x'), Err(Error::InvalidHandshake));
    assert_eq!(request.len(), 1024);

    let mut request = vec![b'x'; 1020];
    for byte in [b'\r', b'\n', b'\r'] {
        assert_eq!(read_http_request(&mut request, byte), Ok(false));
    }
    assert_eq!(read_http_request(&mut request, b'\n'), Ok(true));
}

#[test]
fn reads_masked_text_messages() {
    let mut stream = client_frame(0x81, [1, 2, 3, 4], "gr\u{fc}n".as_bytes());
    let length = stream.len();
    stream.push(0x55);
    let (step, taken) = read_stream(&stream, 1024);
    assert!(matches!(step, ReadStep::Text(text) if text == "gr\u{fc}n"));
    assert_eq!(taken, length);

    let long = "x".repeat(126);
    let (step, _) = read_stream(&client_frame(0x81, [9, 8, 7, 6], long.as_bytes()), 126);
    assert!(matches!(step, ReadStep::Text(text) if text == long));

    let (step, _) = read_stream(&client_frame(0x81, [9, 8, 7, 6], b""), 0);
    assert!(matches!(step, ReadStep::Text(text) if text.is_empty()));
}

#[test]
fn answers_pings_and_closes() {
    let (step, _) = read_stream(&client_frame(0x89, [1, 2, 3, 4], b"hi"), 10);
    assert!(matches!(step, ReadStep::Answer(frame) if frame == [0x8a, 2, b'h', b'i']));
    let (step, _) = read_stream(&client_frame(0x88, [1, 2, 3, 4], b"bye"), 10);
    assert!(matches!(step, ReadStep::Close(frame) if frame == [0x88, 0]));
    let (step, _) = read_stream(&client_frame(0x8a, [1, 2, 3, 4], b"pong"), 10);
    assert!(matches!(step, ReadStep::Continue(FrameReader::Header)));
}

#[test]
fn refuses_frames_that_it_does_not_support() {
    let failure = |stream: &[u8], capacity: usize| match read_stream(stream, capacity).0 {
        ReadStep::Failed(error) => error,
        step => panic!("unexpected step {step:?}"),
    };
    // A fragment, an extension bit, an unmasked frame and an unknown opcode.
    assert_eq!(failure(&client_frame(0x01, [0; 4], b"x"), 10), Error::InvalidFrame);
    assert_eq!(failure(&client_frame(0xc1, [0; 4], b"x"), 10), Error::InvalidFrame);
    assert_eq!(failure(&[0x81, 0x01, b'x'], 10), Error::InvalidFrame);
    assert_eq!(failure(&client_frame(0x82, [0; 4], b"x"), 10), Error::InvalidFrame);
    assert_eq!(failure(&client_frame(0x81, [0; 4], b"xyz"), 2), Error::MessageTooLarge);
    assert_eq!(failure(&[0x81, 0xff], 1024), Error::MessageTooLarge);
    assert_eq!(failure(&client_frame(0x81, [0; 4], &[0xff, 0xfe]), 10), Error::InvalidText);
    assert_eq!(failure(&[0x81], 10), Error::Closed);
    assert_eq!(failure(&[0x81, 0x82, 1, 2], 10), Error::Closed);
}

#[test]
fn writes_frames_with_both_forms_of_length() {
    assert_eq!(write_text(b"ok").unwrap(), [0x81, 2, b'o', b'k']);
    let frame = write_frame(0x0a, &[7; 126]).unwrap();
    assert_eq!(frame[..4], [0x8a, 126, 0, 126]);
    assert_eq!(frame.len(), 130);
    let frame = write_text(&[b'x'; 65535]).unwrap();
    assert_eq!(frame[..4], [0x81, 126, 0xff, 0xff]);
    assert_eq!(write_text(&[b'x'; 65536]), Err(Error::MessageTooLarge));
}

#[test]
fn reads_the_length_of_payloads() {
    assert_eq!(read_payload_len(0), Ok(PayloadLen::Known(0)));
    assert_eq!(read_payload_len(125), Ok(PayloadLen::Known(125)));
    assert_eq!(read_payload_len(126), Ok(PayloadLen::Extended));
    assert_eq!(read_payload_len(127), Err(Error::MessageTooLarge));
}
