use fetchline::controller::checksum;
use fetchline::servo_bus::{
    checksum_for_status, decode_position, decode_signed_15, failure_of_fault, is_unicast_servo_id,
    move_position, packet_bytes, ping_servo, read_position, read_sts_status, resynchronize_uart,
    send_sts_packet, start_motor, stop_motor, validate_servo_id, write_register, ServoFailure,
    StatusFault, StatusReader, StatusStep, Transaction, STS_INSTRUCTION_WRITE,
};

fn status_packet_with_error(id: u8, error: u8, payload: &[u8]) -> Vec<u8> {
    let length = u8::try_from(payload.len() + 2).unwrap();
    let mut packet = vec![0xff, 0xff, id, length, error];
    packet.extend_from_slice(payload);
    packet.push(checksum_for_status(id, length, &packet[4..]));
    packet
}

/// Feeds a byte stream to the reply reader until it has something to report.
fn read_reply(mut stream: &[u8], id: u8) -> Option<(Result<Vec<u8>, StatusFault>, usize)> {
    let mut reader = StatusReader::new();
    let mut taken = 0;
    loop {
        let count = reader.wanted();
        if stream.len() < count {
            return None;
        }
        taken += count;
        match read_sts_status(reader, id, &stream[..count]) {
            StatusStep::Continue(next) => reader = next,
            StatusStep::Complete(parameters) => return Some((Ok(parameters), taken)),
            StatusStep::Fault(fault) => return Some((Err(fault), taken)),
        }
        stream = &stream[count..];
    }
}

fn packets(plan: Vec<Transaction>) -> Vec<Vec<u8>> {
    plan.iter()
        .map(|transaction| {
            packet_bytes(transaction.id, transaction.instruction, &transaction.parameters)
        })
        .collect()
}

#[test]
fn creates_sts_checksums() {
    // ID 1, length 4, write, address 40, value 1.
    assert_eq!(checksum(&[1, 4, STS_INSTRUCTION_WRITE, 40, 1]), 206);
}

#[test]
fn decodes_sts_signed_values() {
    assert_eq!(decode_signed_15(2048), 2048);
    assert_eq!(decode_signed_15(0x8001), -1);
    assert_eq!(decode_signed_15(0xffff), -32767);
}

#[test]
fn decodes_the_signs_of_zero() {
    assert_eq!(decode_signed_15(0), 0);
    assert_eq!(decode_signed_15(0x8000), 0);
    assert_eq!(decode_signed_15(0x7fff), 32767);
}

#[test]
fn checks_status_packets() {
    // Status response: id 7, length 4, no error, low/high position.
    assert_eq!(checksum_for_status(7, 4, &[0, 0x34, 0x12]), 174);
}

#[test]
fn tells_single_servos_from_reserved_addresses() {
    assert!(is_unicast_servo_id(1) && is_unicast_servo_id(253));
    for id in [0, 254, 255] {
        assert!(!is_unicast_servo_id(id));
        assert_eq!(validate_servo_id(id), Err(ServoFailure::InvalidServoId));
    }
    assert_eq!(validate_servo_id(7), Ok(()));
}

#[test]
fn reads_a_reply_after_noise() {
    let mut stream = vec![0, 0xff, 7, 0xff, 0];
    let reply = status_packet_with_error(2, 0, &[0x34, 0x12]);
    stream.extend_from_slice(&reply);
    stream.push(0xff);
    assert_eq!(read_reply(&stream, 2), Some((Ok(vec![0x34, 0x12]), 5 + reply.len())));
}

#[test]
fn gives_up_on_a_header_after_128_bytes() {
    let mut stream = vec![0; 126];
    stream.extend_from_slice(&status_packet_with_error(2, 0, &[]));
    assert_eq!(read_reply(&stream, 2).unwrap().0, Ok(vec![]));
    let mut stream = vec![0; 127];
    stream.extend_from_slice(&status_packet_with_error(2, 0, &[]));
    assert_eq!(read_reply(&stream, 2), Some((Err(StatusFault::NoHeader), 128)));
}

#[test]
fn recognizes_every_fault_of_a_reply() {
    assert_eq!(
        read_reply(&status_packet_with_error(3, 0, &[]), 2).unwrap().0,
        Err(StatusFault::WrongServo { id: 3 })
    );
    for length in [0, 1, 67, 255] {
        assert_eq!(
            read_reply(&[0xff, 0xff, 2, length], 2).unwrap().0,
            Err(StatusFault::InvalidLength { length })
        );
    }
    let mut damaged = status_packet_with_error(2, 0, &[1, 2]);
    damaged[5] ^= 1;
    assert_eq!(read_reply(&damaged, 2).unwrap().0, Err(StatusFault::InvalidChecksum));
    assert_eq!(
        read_reply(&status_packet_with_error(2, 0x20, &[0, 0]), 2).unwrap().0,
        Err(StatusFault::Reported { id: 2, error: 0x20 })
    );
    assert_eq!(read_reply(&[0xff, 0xff, 2, 4, 0], 2), None);
    let longest = status_packet_with_error(2, 0, &[9; 64]);
    assert_eq!(read_reply(&longest, 2).unwrap().0, Ok(vec![9; 64]));
}

#[test]
fn classifies_faults_for_the_controller() {
    assert_eq!(
        failure_of_fault(StatusFault::Reported { id: 1, error: 1 }),
        ServoFailure::ReportedError
    );
    for fault in [
        StatusFault::NoHeader,
        StatusFault::WrongServo { id: 1 },
        StatusFault::InvalidLength { length: 1 },
        StatusFault::InvalidChecksum,
    ] {
        assert_eq!(failure_of_fault(fault), ServoFailure::InvalidReply);
    }
}

#[test]
fn limits_packets_to_the_buffer() {
    assert_eq!(send_sts_packet(1, 1, &[]).unwrap(), [0xff, 0xff, 1, 2, 1, 251]);
    assert_eq!(send_sts_packet(1, 3, &[0; 10]).unwrap().len(), 16);
    assert_eq!(send_sts_packet(1, 3, &[0; 11]), Err(ServoFailure::InvalidArgument));
}

#[test]
fn plans_the_packets_of_each_operation() {
    assert_eq!(
        packets(start_motor(1, false, 1024, 20)),
        [
            vec![0xff, 0xff, 1, 4, 3, 33, 1, 213],
            vec![0xff, 0xff, 1, 4, 3, 40, 1, 206],
            vec![0xff, 0xff, 1, 10, 3, 41, 20, 0, 0, 0, 0, 0, 4, 176],
        ]
    );
    assert_eq!(start_motor(1, true, 1024, 20)[2].parameters[6..], [0, 0x84]);
    assert_eq!(stop_motor(1)[0].parameters, [41, 0, 0, 0, 0, 0, 0, 0]);
    let plan = move_position(5, 1625, 20, 1000);
    assert_eq!(plan[0].parameters, [40, 1]);
    assert_eq!(plan[1].parameters, [48, 0xe8, 0x03]);
    assert_eq!(plan[2].parameters, [41, 20, 0x59, 0x06, 0, 0, 0, 0]);
    let read = read_position(2);
    assert_eq!(read.reply_len, 2);
    assert_eq!(packets(vec![read]), [vec![0xff, 0xff, 2, 4, 2, 56, 2, 189]]);
    assert_eq!(packets(vec![ping_servo(9)]), [vec![0xff, 0xff, 9, 2, 1, 243]]);
    assert_eq!(write_register(9, 5, &[6]).unwrap().parameters, [5, 6]);
    assert_eq!(write_register(9, 41, &[0; 7]).unwrap().parameters.len(), 8);
    assert_eq!(write_register(9, 41, &[0; 8]).unwrap_err(), ServoFailure::InvalidArgument);
    assert_eq!(decode_position(&[0x01, 0x80]), -1);
}

#[test]
fn drains_the_bus_until_it_is_quiet() {
    assert!(resynchronize_uart(0, false));
    assert!(resynchronize_uart(3, false));
    assert!(!resynchronize_uart(4, false));
    assert!(!resynchronize_uart(1, true));
}

#[test]
fn a_part_of_another_length_is_a_fault() {
    for (reader, bytes) in [
        (StatusReader::new(), &[][..]),
        (StatusReader::new(), &[0xff, 0xff][..]),
        (StatusReader::Fixed, &[5][..]),
        (StatusReader::Body { id: 5, length: 4 }, &[0, 1, 2][..]),
    ] {
        let StatusStep::Fault(fault) = read_sts_status(reader, 5, bytes) else {
            panic!("the part is cut short");
        };
        assert_eq!(fault, StatusFault::CutShort);
        assert_eq!(failure_of_fault(fault), ServoFailure::Transport);
    }
    for length in [0_u8, 1, 67, 255] {
        let body = vec![0; usize::from(length)];
        assert!(matches!(
            read_sts_status(StatusReader::Body { id: 5, length }, 5, &body),
            StatusStep::Fault(StatusFault::InvalidLength { length: found }) if found == length
        ));
    }
    assert!(matches!(
        read_sts_status(StatusReader::Header { seen: 255, previous: 0 }, 5, &[0]),
        StatusStep::Fault(StatusFault::NoHeader)
    ));
}
