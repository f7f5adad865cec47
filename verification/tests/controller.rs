use fetchline::controller::{
    checksum, decode_status_packet, encode_instruction_packet, ControllerAdmission,
    ControllerAdmissionResult, ControllerEpoch, InstructionPacketError, StatusPacketError,
};

#[test]
fn encodes_a_ping_packet() {
    let mut packet = [0_u8; 16];
    let length = encode_instruction_packet(&mut packet, 5, 0x01, &[]).unwrap();
    assert_eq!(&packet[..length], &[0xff, 0xff, 5, 2, 1, 247]);
}

#[test]
fn encodes_a_register_read_packet() {
    let mut packet = [0_u8; 16];
    let length = encode_instruction_packet(&mut packet, 5, 0x02, &[56, 2]).unwrap();
    assert_eq!(&packet[..length], &[0xff, 0xff, 5, 4, 2, 56, 2, 186]);
}

#[test]
fn rejects_an_oversized_instruction_parameter_list() {
    let mut packet = [0_u8; 260];
    let parameters = [0_u8; 254];
    assert_eq!(
        encode_instruction_packet(&mut packet, 1, 3, &parameters),
        Err(InstructionPacketError::ParametersTooLong)
    );
}

#[test]
fn rejects_a_too_small_instruction_output_buffer() {
    let mut packet = [0_u8; 7];
    assert_eq!(
        encode_instruction_packet(&mut packet, 1, 3, &[40, 1]),
        Err(InstructionPacketError::OutputTooSmall)
    );
}

#[test]
fn decodes_a_status_packet_with_parameters() {
    let packet = [5, 4, 0, 0x34, 0x12, 0xb0];
    let status = decode_status_packet(&packet, 5).unwrap();
    assert_eq!(status.error, 0);
    assert_eq!(status.parameters, &[0x34, 0x12]);
}

#[test]
fn retains_the_servo_reported_error() {
    let packet = [5, 2, 0x20, 0xd8];
    let status = decode_status_packet(&packet, 5).unwrap();
    assert_eq!(status.error, 0x20);
    assert!(status.parameters.is_empty());
}

#[test]
fn rejects_malformed_status_packets() {
    assert_eq!(
        decode_status_packet(&[5, 4, 0, 0x34, 0x12, 0xb1], 5),
        Err(StatusPacketError::InvalidChecksum)
    );
    assert_eq!(
        decode_status_packet(&[6, 2, 0, 0xf7], 5),
        Err(StatusPacketError::UnexpectedId)
    );
    assert_eq!(
        decode_status_packet(&[5, 67, 0, 0], 5),
        Err(StatusPacketError::InvalidLength)
    );
}

#[test]
fn newest_controller_epoch_wins() {
    let mut epoch = ControllerEpoch::new();
    let first = epoch.claim();
    assert!(epoch.is_current(first));
    let second = epoch.claim();
    assert!(!epoch.is_current(first));
    assert!(epoch.is_current(second));
}

#[test]
fn serializes_takeovers_until_a_listener_returns() {
    let mut admission = ControllerAdmission::new();
    let ControllerAdmissionResult::Granted {
        generation: first,
        replaces_active,
    } = admission.try_claim()
    else {
        panic!("the first controller must be admitted");
    };
    assert!(!replaces_active);

    let ControllerAdmissionResult::Granted {
        generation: second,
        replaces_active,
    } = admission.try_claim()
    else {
        panic!("the second controller must replace the first");
    };
    assert!(replaces_active);
    assert!(!admission.is_current(first));
    assert!(admission.is_current(second));
    assert_eq!(
        admission.try_claim(),
        ControllerAdmissionResult::WaitForListener
    );

    assert!(admission.listener_ready());
    let ControllerAdmissionResult::Granted {
        generation: third,
        replaces_active,
    } = admission.try_claim()
    else {
        panic!("a listener return must admit the waiting controller");
    };
    assert!(replaces_active);
    assert!(admission.is_current(third));
}

#[test]
fn normal_disconnect_does_not_block_the_next_controller() {
    let mut admission = ControllerAdmission::new();
    let ControllerAdmissionResult::Granted {
        generation: first, ..
    } = admission.try_claim()
    else {
        panic!("the first controller must be admitted");
    };
    admission.release(first);
    let ControllerAdmissionResult::Granted {
        replaces_active, ..
    } = admission.try_claim()
    else {
        panic!("a disconnected controller must not block a replacement");
    };
    assert!(!replaces_active);
}

#[test]
fn checksum_is_the_inverted_byte_sum() {
    assert_eq!(checksum(&[]), 255);
    assert_eq!(checksum(&[255, 1]), 255);
    assert_eq!(checksum(&[5, 2, 1]), 247);
}

#[test]
fn encoding_leaves_the_rest_of_the_buffer_alone() {
    let mut packet = [0xaa_u8; 9];
    assert_eq!(encode_instruction_packet(&mut packet, 1, 3, &[40, 1]), Ok(8));
    assert_eq!(packet, [0xff, 0xff, 1, 4, 3, 40, 1, 206, 0xaa]);
    let mut untouched = [0xaa_u8; 7];
    assert!(encode_instruction_packet(&mut untouched, 1, 3, &[40, 1]).is_err());
    assert_eq!(untouched, [0xaa; 7]);
}

#[test]
fn accepts_the_longest_parameter_lists() {
    let mut packet = [0_u8; 260];
    assert_eq!(encode_instruction_packet(&mut packet, 1, 3, &[0; 253]), Ok(259));
    assert_eq!(packet[3], 255);

    let mut packet = [0_u8; 70];
    let length = encode_instruction_packet(&mut packet, 8, 0, &[7; 64]).unwrap();
    let status = decode_status_packet(&packet[2..length], 8).unwrap();
    assert_eq!(status.parameters, &[7; 64]);
}

#[test]
fn a_flipped_byte_breaks_the_checksum() {
    let packet = [5, 4, 0, 0x34, 0x12, 0xb0];
    for index in 2..5 {
        let mut flipped = packet;
        flipped[index] ^= 0x10;
        assert_eq!(
            decode_status_packet(&flipped, 5),
            Err(StatusPacketError::InvalidChecksum)
        );
    }
}

#[test]
fn the_end_of_a_replaced_session_changes_nothing() {
    let mut admission = ControllerAdmission::new();
    assert_eq!(
        admission.try_claim(),
        ControllerAdmissionResult::Granted {
            generation: 1,
            replaces_active: false
        }
    );
    assert_eq!(
        admission.try_claim(),
        ControllerAdmissionResult::Granted {
            generation: 2,
            replaces_active: true
        }
    );
    let before = admission;
    admission.release(1);
    assert_eq!(admission, before);
    assert!(admission.listener_ready());
    assert!(!admission.listener_ready());
}
