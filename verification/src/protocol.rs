//! Version 1 of the fixed-size controller frames.
//!
//! A frame is sixteen bytes: the magic `FL`, the version, the message kind, a sequence number and
//! five operand fields, all multi-byte fields little-endian. The sequence number makes a delayed
//! response unambiguous to the client that waits for another one.

use vstd::prelude::*;

use crate::wire::{from_bits, join_bytes, join_word, split16, split32, to_bits};
use crate::wire::{
    double_words_round_trip, from_twos_complement, join16, join32, le16, le32,
    signed_words_round_trip, twos_complement, words_round_trip,
};

verus! {

/// TCP port of the controller endpoint.
pub const CONTROLLER_TCP_PORT: u16 = 3333;

/// TCP port of the raw UART tunnel.
pub const RAW_TUNNEL_TCP_PORT: u16 = 3334;

/// HTTP path of the controller's WebSocket endpoint.
pub const CONTROLLER_WEBSOCKET_PATH: &'static str = "/rpc";

/// Number of bytes in every version 1 frame.
pub const FRAME_LEN: usize = 16;

/// First magic byte, an ASCII `F`.
pub const MAGIC_FIRST: u8 = 0x46;

/// Second magic byte, an ASCII `L`.
pub const MAGIC_SECOND: u8 = 0x4c;

/// The protocol version that this module speaks.
pub const VERSION: u8 = 1;

pub const COMMAND_PING: u8 = 0x01;

pub const COMMAND_START_MOTOR: u8 = 0x10;

pub const COMMAND_STOP_MOTOR: u8 = 0x11;

pub const COMMAND_SET_POSITION: u8 = 0x12;

pub const COMMAND_READ_POSITION: u8 = 0x13;

pub const COMMAND_OPEN_RAW_TUNNEL: u8 = 0x7e;

pub const RESPONSE_ACK: u8 = 0x80;

pub const RESPONSE_POSITION: u8 = 0x81;

pub const RESPONSE_ERROR: u8 = 0x82;

pub const RESPONSE_RAW_TUNNEL_READY: u8 = 0x83;

/// A controller command sent from a host to the MCU.
#[derive(Clone, Copy, Debug, PartialEq, Eq, Structural)]
pub enum Command {
    /// Verify that the MCU is running this controller protocol version.
    Ping,
    /// Select continuous mode and start the motor.
    StartMotor {
        /// STS servo ID.
        id: u8,
        /// `true` selects counter-clockwise rotation.
        counter_clockwise: bool,
        /// STS speed in the range 0 through 4095.
        speed: u16,
        /// STS acceleration in the range 0 through 254.
        acceleration: u8,
    },
    /// Command a controlled stop for a continuous motor.
    StopMotor {
        /// STS servo ID.
        id: u8,
    },
    /// Set the target of a position servo.
    SetPosition {
        /// STS servo ID.
        id: u8,
        /// Target in STS position units.
        position: u16,
        /// STS acceleration in the range 0 through 254.
        acceleration: u8,
        /// RAM torque limit in the range 0 through 1000.
        torque_limit: u16,
    },
    /// Read the present position of a servo.
    ReadPosition {
        /// STS servo ID.
        id: u8,
    },
    /// Turn this TCP session into the raw UART debug tunnel until it disconnects.
    OpenRawTunnel,
}

/// A controller result sent from the MCU to the host.
#[derive(Clone, Copy, Debug, PartialEq, Eq, Structural)]
pub enum Response {
    /// The request completed successfully.
    Ack,
    /// A servo position read completed successfully.
    Position {
        /// STS servo ID.
        id: u8,
        /// Signed STS present-position value.
        position: i16,
    },
    /// The caller may now use this TCP stream as a raw UART tunnel.
    RawTunnelReady,
    /// The request failed on the MCU.
    Error {
        /// Stable error class.
        code: ErrorCode,
        /// Error-specific detail, such as the STS status byte.
        detail: u16,
    },
}

/// Stable MCU error classes returned in [`Response::Error`].
#[derive(Clone, Copy, Debug, PartialEq, Eq, Structural)]
pub enum ErrorCode {
    /// The command byte is not defined by this protocol version.
    UnsupportedCommand,
    /// The selected servo ID is invalid.
    InvalidServoId,
    /// A command argument is outside its documented range.
    InvalidArgument,
    /// No complete STS status packet arrived before the MCU-local deadline.
    ServoTimeout,
    /// The STS reply framing, ID, checksum, or length was invalid.
    InvalidServoReply,
    /// The servo returned a non-zero STS status byte.
    ServoReportedError,
    /// UART I/O failed while executing the command.
    ServoTransport,
    /// The frame was syntactically valid but not a host request.
    InvalidRequest,
}

/// The number that stands for `code` in a frame.
pub open spec fn error_code_number(code: ErrorCode) -> u16 {
    match code {
        ErrorCode::UnsupportedCommand => 1,
        ErrorCode::InvalidServoId => 2,
        ErrorCode::InvalidArgument => 3,
        ErrorCode::ServoTimeout => 4,
        ErrorCode::InvalidServoReply => 5,
        ErrorCode::ServoReportedError => 6,
        ErrorCode::ServoTransport => 7,
        ErrorCode::InvalidRequest => 8,
    }
}

/// The error class that `number` stands for in a frame.
pub open spec fn numbered_error_code(number: u16) -> Option<ErrorCode> {
    if exists|code: ErrorCode| error_code_number(code) == number {
        Some(choose|code: ErrorCode| error_code_number(code) == number)
    } else {
        None
    }
}

/// Every error class has a number of its own, and exactly the numbers 1 through 8 have one.
pub proof fn error_codes_are_numbered(code: ErrorCode, number: u16)
    ensures
        numbered_error_code(error_code_number(code)) == Some(code),
        numbered_error_code(number) is Some <==> 1 <= number <= 8,
        numbered_error_code(number) matches Some(found) ==> error_code_number(found) == number,
{
    assert(error_code_number(ErrorCode::UnsupportedCommand) == 1);
    assert(error_code_number(ErrorCode::InvalidServoId) == 2);
    assert(error_code_number(ErrorCode::InvalidArgument) == 3);
    assert(error_code_number(ErrorCode::ServoTimeout) == 4);
    assert(error_code_number(ErrorCode::InvalidServoReply) == 5);
    assert(error_code_number(ErrorCode::ServoReportedError) == 6);
    assert(error_code_number(ErrorCode::ServoTransport) == 7);
    assert(error_code_number(ErrorCode::InvalidRequest) == 8);
}

impl ErrorCode {
    /// Decodes the numeric error class stored in a response frame.
    pub fn from_u16(value: u16) -> (code: Option<Self>)
        ensures
            code == numbered_error_code(value),
    {
        proof {
            error_codes_are_numbered(ErrorCode::UnsupportedCommand, value);
            error_codes_are_numbered(ErrorCode::InvalidServoId, value);
            error_codes_are_numbered(ErrorCode::InvalidArgument, value);
            error_codes_are_numbered(ErrorCode::ServoTimeout, value);
            error_codes_are_numbered(ErrorCode::InvalidServoReply, value);
            error_codes_are_numbered(ErrorCode::ServoReportedError, value);
            error_codes_are_numbered(ErrorCode::ServoTransport, value);
            error_codes_are_numbered(ErrorCode::InvalidRequest, value);
        }
        match value {
            1 => Some(ErrorCode::UnsupportedCommand),
            2 => Some(ErrorCode::InvalidServoId),
            3 => Some(ErrorCode::InvalidArgument),
            4 => Some(ErrorCode::ServoTimeout),
            5 => Some(ErrorCode::InvalidServoReply),
            6 => Some(ErrorCode::ServoReportedError),
            7 => Some(ErrorCode::ServoTransport),
            8 => Some(ErrorCode::InvalidRequest),
            _ => None,
        }
    }

    /// The numeric error class that a response frame stores.
    pub fn to_u16(self) -> (value: u16)
        ensures
            value == error_code_number(self),
    {
        match self {
            ErrorCode::UnsupportedCommand => 1,
            ErrorCode::InvalidServoId => 2,
            ErrorCode::InvalidArgument => 3,
            ErrorCode::ServoTimeout => 4,
            ErrorCode::InvalidServoReply => 5,
            ErrorCode::ServoReportedError => 6,
            ErrorCode::ServoTransport => 7,
            ErrorCode::InvalidRequest => 8,
        }
    }
}

/// Failure to decode a protocol frame.
#[derive(Clone, Copy, Debug, PartialEq, Eq, Structural)]
pub enum DecodeError {
    /// The frame does not start with the magic bytes.
    BadMagic,
    /// The peer uses an unsupported protocol version.
    UnsupportedVersion,
    /// The command or response byte is not recognised for the requested conversion.
    UnknownMessage,
    /// A field that is represented as a byte is not valid for its command.
    InvalidField,
}

/// A wire-format protocol frame.
#[derive(Clone, Copy, Debug, PartialEq, Eq, Structural)]
pub struct Frame {
    kind: u8,
    sequence: u32,
    servo_id: u8,
    option: u8,
    value: u16,
    extra: u16,
    detail: u16,
}

/// What a frame carries: the message kind, the sequence number and the five operands.
pub struct FrameFields {
    pub kind: u8,
    pub sequence: u32,
    pub servo_id: u8,
    pub option: u8,
    pub value: u16,
    pub extra: u16,
    pub detail: u16,
}

impl View for Frame {
    type V = FrameFields;

    closed spec fn view(&self) -> FrameFields {
        FrameFields {
            kind: self.kind,
            sequence: self.sequence,
            servo_id: self.servo_id,
            option: self.option,
            value: self.value,
            extra: self.extra,
            detail: self.detail,
        }
    }
}

/// A frame of the given kind whose operands are all zero.
pub open spec fn bare_frame(kind: u8, sequence: u32) -> FrameFields {
    FrameFields { kind, sequence, servo_id: 0, option: 0, value: 0, extra: 0, detail: 0 }
}

/// The frame that carries `command`.
pub open spec fn command_frame(sequence: u32, command: Command) -> FrameFields {
    match command {
        Command::Ping => bare_frame(COMMAND_PING, sequence),
        Command::StartMotor { id, counter_clockwise, speed, acceleration } => FrameFields {
            servo_id: id,
            option: if counter_clockwise { 1 } else { 0 },
            value: speed,
            extra: acceleration as u16,
            ..bare_frame(COMMAND_START_MOTOR, sequence)
        },
        Command::StopMotor { id } => FrameFields {
            servo_id: id,
            ..bare_frame(COMMAND_STOP_MOTOR, sequence)
        },
        Command::SetPosition { id, position, acceleration, torque_limit } => FrameFields {
            servo_id: id,
            option: acceleration,
            value: position,
            extra: torque_limit,
            ..bare_frame(COMMAND_SET_POSITION, sequence)
        },
        Command::ReadPosition { id } => FrameFields {
            servo_id: id,
            ..bare_frame(COMMAND_READ_POSITION, sequence)
        },
        Command::OpenRawTunnel => bare_frame(COMMAND_OPEN_RAW_TUNNEL, sequence),
    }
}

/// The frame that carries `response`.
pub open spec fn response_frame(sequence: u32, response: Response) -> FrameFields {
    match response {
        Response::Ack => bare_frame(RESPONSE_ACK, sequence),
        Response::Position { id, position } => FrameFields {
            servo_id: id,
            value: twos_complement(position),
            ..bare_frame(RESPONSE_POSITION, sequence)
        },
        Response::RawTunnelReady => bare_frame(RESPONSE_RAW_TUNNEL_READY, sequence),
        Response::Error { code, detail } => FrameFields {
            value: error_code_number(code),
            detail,
            ..bare_frame(RESPONSE_ERROR, sequence)
        },
    }
}

/// The bytes of a frame on the wire.
pub open spec fn frame_bytes(fields: FrameFields) -> Seq<u8> {
    seq![MAGIC_FIRST, MAGIC_SECOND, VERSION, fields.kind] + le32(fields.sequence)
        + seq![fields.servo_id, fields.option] + le16(fields.value) + le16(fields.extra)
        + le16(fields.detail)
}

/// What sixteen bytes decode to.
pub open spec fn decoded_frame(bytes: Seq<u8>) -> Result<FrameFields, DecodeError> {
    if bytes[0] != MAGIC_FIRST || bytes[1] != MAGIC_SECOND {
        Err(DecodeError::BadMagic)
    } else if bytes[2] != VERSION {
        Err(DecodeError::UnsupportedVersion)
    } else {
        Ok(FrameFields {
            kind: bytes[3],
            sequence: join32(bytes[4], bytes[5], bytes[6], bytes[7]),
            servo_id: bytes[8],
            option: bytes[9],
            value: join16(bytes[10], bytes[11]),
            extra: join16(bytes[12], bytes[13]),
            detail: join16(bytes[14], bytes[15]),
        })
    }
}

/// The command that a frame stands for.
pub open spec fn framed_command(fields: FrameFields) -> Result<Command, DecodeError> {
    if fields.kind == COMMAND_PING {
        Ok(Command::Ping)
    } else if fields.kind == COMMAND_START_MOTOR {
        if fields.option <= 1 && fields.extra <= 255 {
            Ok(Command::StartMotor {
                id: fields.servo_id,
                counter_clockwise: fields.option == 1,
                speed: fields.value,
                acceleration: fields.extra as u8,
            })
        } else {
            Err(DecodeError::InvalidField)
        }
    } else if fields.kind == COMMAND_STOP_MOTOR {
        Ok(Command::StopMotor { id: fields.servo_id })
    } else if fields.kind == COMMAND_SET_POSITION {
        Ok(Command::SetPosition {
            id: fields.servo_id,
            position: fields.value,
            acceleration: fields.option,
            torque_limit: fields.extra,
        })
    } else if fields.kind == COMMAND_READ_POSITION {
        Ok(Command::ReadPosition { id: fields.servo_id })
    } else if fields.kind == COMMAND_OPEN_RAW_TUNNEL {
        Ok(Command::OpenRawTunnel)
    } else {
        Err(DecodeError::UnknownMessage)
    }
}

/// The response that a frame stands for.
pub open spec fn framed_response(fields: FrameFields) -> Result<Response, DecodeError> {
    if fields.kind == RESPONSE_ACK {
        Ok(Response::Ack)
    } else if fields.kind == RESPONSE_POSITION {
        Ok(Response::Position {
            id: fields.servo_id,
            position: from_twos_complement(fields.value),
        })
    } else if fields.kind == RESPONSE_RAW_TUNNEL_READY {
        Ok(Response::RawTunnelReady)
    } else if fields.kind == RESPONSE_ERROR {
        match numbered_error_code(fields.value) {
            Some(code) => Ok(Response::Error { code, detail: fields.detail }),
            None => Err(DecodeError::InvalidField),
        }
    } else {
        Err(DecodeError::UnknownMessage)
    }
}

impl Frame {
    fn bare(kind: u8, sequence: u32) -> (frame: Self)
        ensures
            frame@ == bare_frame(kind, sequence),
    {
        Frame { kind, sequence, servo_id: 0, option: 0, value: 0, extra: 0, detail: 0 }
    }

    /// Encodes a command with its caller-selected sequence number.
    pub fn command(sequence: u32, command: Command) -> (frame: Self)
        ensures
            frame@ == command_frame(sequence, command),
    {
        match command {
            Command::Ping => Frame::bare(COMMAND_PING, sequence),
            Command::StartMotor { id, counter_clockwise, speed, acceleration } => Frame {
                kind: COMMAND_START_MOTOR,
                sequence,
                servo_id: id,
                option: if counter_clockwise { 1 } else { 0 },
                value: speed,
                extra: acceleration as u16,
                detail: 0,
            },
            Command::StopMotor { id } => Frame {
                kind: COMMAND_STOP_MOTOR,
                sequence,
                servo_id: id,
                option: 0,
                value: 0,
                extra: 0,
                detail: 0,
            },
            Command::SetPosition { id, position, acceleration, torque_limit } => Frame {
                kind: COMMAND_SET_POSITION,
                sequence,
                servo_id: id,
                option: acceleration,
                value: position,
                extra: torque_limit,
                detail: 0,
            },
            Command::ReadPosition { id } => Frame {
                kind: COMMAND_READ_POSITION,
                sequence,
                servo_id: id,
                option: 0,
                value: 0,
                extra: 0,
                detail: 0,
            },
            Command::OpenRawTunnel => Frame::bare(COMMAND_OPEN_RAW_TUNNEL, sequence),
        }
    }

    /// Encodes a response for a previously received command sequence.
    pub fn response(sequence: u32, response: Response) -> (frame: Self)
        ensures
            frame@ == response_frame(sequence, response),
    {
        match response {
            Response::Ack => Frame::bare(RESPONSE_ACK, sequence),
            Response::Position { id, position } => Frame {
                kind: RESPONSE_POSITION,
                sequence,
                servo_id: id,
                option: 0,
                value: to_bits(position),
                extra: 0,
                detail: 0,
            },
            Response::RawTunnelReady => Frame::bare(RESPONSE_RAW_TUNNEL_READY, sequence),
            Response::Error { code, detail } => Frame {
                kind: RESPONSE_ERROR,
                sequence,
                servo_id: 0,
                option: 0,
                value: code.to_u16(),
                extra: 0,
                detail,
            },
        }
    }

    /// Serializes the frame to its fixed-size TCP representation.
    pub fn encode(self) -> (bytes: [u8; FRAME_LEN])
        ensures
            bytes@ == frame_bytes(self@),
    {
        let sequence = split32(self.sequence);
        let value = split16(self.value);
        let extra = split16(self.extra);
        let detail = split16(self.detail);
        let bytes: [u8; FRAME_LEN] = [
            MAGIC_FIRST,
            MAGIC_SECOND,
            VERSION,
            self.kind,
            sequence[0],
            sequence[1],
            sequence[2],
            sequence[3],
            self.servo_id,
            self.option,
            value.0,
            value.1,
            extra.0,
            extra.1,
            detail.0,
            detail.1,
        ];
        proof {
            assert(seq![value.0, value.1][0] == value.0 && seq![value.0, value.1][1] == value.1);
            assert(seq![extra.0, extra.1][0] == extra.0 && seq![extra.0, extra.1][1] == extra.1);
            assert(seq![detail.0, detail.1][0] == detail.0 && seq![detail.0, detail.1][1]
                == detail.1);
            assert(bytes@ =~= frame_bytes(self@));
        }
        bytes
    }

    /// Parses and validates the shared envelope of a wire-format frame.
    pub fn decode(bytes: [u8; FRAME_LEN]) -> (frame: Result<Self, DecodeError>)
        ensures
            match frame {
                Ok(frame) => decoded_frame(bytes@) == Ok::<FrameFields, DecodeError>(frame@),
                Err(error) => decoded_frame(bytes@) == Err::<FrameFields, DecodeError>(error),
            },
    {
        if bytes[0] != MAGIC_FIRST || bytes[1] != MAGIC_SECOND {
            return Err(DecodeError::BadMagic);
        }
        if bytes[2] != VERSION {
            return Err(DecodeError::UnsupportedVersion);
        }
        Ok(
            Frame {
                kind: bytes[3],
                sequence: join_word(bytes[4], bytes[5], bytes[6], bytes[7]),
                servo_id: bytes[8],
                option: bytes[9],
                value: join_bytes(bytes[10], bytes[11]),
                extra: join_bytes(bytes[12], bytes[13]),
                detail: join_bytes(bytes[14], bytes[15]),
            },
        )
    }

    /// Returns the command represented by this frame.
    pub fn as_command(self) -> (command: Result<Command, DecodeError>)
        ensures
            command == framed_command(self@),
    {
        match self.kind {
            COMMAND_PING => Ok(Command::Ping),
            COMMAND_START_MOTOR => {
                if self.option <= 1 && self.extra <= 255 {
                    Ok(
                        Command::StartMotor {
                            id: self.servo_id,
                            counter_clockwise: self.option == 1,
                            speed: self.value,
                            acceleration: self.extra as u8,
                        },
                    )
                } else {
                    Err(DecodeError::InvalidField)
                }
            },
            COMMAND_STOP_MOTOR => Ok(Command::StopMotor { id: self.servo_id }),
            COMMAND_SET_POSITION => Ok(
                Command::SetPosition {
                    id: self.servo_id,
                    position: self.value,
                    acceleration: self.option,
                    torque_limit: self.extra,
                },
            ),
            COMMAND_READ_POSITION => Ok(Command::ReadPosition { id: self.servo_id }),
            COMMAND_OPEN_RAW_TUNNEL => Ok(Command::OpenRawTunnel),
            _ => Err(DecodeError::UnknownMessage),
        }
    }

    /// Returns the response represented by this frame.
    pub fn as_response(self) -> (response: Result<Response, DecodeError>)
        ensures
            response == framed_response(self@),
    {
        match self.kind {
            RESPONSE_ACK => Ok(Response::Ack),
            RESPONSE_POSITION => Ok(
                Response::Position { id: self.servo_id, position: from_bits(self.value) },
            ),
            RESPONSE_RAW_TUNNEL_READY => Ok(Response::RawTunnelReady),
            RESPONSE_ERROR => match ErrorCode::from_u16(self.value) {
                Some(code) => Ok(Response::Error { code, detail: self.detail }),
                None => Err(DecodeError::InvalidField),
            },
            _ => Err(DecodeError::UnknownMessage),
        }
    }

    /// The sequence number that correlates a response with its command.
    pub fn sequence(self) -> (sequence: u32)
        ensures
            sequence == self@.sequence,
    {
        self.sequence
    }
}

/// A frame is sixteen bytes long, and decoding those bytes gives the frame back.
pub proof fn encoded_frames_decode(fields: FrameFields)
    ensures
        frame_bytes(fields).len() == FRAME_LEN,
        decoded_frame(frame_bytes(fields)) == Ok::<FrameFields, DecodeError>(fields),
{
    words_round_trip(fields.value, 0, 0);
    words_round_trip(fields.extra, 0, 0);
    words_round_trip(fields.detail, 0, 0);
    double_words_round_trip(fields.sequence, 0, 0, 0, 0);
}

/// Sixteen bytes that decode are the encoding of what they decode to: no two byte strings stand
/// for the same frame.
pub proof fn decoded_frames_encode(bytes: Seq<u8>)
    requires
        bytes.len() == FRAME_LEN,
        decoded_frame(bytes) is Ok,
    ensures
        frame_bytes(decoded_frame(bytes)->Ok_0) == bytes,
{
    words_round_trip(0, bytes[10], bytes[11]);
    words_round_trip(0, bytes[12], bytes[13]);
    words_round_trip(0, bytes[14], bytes[15]);
    double_words_round_trip(0, bytes[4], bytes[5], bytes[6], bytes[7]);
    let fields = decoded_frame(bytes)->Ok_0;
    assert(le16(fields.value) == seq![bytes[10], bytes[11]]);
    assert(frame_bytes(fields) =~= bytes);
}

/// A command survives its frame, keeps its sequence number there, and is never taken for a
/// response.
pub proof fn commands_round_trip(sequence: u32, command: Command)
    ensures
        framed_command(command_frame(sequence, command)) == Ok::<Command, DecodeError>(command),
        command_frame(sequence, command).sequence == sequence,
        framed_response(command_frame(sequence, command)) == Err::<Response, DecodeError>(
            DecodeError::UnknownMessage,
        ),
{
}

/// A response survives its frame, keeps its sequence number there, and is never taken for a
/// command.
pub proof fn responses_round_trip(sequence: u32, response: Response)
    ensures
        framed_response(response_frame(sequence, response)) == Ok::<Response, DecodeError>(
            response,
        ),
        response_frame(sequence, response).sequence == sequence,
        framed_command(response_frame(sequence, response)) == Err::<Command, DecodeError>(
            DecodeError::UnknownMessage,
        ),
{
    match response {
        Response::Position { position, .. } => signed_words_round_trip(position, 0),
        Response::Error { code, .. } => error_codes_are_numbered(code, 0),
        _ => {},
    }
}

/// A frame has its bytes in these places: `FL`, version 1, the kind, the sequence number, the
/// servo, the option and three words, low bytes first.
pub proof fn frames_have_their_layout(fields: FrameFields)
    ensures
        ({
            let bytes = frame_bytes(fields);
            &&& bytes.len() == 16
            &&& bytes[0] == 'F' as u8 && bytes[1] == 'L' as u8
            &&& bytes[2] == 1
            &&& bytes[3] == fields.kind
            &&& bytes[4] + 256 * bytes[5] + 65536 * bytes[6] + 16777216 * bytes[7]
                == fields.sequence
            &&& bytes[8] == fields.servo_id
            &&& bytes[9] == fields.option
            &&& bytes[10] + 256 * bytes[11] == fields.value
            &&& bytes[12] + 256 * bytes[13] == fields.extra
            &&& bytes[14] + 256 * bytes[15] == fields.detail
        }),
{
    crate::wire::bytes_are_digits_to_the_base_256(fields.value, fields.sequence, 0, 0, 0, 0);
    crate::wire::bytes_are_digits_to_the_base_256(fields.extra, 0, 0, 0, 0, 0);
    crate::wire::bytes_are_digits_to_the_base_256(fields.detail, 0, 0, 0, 0, 0);
}

/// Sixteen bytes are refused for their first two bytes, then for their version, and for nothing
/// else.
pub proof fn frames_are_refused_for_magic_and_version(bytes: Seq<u8>)
    requires
        bytes.len() == 16,
    ensures
        ({
            let magic = bytes[0] == 70 && bytes[1] == 76;
            &&& !magic <==> decoded_frame(bytes) == Err::<FrameFields, DecodeError>(
                DecodeError::BadMagic,
            )
            &&& magic && bytes[2] != 1 <==> decoded_frame(bytes) == Err::<
                FrameFields,
                DecodeError,
            >(DecodeError::UnsupportedVersion)
            &&& magic && bytes[2] == 1 ==> (decoded_frame(bytes) matches Ok(fields) && frame_bytes(
                fields,
            ) == bytes)
        }),
{
    if decoded_frame(bytes) is Ok {
        decoded_frames_encode(bytes);
    }
}

/// Whether the operands of a frame are these, and its kind and sequence number too.
pub open spec fn has_operands(
    fields: FrameFields,
    kind: u8,
    sequence: u32,
    servo_id: u8,
    option: u8,
    value: u16,
    extra: u16,
    detail: u16,
) -> bool {
    &&& fields.kind == kind && fields.sequence == sequence
    &&& fields.servo_id == servo_id && fields.option == option
    &&& fields.value == value && fields.extra == extra && fields.detail == detail
}

/// Each command and each response has a kind of its own and its arguments in these operands; the
/// others are zero.
pub proof fn messages_have_their_operands(
    sequence: u32,
    id: u8,
    flag: bool,
    word: u16,
    byte: u8,
    limit: u16,
    position: i16,
    code: ErrorCode,
)
    ensures
        has_operands(command_frame(sequence, Command::Ping), 1, sequence, 0, 0, 0, 0, 0),
        has_operands(
            command_frame(
                sequence,
                Command::StartMotor {
                    id,
                    counter_clockwise: flag,
                    speed: word,
                    acceleration: byte,
                },
            ),
            16,
            sequence,
            id,
            if flag {
                1
            } else {
                0
            },
            word,
            byte as u16,
            0,
        ),
        has_operands(
            command_frame(sequence, Command::StopMotor { id }),
            17,
            sequence,
            id,
            0,
            0,
            0,
            0,
        ),
        has_operands(
            command_frame(
                sequence,
                Command::SetPosition {
                    id,
                    position: word,
                    acceleration: byte,
                    torque_limit: limit,
                },
            ),
            18,
            sequence,
            id,
            byte,
            word,
            limit,
            0,
        ),
        has_operands(
            command_frame(sequence, Command::ReadPosition { id }),
            19,
            sequence,
            id,
            0,
            0,
            0,
            0,
        ),
        has_operands(command_frame(sequence, Command::OpenRawTunnel), 126, sequence, 0, 0, 0, 0, 0),
        has_operands(response_frame(sequence, Response::Ack), 128, sequence, 0, 0, 0, 0, 0),
        ({
            let fields = response_frame(sequence, Response::Position { id, position });
            has_operands(fields, 129, sequence, id, 0, fields.value, 0, 0) && (fields.value
                - position) % 65536 == 0
        }),
        has_operands(
            response_frame(sequence, Response::RawTunnelReady),
            131,
            sequence,
            0,
            0,
            0,
            0,
            0,
        ),
        ({
            let fields = response_frame(sequence, Response::Error { code, detail: word });
            has_operands(fields, 130, sequence, 0, 0, fields.value, 0, word) && fields.value
                == match code {
                ErrorCode::UnsupportedCommand => 1u16,
                ErrorCode::InvalidServoId => 2,
                ErrorCode::InvalidArgument => 3,
                ErrorCode::ServoTimeout => 4,
                ErrorCode::InvalidServoReply => 5,
                ErrorCode::ServoReportedError => 6,
                ErrorCode::ServoTransport => 7,
                ErrorCode::InvalidRequest => 8,
            }
        }),
{
    crate::wire::bit_patterns_are_congruent(position, 0);
}

/// A frame stands for a command or a response by its kind alone, but for operands that no message
/// of its kind has.
pub proof fn frames_stand_for_messages_by_their_kind(fields: FrameFields)
    ensures
        framed_command(fields) == Err::<Command, DecodeError>(DecodeError::UnknownMessage)
            <==> !set![1u8, 16u8, 17u8, 18u8, 19u8, 126u8].contains(fields.kind),
        framed_command(fields) == Err::<Command, DecodeError>(DecodeError::InvalidField)
            <==> fields.kind == 16 && (fields.option > 1 || fields.extra > 255),
        framed_response(fields) == Err::<Response, DecodeError>(DecodeError::UnknownMessage)
            <==> !set![128u8, 129u8, 130u8, 131u8].contains(fields.kind),
        framed_response(fields) == Err::<Response, DecodeError>(DecodeError::InvalidField)
            <==> fields.kind == 130 && !(1 <= fields.value <= 8),
        framed_command(fields) matches Ok(command) ==> {
            let again = command_frame(fields.sequence, command);
            &&& again.kind == fields.kind
            &&& !(command is Ping) && !(command is OpenRawTunnel) ==> again.servo_id
                == fields.servo_id
            &&& command is StartMotor || command is SetPosition ==> again.option == fields.option
                && again.value == fields.value && again.extra == fields.extra
        },
        framed_response(fields) matches Ok(response) ==> {
            let again = response_frame(fields.sequence, response);
            &&& again.kind == fields.kind
            &&& response is Position ==> again.servo_id == fields.servo_id && again.value
                == fields.value
            &&& response is Error ==> again.value == fields.value && again.detail == fields.detail
        },
{
    error_codes_are_numbered(ErrorCode::InvalidRequest, fields.value);
    signed_words_round_trip(0, fields.value);
}

} // verus!
