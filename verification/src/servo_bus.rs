//! Transactions with STS servos: addresses, registers, the packets of each operation and the
//! replies of the servos.

use vstd::prelude::*;
use vstd::slice::{slice_subrange, slice_to_vec};

use crate::controller::{
    byte_sum_concat, checksum, encode_instruction_packet, instruction_packet, inverted_sum,
    status_body, status_checksum_ok, status_length_ok, total, InstructionPacketError,
    MAX_STATUS_LENGTH,
};
use crate::wire::{join16, join_bytes, le16, split16};

verus! {

/// The address that every servo on the bus obeys.
pub const STS_BROADCAST_ID: u8 = 0xfe;

/// The greatest address of a single servo.
pub const MAX_SERVO_ID: u8 = 253;

pub const STS_INSTRUCTION_PING: u8 = 0x01;

pub const STS_INSTRUCTION_READ: u8 = 0x02;

pub const STS_INSTRUCTION_WRITE: u8 = 0x03;

/// The register that holds a servo's address across power cycles.
pub const STS_ID: u8 = 5;

pub const STS_MODE: u8 = 33;

pub const STS_TORQUE_ENABLE: u8 = 40;

pub const STS_ACCELERATION: u8 = 41;

pub const STS_TORQUE_LIMIT: u8 = 48;

pub const STS_PRESENT_POSITION: u8 = 56;

/// How long the MCU waits for the reply to a packet.
pub const STS_RESPONSE_TIMEOUT_MS: u64 = 50;

/// The greatest length of a packet that the MCU sends.
pub const MAX_PACKET_LEN: usize = 16;

/// The greatest number of bytes that the MCU writes to registers at once.
pub const MAX_WRITE_LEN: usize = 7;

/// How many bytes are searched for the header of a reply.
pub const MAX_HEADER_BYTES: u8 = 128;

/// How often the bus is read while it is drained.
pub const MAX_DRAIN_READS: u8 = 4;

/// How long the bus must be quiet to count as drained.
pub const DRAIN_QUIET_MS: u64 = 2;

/// Whether an address belongs to a single servo.
pub open spec fn unicast(id: u8) -> bool {
    1 <= id <= MAX_SERVO_ID
}

/// Tells whether an address belongs to a single servo.
pub fn is_unicast_servo_id(id: u8) -> (unicast: bool)
    ensures
        unicast == self::unicast(id),
{
    id != 0 && id <= MAX_SERVO_ID
}

/// Why the MCU could not carry out a servo command.
#[derive(Clone, Copy, Debug, PartialEq, Eq, Structural)]
pub enum ServoFailure {
    InvalidServoId,
    InvalidArgument,
    Timeout,
    InvalidReply,
    ReportedError,
    Transport,
    IdInUse,
}

/// Refuses addresses that do not belong to a single servo.
pub fn validate_servo_id(id: u8) -> (result: Result<(), ServoFailure>)
    ensures
        result == if unicast(id) {
            Ok::<(), ServoFailure>(())
        } else {
            Err(ServoFailure::InvalidServoId)
        },
{
    if is_unicast_servo_id(id) {
        Ok(())
    } else {
        Err(ServoFailure::InvalidServoId)
    }
}

/// The checksum of a status packet whose error byte and parameters are given.
pub fn checksum_for_status(id: u8, length: u8, body_without_checksum: &[u8]) -> (sum: u8)
    ensures
        sum == inverted_sum(seq![id, length] + body_without_checksum@),
{
    let head = [id, length];
    let head_sum = checksum(head.as_slice());
    let body_sum = checksum(body_without_checksum);
    proof {
        assert(head@ =~= seq![id, length]);
        byte_sum_concat(head@, body_without_checksum@);
        assert(!head_sum == 255 - head_sum) by (bit_vector);
        assert(!body_sum == 255 - body_sum) by (bit_vector);
    }
    let sum = (!head_sum).wrapping_add(!body_sum);
    proof {
        assert(!sum == 255 - sum) by (bit_vector);
    }
    !sum
}

/// The value of an STS register whose highest bit is a sign.
pub open spec fn signed_15(value: u16) -> i16 {
    if value < 0x8000 {
        value as i16
    } else {
        (0x8000 - value) as i16
    }
}

/// Decodes an STS register whose highest bit is a sign.
pub fn decode_signed_15(value: u16) -> (decoded: i16)
    ensures
        decoded == signed_15(value),
{
    proof {
        assert(value & 0x8000 != 0 <==> value >= 0x8000) by (bit_vector);
        assert(value & 0x7fff == if value >= 0x8000 {
            value - 0x8000
        } else {
            value as int
        }) by (bit_vector);
    }
    if value & 0x8000 != 0 {
        -((value & 0x7fff) as i16)
    } else {
        value as i16
    }
}

/// What is wrong with the reply of a servo.
#[derive(Clone, Copy, Debug, PartialEq, Eq, Structural)]
pub enum StatusFault {
    NoHeader,
    WrongServo { id: u8 },
    InvalidLength { length: u8 },
    InvalidChecksum,
    Reported { id: u8, error: u8 },
    /// A part of the reply has not as many bytes as were asked for.
    CutShort,
}

/// The part of a reply that is read next.
#[derive(Clone, Copy, Debug, PartialEq, Eq, Structural)]
pub enum StatusReader {
    /// One byte of the header, where `seen` bytes were read and the last one is `previous`.
    Header { seen: u8, previous: u8 },
    /// The address and the length field.
    Fixed,
    /// The error byte, the parameters and the checksum.
    Body { id: u8, length: u8 },
}

/// What follows a part of a reply.
#[derive(Debug)]
pub enum StatusStep {
    Continue(StatusReader),
    /// The reply is complete and has these parameters.
    Complete(Vec<u8>),
    Fault(StatusFault),
}

#[verifier::ext_equal]
pub enum StatusStepView {
    Continue(StatusReader),
    Complete(Seq<u8>),
    Fault(StatusFault),
}

impl View for StatusStep {
    type V = StatusStepView;

    open spec fn view(&self) -> StatusStepView {
        match self {
            StatusStep::Continue(reader) => StatusStepView::Continue(*reader),
            StatusStep::Complete(parameters) => StatusStepView::Complete(parameters@),
            StatusStep::Fault(fault) => StatusStepView::Fault(*fault),
        }
    }
}

/// What a complete reply, without its header, comes to.
pub open spec fn judged_status(packet: Seq<u8>) -> StatusStepView {
    if !status_checksum_ok(packet) {
        StatusStepView::Fault(StatusFault::InvalidChecksum)
    } else if packet[2] != 0 {
        StatusStepView::Fault(StatusFault::Reported { id: packet[0], error: packet[2] })
    } else {
        StatusStepView::Complete(packet.subrange(3, packet.len() - 1))
    }
}

impl StatusReader {
    /// The reader before the first byte of a reply.
    pub open spec fn start() -> StatusReader {
        StatusReader::Header { seen: 0, previous: 0 }
    }

    /// How many bytes the part has.
    pub open spec fn spec_wanted(self) -> nat {
        match self {
            StatusReader::Header { .. } => 1,
            StatusReader::Fixed => 2,
            StatusReader::Body { length, .. } => length as nat,
        }
    }

    /// What follows a part of a reply from the servo `expected_id`. A part that has not as many
    /// bytes as were asked for is a fault.
    pub open spec fn step(self, expected_id: u8, bytes: Seq<u8>) -> StatusStepView {
        if bytes.len() != self.spec_wanted() {
            StatusStepView::Fault(StatusFault::CutShort)
        } else {
            match self {
                StatusReader::Header { seen, previous } => if previous == 0xff && bytes[0]
                    == 0xff {
                    StatusStepView::Continue(StatusReader::Fixed)
                } else if seen + 1 >= MAX_HEADER_BYTES {
                    StatusStepView::Fault(StatusFault::NoHeader)
                } else {
                    StatusStepView::Continue(
                        StatusReader::Header { seen: (seen + 1) as u8, previous: bytes[0] },
                    )
                },
                StatusReader::Fixed => if bytes[0] != expected_id {
                    StatusStepView::Fault(StatusFault::WrongServo { id: bytes[0] })
                } else if !(2 <= bytes[1] <= MAX_STATUS_LENGTH) {
                    StatusStepView::Fault(StatusFault::InvalidLength { length: bytes[1] })
                } else {
                    StatusStepView::Continue(StatusReader::Body { id: bytes[0], length: bytes[1] })
                },
                StatusReader::Body { id, length } => if !(2 <= length <= MAX_STATUS_LENGTH) {
                    StatusStepView::Fault(StatusFault::InvalidLength { length })
                } else {
                    judged_status(seq![id, length] + bytes)
                },
            }
        }
    }

    /// The reader before the first byte of a reply.
    pub fn new() -> (reader: StatusReader)
        ensures
            reader == Self::start(),
    {
        StatusReader::Header { seen: 0, previous: 0 }
    }

    /// How many bytes the part has.
    pub fn wanted(&self) -> (count: usize)
        ensures
            count == self.spec_wanted(),
    {
        match self {
            StatusReader::Header { .. } => 1,
            StatusReader::Fixed => 2,
            StatusReader::Body { length, .. } => *length as usize,
        }
    }
}

fn judge_status(id: u8, length: u8, body: &[u8]) -> (step: StatusStep)
    requires
        2 <= length == body@.len(),
    ensures
        step@ == judged_status(seq![id, length] + body@),
{
    let ghost packet = seq![id, length] + body@;
    let end: usize = body.len() - 1;
    let expected = checksum_for_status(id, length, slice_subrange(body, 0, end));
    proof {
        assert(packet.drop_last() =~= seq![id, length] + body@.subrange(0, end as int));
        assert(packet.subrange(3, packet.len() - 1) =~= body@.subrange(1, end as int));
    }
    if body[end] != expected {
        return StatusStep::Fault(StatusFault::InvalidChecksum);
    }
    if body[0] != 0 {
        return StatusStep::Fault(StatusFault::Reported { id, error: body[0] });
    }
    StatusStep::Complete(slice_to_vec(slice_subrange(body, 1, end)))
}

/// Takes the bytes of the part of a reply that `reader` waits for.
pub fn read_sts_status(reader: StatusReader, expected_id: u8, bytes: &[u8]) -> (step: StatusStep)
    ensures
        step@ == reader.step(expected_id, bytes@),
{
    if bytes.len() != reader.wanted() {
        return StatusStep::Fault(StatusFault::CutShort);
    }
    match reader {
        StatusReader::Header { seen, previous } => {
            if previous == 0xff && bytes[0] == 0xff {
                StatusStep::Continue(StatusReader::Fixed)
            } else if seen >= MAX_HEADER_BYTES - 1 {
                StatusStep::Fault(StatusFault::NoHeader)
            } else {
                StatusStep::Continue(StatusReader::Header { seen: seen + 1, previous: bytes[0] })
            }
        },
        StatusReader::Fixed => {
            let id = bytes[0];
            let length = bytes[1];
            if id != expected_id {
                StatusStep::Fault(StatusFault::WrongServo { id })
            } else if length < 2 || length as usize > MAX_STATUS_LENGTH {
                StatusStep::Fault(StatusFault::InvalidLength { length })
            } else {
                StatusStep::Continue(StatusReader::Body { id, length })
            }
        },
        StatusReader::Body { id, length } => {
            if length < 2 || length as usize > MAX_STATUS_LENGTH {
                StatusStep::Fault(StatusFault::InvalidLength { length })
            } else {
                judge_status(id, length, bytes)
            }
        },
    }
}

/// What the next reply in a stream of bytes comes to, and how many bytes it takes; `None` where
/// the stream is too short to tell.
pub open spec fn read_reply(reader: StatusReader, expected_id: u8, stream: Seq<u8>) -> Option<
    (StatusStepView, nat),
>
    decreases reply_stage(reader),
{
    let wanted = reader.spec_wanted();
    if stream.len() < wanted {
        None
    } else {
        match reader.step(expected_id, stream.take(wanted as int)) {
            StatusStepView::Continue(next) if reply_stage(next) < reply_stage(reader) =>
            match read_reply(next, expected_id, stream.skip(wanted as int)) {
                Some((step, count)) => Some((step, wanted + count)),
                None => None,
            },
            step => Some((step, wanted)),
        }
    }
}

/// How many parts of a reply can follow the one that is read next.
pub open spec fn reply_stage(reader: StatusReader) -> nat {
    match reader {
        StatusReader::Header { seen, .. } => if seen < MAX_HEADER_BYTES {
            (MAX_HEADER_BYTES - seen + 2) as nat
        } else {
            2
        },
        StatusReader::Fixed => 1,
        StatusReader::Body { .. } => 0,
    }
}

/// Whether a byte string cannot be mistaken for the header of a reply, nor for its start.
pub open spec fn is_noise(bytes: Seq<u8>) -> bool {
    &&& forall|i: int|
        0 <= i && i + 1 < bytes.len() ==> !(#[trigger] bytes[i] == 0xff && bytes[i + 1] == 0xff)
    &&& bytes.len() > 0 ==> bytes.last() != 0xff
}

proof fn reading_a_reply_goes_on(
    reader: StatusReader,
    expected_id: u8,
    part: Seq<u8>,
    rest: Seq<u8>,
    next: StatusReader,
)
    requires
        part.len() == reader.spec_wanted(),
        reader.step(expected_id, part) == StatusStepView::Continue(next),
        reply_stage(next) < reply_stage(reader),
    ensures
        read_reply(reader, expected_id, part + rest) == match read_reply(next, expected_id, rest) {
            Some((step, count)) => Some((step, part.len() + count)),
            None => None,
        },
{
    assert((part + rest).take(part.len() as int) =~= part);
    assert((part + rest).skip(part.len() as int) =~= rest);
}

proof fn noise_goes_on(noise: Seq<u8>)
    requires
        noise.len() > 0,
        is_noise(noise),
    ensures
        is_noise(noise.drop_first()),
        noise[0] == 0xff ==> noise.len() > 1 && noise.drop_first()[0] != 0xff,
{
    let tail = noise.drop_first();
    if tail.len() > 0 {
        assert(tail[0] == noise[1]);
        assert(tail.last() == noise.last());
    }
    assert forall|i: int| 0 <= i && i + 1 < tail.len() implies !(#[trigger] tail[i] == 0xff
        && tail[i + 1] == 0xff) by {
        assert(tail[i] == noise[i + 1] && tail[i + 1] == noise[i + 2]);
    }
}

proof fn header_byte_is_read(seen: u8, previous: u8, byte: u8, id: u8, rest: Seq<u8>)
    requires
        seen + 1 < MAX_HEADER_BYTES,
        !(previous == 0xff && byte == 0xff),
    ensures
        ({
            let next = StatusReader::Header { seen: (seen + 1) as u8, previous: byte };
            read_reply(StatusReader::Header { seen, previous }, id, seq![byte] + rest)
                == match read_reply(next, id, rest) {
                Some((step, count)) => Some((step, 1 + count)),
                None => None,
            }
        }),
{
    reading_a_reply_goes_on(
        StatusReader::Header { seen, previous },
        id,
        seq![byte],
        rest,
        StatusReader::Header { seen: (seen + 1) as u8, previous: byte },
    );
}

proof fn noise_is_skipped(seen: u8, previous: u8, noise: Seq<u8>, id: u8, rest: Seq<u8>)
    requires
        seen + noise.len() + 2 <= MAX_HEADER_BYTES,
        is_noise(noise),
        previous == 0xff ==> noise.len() > 0 && noise[0] != 0xff,
    ensures
        ({
            let after = read_reply(StatusReader::Fixed, id, rest);
            read_reply(
                StatusReader::Header { seen, previous },
                id,
                noise + (seq![0xffu8, 0xffu8] + rest),
            ) == match after {
                Some((step, count)) => Some((step, noise.len() + 2 + count)),
                None => None,
            }
        }),
    decreases noise.len(),
{
    let header = seq![0xffu8, 0xffu8] + rest;
    if noise.len() == 0 {
        let first = seq![0xffu8];
        let half = StatusReader::Header { seen: (seen + 1) as u8, previous: 0xff };
        header_byte_is_read(seen, previous, 0xff, id, first + rest);
        reading_a_reply_goes_on(half, id, first, rest, StatusReader::Fixed);
        assert(noise + header =~= first + (first + rest));
    } else {
        let tail = noise.drop_first();
        noise_goes_on(noise);
        header_byte_is_read(seen, previous, noise[0], id, tail + header);
        noise_is_skipped((seen + 1) as u8, noise[0], tail, id, rest);
        assert(noise + header =~= seq![noise[0]] + (tail + header));
    }
}

/// A whole reply of the expected servo is judged by its own bytes alone, after up to 126 bytes of
/// noise: nothing before it matters, and nothing after it is taken.
pub proof fn replies_are_judged_by_their_bytes(
    noise: Seq<u8>,
    packet: Seq<u8>,
    rest: Seq<u8>,
)
    requires
        noise.len() + 2 <= MAX_HEADER_BYTES,
        is_noise(noise),
        status_length_ok(packet),
    ensures
        read_reply(
            StatusReader::start(),
            packet[0],
            noise + (seq![0xffu8, 0xffu8] + (packet + rest)),
        ) == Some((judged_status(packet), noise.len() + 2 + packet.len())),
{
    let id = packet[0];
    let length = packet[1];
    let fixed = packet.take(2);
    let body = packet.skip(2);
    let reader = StatusReader::Body { id, length };
    noise_is_skipped(0, 0, noise, id, packet + rest);
    reading_a_reply_goes_on(StatusReader::Fixed, id, fixed, body + rest, reader);
    assert(packet + rest =~= fixed + (body + rest));
    assert((body + rest).take(length as int) =~= body);
    assert(seq![id, length] + body =~= packet);
}

/// A reply that a servo sends is read back: the parameters of a reply without an error arrive
/// unchanged, and an error is reported as it was sent.
pub proof fn replies_are_read_back(
    noise: Seq<u8>,
    id: u8,
    error: u8,
    parameters: Seq<u8>,
    rest: Seq<u8>,
)
    requires
        noise.len() + 2 <= MAX_HEADER_BYTES,
        is_noise(noise),
        parameters.len() <= 64,
    ensures
        read_reply(
            StatusReader::start(),
            id,
            noise + (seq![0xffu8, 0xffu8] + (status_body(id, error, parameters) + rest)),
        ) == Some(
            (
                if error == 0 {
                    StatusStepView::Complete(parameters)
                } else {
                    StatusStepView::Fault(StatusFault::Reported { id, error })
                },
                noise.len() + 6 + parameters.len(),
            ),
        ),
{
    crate::controller::sent_status_packets_are_accepted(id, error, parameters);
    replies_are_judged_by_their_bytes(noise, status_body(id, error, parameters), rest);
}

/// What the MCU reports for a faulty reply.
pub open spec fn fault_failure(fault: StatusFault) -> ServoFailure {
    if fault is Reported {
        ServoFailure::ReportedError
    } else if fault is CutShort {
        ServoFailure::Transport
    } else {
        ServoFailure::InvalidReply
    }
}

/// What the MCU reports for a faulty reply.
pub fn failure_of_fault(fault: StatusFault) -> (failure: ServoFailure)
    ensures
        failure == fault_failure(fault),
{
    match fault {
        StatusFault::Reported { .. } => ServoFailure::ReportedError,
        StatusFault::CutShort => ServoFailure::Transport,
        _ => ServoFailure::InvalidReply,
    }
}

/// The bytes of an instruction packet.
pub fn packet_bytes(id: u8, instruction: u8, parameters: &[u8]) -> (packet: Vec<u8>)
    requires
        parameters@.len() <= 253,
    ensures
        packet@ == instruction_packet(id, instruction, parameters@),
{
    let mut packet: Vec<u8> = vec![0; parameters.len() + 6];
    let result = encode_instruction_packet(packet.as_mut_slice(), id, instruction, parameters);
    proof {
        if let Err(error) = result {
            assert(error == InstructionPacketError::ParametersTooLong || error
                == InstructionPacketError::OutputTooSmall);
        }
        assert(packet@ =~= instruction_packet(id, instruction, parameters@));
    }
    packet
}

/// The packet that the MCU sends for an instruction. It is refused where it is longer than the
/// MCU's packet buffer.
pub fn send_sts_packet(id: u8, instruction: u8, parameters: &[u8]) -> (packet: Result<
    Vec<u8>,
    ServoFailure,
>)
    ensures
        match packet {
            Ok(packet) => parameters@.len() + 6 <= MAX_PACKET_LEN && packet@ == instruction_packet(
                id,
                instruction,
                parameters@,
            ),
            Err(failure) => parameters@.len() + 6 > MAX_PACKET_LEN && failure
                == ServoFailure::InvalidArgument,
        },
{
    if parameters.len() > MAX_PACKET_LEN - 6 {
        return Err(ServoFailure::InvalidArgument);
    }
    Ok(packet_bytes(id, instruction, parameters))
}

/// An instruction for a servo, with the number of parameters that its reply has.
#[derive(Debug)]
pub struct Transaction {
    pub id: u8,
    pub instruction: u8,
    pub parameters: Vec<u8>,
    pub reply_len: usize,
}

#[verifier::ext_equal]
pub struct TransactionView {
    pub id: u8,
    pub instruction: u8,
    pub parameters: Seq<u8>,
    pub reply_len: nat,
}

impl View for Transaction {
    type V = TransactionView;

    open spec fn view(&self) -> TransactionView {
        TransactionView {
            id: self.id,
            instruction: self.instruction,
            parameters: self.parameters@,
            reply_len: self.reply_len as nat,
        }
    }
}

/// The instruction that writes `data` to the registers from `address` on.
pub open spec fn register_write(id: u8, address: u8, data: Seq<u8>) -> TransactionView {
    TransactionView {
        id,
        instruction: STS_INSTRUCTION_WRITE,
        parameters: seq![address] + data,
        reply_len: 0,
    }
}

/// The instruction that reads `length` registers from `address` on.
pub open spec fn register_read(id: u8, address: u8, length: u8) -> TransactionView {
    TransactionView {
        id,
        instruction: STS_INSTRUCTION_READ,
        parameters: seq![address, length],
        reply_len: length as nat,
    }
}

/// The instruction that asks a servo whether it is there.
pub open spec fn ping(id: u8) -> TransactionView {
    TransactionView {
        id,
        instruction: STS_INSTRUCTION_PING,
        parameters: Seq::empty(),
        reply_len: 0,
    }
}

/// The instructions of a plan by their views.
pub open spec fn plan_view(plan: Seq<Transaction>) -> Seq<TransactionView> {
    Seq::new(plan.len(), |i: int| plan[i]@)
}

fn write_instruction(id: u8, address: u8, data: &[u8]) -> (transaction: Transaction)
    ensures
        transaction@ == register_write(id, address, data@),
{
    let mut parameters: Vec<u8> = Vec::new();
    parameters.push(address);
    parameters.extend_from_slice(data);
    proof {
        assert(parameters@ =~= seq![address] + data@);
    }
    Transaction { id, instruction: STS_INSTRUCTION_WRITE, parameters, reply_len: 0 }
}

/// The instruction with which the MCU writes `data` to the registers from `address` on. More than
/// seven bytes are refused.
pub fn write_register(id: u8, address: u8, data: &[u8]) -> (transaction: Result<
    Transaction,
    ServoFailure,
>)
    ensures
        match transaction {
            Ok(transaction) => data@.len() <= MAX_WRITE_LEN && transaction@ == register_write(
                id,
                address,
                data@,
            ),
            Err(failure) => data@.len() > MAX_WRITE_LEN && failure == ServoFailure::InvalidArgument,
        },
{
    if data.len() > MAX_WRITE_LEN {
        return Err(ServoFailure::InvalidArgument);
    }
    Ok(write_instruction(id, address, data))
}

/// The instruction that reads `length` registers from `address` on.
pub fn read_register(id: u8, address: u8, length: u8) -> (transaction: Transaction)
    ensures
        transaction@ == register_read(id, address, length),
{
    let mut parameters: Vec<u8> = Vec::new();
    parameters.push(address);
    parameters.push(length);
    proof {
        assert(parameters@ =~= seq![address, length]);
    }
    Transaction { id, instruction: STS_INSTRUCTION_READ, parameters, reply_len: length as usize }
}

/// The instruction that asks a servo whether it is there.
pub fn ping_servo(id: u8) -> (transaction: Transaction)
    ensures
        transaction@ == ping(id),
{
    Transaction { id, instruction: STS_INSTRUCTION_PING, parameters: Vec::new(), reply_len: 0 }
}

/// A speed whose highest bit says that the motor turns counter-clockwise.
pub open spec fn directed_speed(speed: u16, counter_clockwise: bool) -> u16 {
    if counter_clockwise && speed < 0x8000 {
        (speed + 0x8000) as u16
    } else {
        speed
    }
}

/// The instructions that start a motor: continuous mode, torque, then acceleration and speed.
pub open spec fn start_plan(
    id: u8,
    counter_clockwise: bool,
    speed: u16,
    acceleration: u8,
) -> Seq<TransactionView> {
    seq![
        register_write(id, STS_MODE, seq![1u8]),
        register_write(id, STS_TORQUE_ENABLE, seq![1u8]),
        register_write(
            id,
            STS_ACCELERATION,
            seq![acceleration, 0u8, 0u8, 0u8, 0u8] + le16(directed_speed(speed, counter_clockwise)),
        ),
    ]
}

/// The instructions that stop a motor: a goal speed of zero, with torque left on.
pub open spec fn stop_plan(id: u8) -> Seq<TransactionView> {
    seq![
        register_write(id, STS_ACCELERATION, seq![0u8, 0u8, 0u8, 0u8, 0u8, 0u8, 0u8]),
    ]
}

/// The instructions that move a servo: torque, its limit, then acceleration and goal position.
pub open spec fn move_plan(
    id: u8,
    position: u16,
    acceleration: u8,
    torque_limit: u16,
) -> Seq<TransactionView> {
    seq![
        register_write(id, STS_TORQUE_ENABLE, seq![1u8]),
        register_write(id, STS_TORQUE_LIMIT, le16(torque_limit)),
        register_write(
            id,
            STS_ACCELERATION,
            seq![acceleration] + le16(position) + seq![0u8, 0u8, 0u8, 0u8],
        ),
    ]
}

/// The instruction that reads the position of a servo.
pub open spec fn position_read(id: u8) -> TransactionView {
    register_read(id, STS_PRESENT_POSITION, 2)
}

/// The instructions that start a motor.
pub fn start_motor(id: u8, counter_clockwise: bool, speed: u16, acceleration: u8) -> (plan: Vec<
    Transaction,
>)
    ensures
        plan_view(plan@) == start_plan(id, counter_clockwise, speed, acceleration),
{
    proof {
        assert(speed | 0x8000 == if speed < 0x8000 {
            speed + 0x8000
        } else {
            speed as int
        }) by (bit_vector);
    }
    let signed_speed: u16 = if counter_clockwise {
        speed | 0x8000
    } else {
        speed
    };
    let (low, high) = split16(signed_speed);
    let on = [1u8];
    let command = [acceleration, 0, 0, 0, 0, low, high];
    let mut plan: Vec<Transaction> = Vec::new();
    plan.push(write_instruction(id, STS_MODE, on.as_slice()));
    plan.push(write_instruction(id, STS_TORQUE_ENABLE, on.as_slice()));
    plan.push(write_instruction(id, STS_ACCELERATION, command.as_slice()));
    proof {
        assert(on@ =~= seq![1u8]);
        assert(command@ =~= seq![acceleration, 0u8, 0u8, 0u8, 0u8] + le16(signed_speed));
        assert(plan_view(plan@) =~= start_plan(id, counter_clockwise, speed, acceleration));
    }
    plan
}

/// The instructions that stop a motor.
pub fn stop_motor(id: u8) -> (plan: Vec<Transaction>)
    ensures
        plan_view(plan@) == stop_plan(id),
{
    let command = [0u8, 0, 0, 0, 0, 0, 0];
    let mut plan: Vec<Transaction> = Vec::new();
    plan.push(write_instruction(id, STS_ACCELERATION, command.as_slice()));
    proof {
        assert(command@ =~= seq![0u8, 0u8, 0u8, 0u8, 0u8, 0u8, 0u8]);
        assert(plan_view(plan@) =~= stop_plan(id));
    }
    plan
}

/// The instructions that move a servo.
pub fn move_position(id: u8, position: u16, acceleration: u8, torque_limit: u16) -> (plan: Vec<
    Transaction,
>)
    ensures
        plan_view(plan@) == move_plan(id, position, acceleration, torque_limit),
{
    let on = [1u8];
    let (torque_low, torque_high) = split16(torque_limit);
    let limit = [torque_low, torque_high];
    let (low, high) = split16(position);
    let command = [acceleration, low, high, 0, 0, 0, 0];
    let mut plan: Vec<Transaction> = Vec::new();
    plan.push(write_instruction(id, STS_TORQUE_ENABLE, on.as_slice()));
    plan.push(write_instruction(id, STS_TORQUE_LIMIT, limit.as_slice()));
    plan.push(write_instruction(id, STS_ACCELERATION, command.as_slice()));
    proof {
        assert(on@ =~= seq![1u8]);
        assert(limit@ =~= le16(torque_limit));
        assert(command@ =~= seq![acceleration] + le16(position) + seq![0u8, 0u8, 0u8, 0u8]);
        assert(plan_view(plan@) =~= move_plan(id, position, acceleration, torque_limit));
    }
    plan
}

/// The instruction that reads the position of a servo.
pub fn read_position(id: u8) -> (transaction: Transaction)
    ensures
        transaction@ == position_read(id),
{
    read_register(id, STS_PRESENT_POSITION, 2)
}

/// The position that the two parameters of a reply stand for.
pub open spec fn position_of(parameters: Seq<u8>) -> i16 {
    signed_15(join16(parameters[0], parameters[1]))
}

/// The position that the two parameters of a reply stand for.
pub fn decode_position(parameters: &[u8]) -> (position: i16)
    requires
        parameters@.len() == 2,
    ensures
        position == position_of(parameters@),
{
    decode_signed_15(join_bytes(parameters[0], parameters[1]))
}

/// No operation on one servo has a packet that the MCU's buffer cannot hold.
pub proof fn plans_fit_the_packet_buffer(
    id: u8,
    flag: bool,
    first: u16,
    second: u16,
    acceleration: u8,
    index: int,
)
    ensures
        0 <= index < start_plan(id, flag, first, acceleration).len() ==> start_plan(
            id,
            flag,
            first,
            acceleration,
        )[index].parameters.len() + 6 <= MAX_PACKET_LEN,
        0 <= index < stop_plan(id).len() ==> stop_plan(id)[index].parameters.len() + 6
            <= MAX_PACKET_LEN,
        0 <= index < move_plan(id, first, acceleration, second).len() ==> move_plan(
            id,
            first,
            acceleration,
            second,
        )[index].parameters.len() + 6 <= MAX_PACKET_LEN,
        position_read(id).parameters.len() + 6 <= MAX_PACKET_LEN,
        ping(id).parameters.len() + 6 <= MAX_PACKET_LEN,
{
}

/// Whether the bus is read once more while it is drained.
pub open spec fn is_drained_further(reads: u8, quiet: bool) -> bool {
    !quiet && reads < MAX_DRAIN_READS
}

/// Tells whether the bus is read once more while it is drained, after `reads` reads of which the
/// last one found the bus quiet or not.
pub fn resynchronize_uart(reads: u8, quiet: bool) -> (again: bool)
    ensures
        again == is_drained_further(reads, quiet),
{
    !quiet && reads < MAX_DRAIN_READS
}

/// The addresses of single servos are those from 1 to 253.
pub proof fn single_servos_have_addresses_from_1_to_253(id: u8)
    ensures
        unicast(id) <==> id != 0 && id != 254 && id != 255,
{
}

/// A register with a sign is sign and magnitude: a magnitude stands for itself without the sign
/// bit, and for its negative with it.
pub proof fn signed_registers_are_sign_and_magnitude(magnitude: u16)
    requires
        magnitude <= 32767,
    ensures
        signed_15(magnitude) == magnitude,
        signed_15((magnitude + 32768) as u16) == -magnitude,
{
}

/// A position from 0 to 32767 that is written low byte first is read back as it is, and as its
/// negative where the highest bit of the second byte is set.
pub proof fn written_positions_are_read_back(position: u16)
    requires
        position <= 32767,
    ensures
        position_of(seq![(position % 256) as u8, (position / 256) as u8]) == position,
        position_of(seq![(position % 256) as u8, (position / 256 + 128) as u8]) == -position,
        ({
            let bytes = crate::wire::le16(position);
            position_of(bytes) == position
        }),
{
}

/// The word that sets the speed of a motor has the speed in its low 15 bits, and its highest bit
/// is set exactly where the motor turns counter-clockwise: the words of one speed in the two
/// directions differ by 32768. A word that has the highest bit already stays as it is.
pub proof fn directions_differ_in_the_highest_bit(speed: u16)
    ensures
        directed_speed(speed, false) == speed,
        speed <= 32767 ==> directed_speed(speed, true) == speed + 32768,
        speed > 32767 ==> directed_speed(speed, true) == speed,
{
}

/// A motor is started by its mode, its torque and then, from register 41 on, the acceleration,
/// four zeros and a word, low byte first: the speed, with 32768 added where the motor turns
/// counter-clockwise.
pub proof fn motors_are_started_by_three_writes(
    id: u8,
    counter_clockwise: bool,
    speed: u16,
    acceleration: u8,
)
    requires
        speed <= 32767,
    ensures
        ({
            let plan = start_plan(id, counter_clockwise, speed, acceleration);
            let last = plan[2].parameters;
            let turn = if counter_clockwise {
                32768int
            } else {
                0
            };
            &&& plan.len() == 3
            &&& forall|i: int|
                0 <= i < 3 ==> (#[trigger] plan[i]).id == id && plan[i].instruction == 3
                    && plan[i].reply_len == 0
            &&& plan[0].parameters == seq![33u8, 1u8]
            &&& plan[1].parameters == seq![40u8, 1u8]
            &&& last.len() == 8
            &&& last.take(6) == seq![41u8, acceleration, 0, 0, 0, 0]
            &&& last[6] + 256 * last[7] == speed + turn
        }),
{
    crate::wire::bytes_are_digits_to_the_base_256(
        directed_speed(speed, counter_clockwise),
        0,
        0,
        0,
        0,
        0,
    );
    let plan = start_plan(id, counter_clockwise, speed, acceleration);
    assert(plan[0].parameters =~= seq![33u8, 1u8]);
    assert(plan[1].parameters =~= seq![40u8, 1u8]);
    assert(plan[2].parameters.take(6) =~= seq![41u8, acceleration, 0, 0, 0, 0]);
}

/// A motor is stopped by one write of zeros from register 41 on; a servo is moved by its torque,
/// the torque limit and then, from register 41 on, the acceleration, the position and four zeros,
/// words with their low byte first.
pub proof fn servos_are_stopped_and_moved_by_these_writes(
    id: u8,
    position: u16,
    acceleration: u8,
    torque_limit: u16,
)
    ensures
        ({
            let stop = stop_plan(id);
            let plan = move_plan(id, position, acceleration, torque_limit);
            let limit = plan[1].parameters;
            let last = plan[2].parameters;
            &&& stop.len() == 1
            &&& stop[0].id == id && stop[0].instruction == 3 && stop[0].reply_len == 0
            &&& stop[0].parameters == seq![41u8, 0, 0, 0, 0, 0, 0, 0]
            &&& plan.len() == 3
            &&& forall|i: int|
                0 <= i < 3 ==> (#[trigger] plan[i]).id == id && plan[i].instruction == 3
                    && plan[i].reply_len == 0
            &&& plan[0].parameters == seq![40u8, 1u8]
            &&& limit.len() == 3 && limit[0] == 48 && limit[1] + 256 * limit[2] == torque_limit
            &&& last.len() == 8 && last[0] == 41 && last[1] == acceleration
            &&& last[2] + 256 * last[3] == position
            &&& last.skip(4) == seq![0u8, 0, 0, 0]
        }),
{
    crate::wire::bytes_are_digits_to_the_base_256(position, 0, 0, 0, 0, 0);
    crate::wire::bytes_are_digits_to_the_base_256(torque_limit, 0, 0, 0, 0, 0);
    let plan = move_plan(id, position, acceleration, torque_limit);
    assert(stop_plan(id)[0].parameters =~= seq![41u8, 0, 0, 0, 0, 0, 0, 0]);
    assert(plan[0].parameters =~= seq![40u8, 1u8]);
    assert(plan[2].parameters.skip(4) =~= seq![0u8, 0, 0, 0]);
}

/// A reply of the expected servo is taken with its parameters where its bytes add up to 255 modulo
/// 256 and its error byte is zero; otherwise it is refused for its sum or for its error. Up to 126
/// bytes of noise before it and any bytes after it make no difference.
pub proof fn replies_are_taken_by_their_sum_and_error(
    noise: Seq<u8>,
    id: u8,
    error: u8,
    parameters: Seq<u8>,
    last: u8,
    rest: Seq<u8>,
)
    requires
        noise.len() <= 126,
        is_noise(noise),
        parameters.len() <= 64,
    ensures
        ({
            let packet = seq![id, (parameters.len() + 2) as u8, error] + parameters + seq![last];
            read_reply(StatusReader::start(), id, noise + (seq![255u8, 255u8] + (packet + rest)))
                == Some(
                (
                    if total(packet) % 256 != 255 {
                        StatusStepView::Fault(StatusFault::InvalidChecksum)
                    } else if error != 0 {
                        StatusStepView::Fault(StatusFault::Reported { id, error })
                    } else {
                        StatusStepView::Complete(parameters)
                    },
                    noise.len() + 6 + parameters.len(),
                ),
            )
        }),
{
    let packet = seq![id, (parameters.len() + 2) as u8, error] + parameters + seq![last];
    crate::controller::status_packets_are_counted_and_summed(packet);
    replies_are_judged_by_their_bytes(noise, packet, rest);
    assert(packet.subrange(3, packet.len() - 1) =~= parameters);
}

/// A reply that names another servo, or a length other than from 2 to 66, is refused after its
/// fourth byte.
pub proof fn replies_of_others_are_refused(
    noise: Seq<u8>,
    expected_id: u8,
    id: u8,
    length: u8,
    rest: Seq<u8>,
)
    requires
        noise.len() <= 126,
        is_noise(noise),
    ensures
        ({
            let found = read_reply(
                StatusReader::start(),
                expected_id,
                noise + (seq![255u8, 255u8] + (seq![id, length] + rest)),
            );
            &&& id != expected_id ==> found == Some(
                (StatusStepView::Fault(StatusFault::WrongServo { id }), noise.len() + 4),
            )
            &&& id == expected_id && (length < 2 || length > 66) ==> found == Some(
                (StatusStepView::Fault(StatusFault::InvalidLength { length }), noise.len() + 4),
            )
        }),
{
    noise_is_skipped(0, 0, noise, expected_id, seq![id, length] + rest);
    assert((seq![id, length] + rest).take(2) =~= seq![id, length]);
}

proof fn headerless_bytes_are_given_up(seen: u8, previous: u8, id: u8, stream: Seq<u8>)
    requires
        seen < 128,
        stream.len() + seen >= 128,
        previous == 255 ==> stream[0] != 255,
        forall|i: int|
            0 <= i && i + 1 < 128 - seen ==> !(#[trigger] stream[i] == 255 && stream[i + 1] == 255),
    ensures
        read_reply(StatusReader::Header { seen, previous }, id, stream) == Some(
            (StatusStepView::Fault(StatusFault::NoHeader), (128 - seen) as nat),
        ),
    decreases 128 - seen,
{
    assert(stream.take(1) =~= seq![stream[0]]);
    if seen < 127 {
        let rest = stream.drop_first();
        assert(rest[0] == stream[1]);
        assert forall|i: int| 0 <= i && i + 1 < 127 - seen implies !(#[trigger] rest[i] == 255
            && rest[i + 1] == 255) by {
            assert(rest[i] == stream[i + 1] && rest[i + 1] == stream[i + 2]);
        }
        headerless_bytes_are_given_up((seen + 1) as u8, stream[0], id, rest);
        header_byte_is_read(seen, previous, stream[0], id, rest);
        assert(stream =~= seq![stream[0]] + rest);
    }
}

/// After 128 bytes of which no two neighbours are 255 the search for a reply is given up.
pub proof fn headers_are_searched_in_128_bytes(id: u8, stream: Seq<u8>)
    requires
        stream.len() >= 128,
        forall|i: int|
            0 <= i && i + 1 < 128 ==> !(#[trigger] stream[i] == 255 && stream[i + 1] == 255),
    ensures
        read_reply(StatusReader::start(), id, stream) == Some(
            (StatusStepView::Fault(StatusFault::NoHeader), 128nat),
        ),
{
    headerless_bytes_are_given_up(0, 0, id, stream);
}

/// The header of a reply is read byte by byte, its address and length together, and as many bytes
/// after them as the length says. Another number of bytes is a fault.
pub proof fn replies_are_read_in_whole_parts(reader: StatusReader, expected_id: u8, bytes: Seq<u8>)
    ensures
        reader is Header && bytes.len() != 1 || reader is Fixed && bytes.len() != 2 || (
        reader matches StatusReader::Body { length, .. } && bytes.len() != length) ==> reader.step(
            expected_id,
            bytes,
        ) == StatusStepView::Fault(StatusFault::CutShort),
{
}

/// What holds of the view of an instruction, a plan or a step holds of itself: it is seen field by
/// field.
pub proof fn instructions_are_seen_field_by_field(
    transaction: Transaction,
    plan: Seq<Transaction>,
    at: int,
    step: StatusStep,
)
    ensures
        transaction@.id == transaction.id,
        transaction@.instruction == transaction.instruction,
        transaction@.parameters == transaction.parameters@,
        transaction@.reply_len == transaction.reply_len,
        plan_view(plan).len() == plan.len(),
        0 <= at < plan.len() ==> plan_view(plan)[at] == plan[at]@,
        match step {
            StatusStep::Continue(reader) => step@ == StatusStepView::Continue(reader),
            StatusStep::Complete(parameters) => step@ == StatusStepView::Complete(parameters@),
            StatusStep::Fault(fault) => step@ == StatusStepView::Fault(fault),
        },
{
}

/// A servo's own error and a broken line are told apart from a reply that is wrong in itself.
pub proof fn faults_are_reported_by_their_kind(id: u8, byte: u8)
    ensures
        fault_failure(StatusFault::Reported { id, error: byte }) == ServoFailure::ReportedError,
        fault_failure(StatusFault::CutShort) == ServoFailure::Transport,
        fault_failure(StatusFault::NoHeader) == ServoFailure::InvalidReply,
        fault_failure(StatusFault::WrongServo { id }) == ServoFailure::InvalidReply,
        fault_failure(StatusFault::InvalidLength { length: byte }) == ServoFailure::InvalidReply,
        fault_failure(StatusFault::InvalidChecksum) == ServoFailure::InvalidReply,
{
}

/// Draining ends as soon as the bus is quiet, and after four reads at the latest.
pub proof fn draining_ends_after_four_reads(reads: u8)
    ensures
        !is_drained_further(reads, true),
        is_drained_further(reads, false) <==> reads < 4,
{
}

/// An instruction is for the servo that it names: it writes the bytes after the first register, or
/// reads as many registers as its reply has parameters, or neither.
pub proof fn instructions_have_their_parts(id: u8, address: u8, data: Seq<u8>, length: u8)
    ensures
        ({
            let write = register_write(id, address, data);
            let read = register_read(id, address, length);
            &&& write.id == id && write.instruction == 3 && write.reply_len == 0
            &&& write.parameters[0] == address && write.parameters.skip(1) == data
            &&& read.id == id && read.instruction == 2 && read.reply_len == length
            &&& read.parameters == seq![address, length]
            &&& ping(id).id == id && ping(id).instruction == 1 && ping(id).parameters.len() == 0
                && ping(id).reply_len == 0
        }),
{
    assert(register_write(id, address, data).parameters.skip(1) =~= data);
}

} // verus!
