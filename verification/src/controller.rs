//! STS packet handling and the ownership of the controller session.
//!
//! An STS instruction packet is `FF FF id length instruction parameters.. checksum`, where
//! `length` counts the instruction, the parameters and the checksum. A status packet has the
//! servo's error byte in place of the instruction. The checksum is the inverted sum of all bytes
//! after the header.

use vstd::prelude::*;
use vstd::slice::slice_subrange;

verus! {

/// Both bytes that start an STS packet.
pub const STS_HEADER: [u8; 2] = [0xff, 0xff];

/// The greatest length field of a status packet: the response buffer holds 64 parameters.
pub const MAX_STATUS_LENGTH: usize = 66;

#[derive(Clone, Copy, Debug, PartialEq, Eq, Structural)]
pub enum InstructionPacketError {
    OutputTooSmall,
    ParametersTooLong,
}

/// The sum of a byte string.
pub open spec fn byte_sum(bytes: Seq<u8>) -> nat
    decreases bytes.len(),
{
    if bytes.len() == 0 {
        0
    } else {
        byte_sum(bytes.drop_last()) + bytes.last() as nat
    }
}

/// The inverted low byte of the sum of a byte string.
pub open spec fn inverted_sum(bytes: Seq<u8>) -> u8 {
    (255 - byte_sum(bytes) % 256) as u8
}

/// What follows the header of an instruction packet, without the checksum.
pub open spec fn instruction_body(id: u8, instruction: u8, parameters: Seq<u8>) -> Seq<u8> {
    seq![id, (parameters.len() + 2) as u8, instruction] + parameters
}

/// A whole instruction packet.
pub open spec fn instruction_packet(id: u8, instruction: u8, parameters: Seq<u8>) -> Seq<u8> {
    STS_HEADER@ + instruction_body(id, instruction, parameters).push(
        inverted_sum(instruction_body(id, instruction, parameters)),
    )
}

/// The sum of two joined byte strings is the sum of their sums.
pub proof fn byte_sum_concat(left: Seq<u8>, right: Seq<u8>)
    ensures
        byte_sum(left + right) == byte_sum(left) + byte_sum(right),
    decreases right.len(),
{
    if right.len() == 0 {
        assert(left + right =~= left);
    } else {
        byte_sum_concat(left, right.drop_last());
        assert((left + right).drop_last() =~= left + right.drop_last());
    }
}

/// Encodes an STS instruction packet into `output` and returns its byte length.
pub fn encode_instruction_packet(
    output: &mut [u8],
    id: u8,
    instruction: u8,
    parameters: &[u8],
) -> (result: Result<usize, InstructionPacketError>)
    ensures
        final(output)@.len() == old(output)@.len(),
        result == Err::<usize, InstructionPacketError>(InstructionPacketError::ParametersTooLong)
            <==> parameters@.len() > 253,
        result == Err::<usize, InstructionPacketError>(InstructionPacketError::OutputTooSmall)
            <==> parameters@.len() <= 253 && old(output)@.len() < parameters@.len() + 6,
        result is Err ==> final(output)@ == old(output)@,
        result matches Ok(length) ==> {
            &&& length == parameters@.len() + 6
            &&& final(output)@ == instruction_packet(id, instruction, parameters@)
                + old(output)@.skip(length as int)
        },
{
    if parameters.len() > 253 {
        return Err(InstructionPacketError::ParametersTooLong);
    }
    let length: u8 = (parameters.len() + 2) as u8;
    let packet_len: usize = length as usize + 4;
    if output.len() < packet_len {
        return Err(InstructionPacketError::OutputTooSmall);
    }
    let ghost body = instruction_body(id, instruction, parameters@);

    output[0] = STS_HEADER[0];
    output[1] = STS_HEADER[1];
    output[2] = id;
    output[3] = length;
    output[4] = instruction;
    let mut index: usize = 0;
    while index < parameters.len()
        invariant
            index <= parameters@.len() <= 253,
            packet_len == parameters@.len() + 6,
            body == instruction_body(id, instruction, parameters@),
            output@.len() == old(output)@.len() >= packet_len,
            output@.take(5 + index) == STS_HEADER@ + body.take(3 + index),
            output@.skip(packet_len as int) == old(output)@.skip(packet_len as int),
        decreases parameters@.len() - index,
    {
        let ghost before = output@;
        output[5 + index] = parameters[index];
        proof {
            assert(output@.take(6 + index) =~= before.take(5 + index).push(parameters@[index as int]));
            assert(body.take(4 + index) =~= body.take(3 + index).push(parameters@[index as int]));
            assert(output@.take(6 + index) =~= STS_HEADER@ + body.take(4 + index));
            assert(output@.skip(packet_len as int) =~= before.skip(packet_len as int));
        }
        index += 1;
    }
    proof {
        assert(body.take(body.len() as int) =~= body);
        assert(output@.subrange(2, packet_len - 1) =~= output@.take(packet_len - 1).skip(2));
        assert((STS_HEADER@ + body).skip(2) =~= body);
    }
    let ghost filled = output@;
    let sum = checksum(slice_subrange(output, 2, packet_len - 1));
    output[packet_len - 1] = sum;
    proof {
        assert(output@.take(packet_len as int) =~= filled.take(packet_len - 1).push(sum));
        assert((STS_HEADER@ + body).push(sum) =~= STS_HEADER@ + body.push(sum));
        assert(output@.skip(packet_len as int) =~= filled.skip(packet_len as int));
        assert(output@ =~= output@.take(packet_len as int) + output@.skip(packet_len as int));
    }
    Ok(packet_len)
}

/// Returns the STS inverted checksum for all bytes after the two-byte header.
pub fn checksum(bytes: &[u8]) -> (sum: u8)
    ensures
        sum == inverted_sum(bytes@),
{
    let mut sum: u8 = 0;
    let mut index: usize = 0;
    while index < bytes.len()
        invariant
            index <= bytes@.len(),
            sum == byte_sum(bytes@.take(index as int)) % 256,
        decreases bytes@.len() - index,
    {
        proof {
            assert(bytes@.take(index + 1).drop_last() =~= bytes@.take(index as int));
        }
        sum = sum.wrapping_add(bytes[index]);
        index += 1;
    }
    proof {
        assert(bytes@.take(index as int) =~= bytes@);
        assert(!sum == 255 - sum) by (bit_vector);
    }
    !sum
}

#[derive(Clone, Copy, Debug, PartialEq, Eq, Structural)]
pub enum StatusPacketError {
    InvalidLength,
    UnexpectedId,
    InvalidChecksum,
}

#[derive(Debug, PartialEq, Eq)]
pub struct StatusPacket<'a> {
    pub error: u8,
    pub parameters: &'a [u8],
}

/// Whether the length field and the number of bytes of a status packet body agree and are in
/// range.
pub open spec fn status_length_ok(packet: Seq<u8>) -> bool {
    4 <= packet.len() && 2 <= packet[1] <= MAX_STATUS_LENGTH && packet.len() == packet[1] + 2
}

/// Whether a status packet body ends in the checksum of the bytes before it.
pub open spec fn status_checksum_ok(packet: Seq<u8>) -> bool {
    packet.last() == inverted_sum(packet.drop_last())
}

/// Validates a complete STS status packet body (without the `FF FF` header).
///
/// The packet consists of `id`, `length`, `error`, zero or more parameters, and a checksum. The
/// length is bounded at 66 because the STS response buffer holds at most 64 parameters.
pub fn decode_status_packet<'a>(packet: &'a [u8], expected_id: u8) -> (result: Result<
    StatusPacket<'a>,
    StatusPacketError,
>)
    ensures
        match result {
            Err(StatusPacketError::InvalidLength) => !status_length_ok(packet@),
            Err(StatusPacketError::UnexpectedId) => status_length_ok(packet@) && packet@[0]
                != expected_id,
            Err(StatusPacketError::InvalidChecksum) => status_length_ok(packet@) && packet@[0]
                == expected_id && !status_checksum_ok(packet@),
            Ok(status) => status_length_ok(packet@) && packet@[0] == expected_id
                && status_checksum_ok(packet@) && status.error == packet@[2]
                && status.parameters@ == packet@.subrange(3, packet@.len() - 1),
        },
{
    if packet.len() < 4 {
        return Err(StatusPacketError::InvalidLength);
    }
    let id = packet[0];
    let length: usize = packet[1] as usize;
    if length < 2 || length > MAX_STATUS_LENGTH || packet.len() != length + 2 {
        return Err(StatusPacketError::InvalidLength);
    }
    if id != expected_id {
        return Err(StatusPacketError::UnexpectedId);
    }
    let end: usize = packet.len() - 1;
    proof {
        assert(packet@.subrange(0, end as int) =~= packet@.drop_last());
    }
    if checksum(slice_subrange(packet, 0, end)) != packet[end] {
        return Err(StatusPacketError::InvalidChecksum);
    }
    Ok(StatusPacket { error: packet[2], parameters: slice_subrange(packet, 3, end) })
}

/// The body of the status packet that a servo sends.
pub open spec fn status_body(id: u8, error: u8, parameters: Seq<u8>) -> Seq<u8> {
    instruction_body(id, error, parameters).push(
        inverted_sum(instruction_body(id, error, parameters)),
    )
}

/// A status packet of at most 64 parameters is accepted from the servo that sent it, and its
/// fields are where the decoder looks for them.
pub proof fn sent_status_packets_are_accepted(id: u8, error: u8, parameters: Seq<u8>)
    requires
        parameters.len() <= 64,
    ensures
        ({
            let packet = status_body(id, error, parameters);
            &&& status_length_ok(packet)
            &&& status_checksum_ok(packet)
            &&& packet[0] == id
            &&& packet[2] == error
            &&& packet.subrange(3, packet.len() - 1) == parameters
        }),
{
    let packet = status_body(id, error, parameters);
    assert(packet.drop_last() =~= instruction_body(id, error, parameters));
    assert(packet.subrange(3, packet.len() - 1) =~= parameters);
}

/// An accepted status packet is exactly the one that its fields make: nothing in it is ignored.
pub proof fn accepted_status_packets_are_canonical(packet: Seq<u8>)
    requires
        status_length_ok(packet),
        status_checksum_ok(packet),
    ensures
        packet == status_body(packet[0], packet[2], packet.subrange(3, packet.len() - 1)),
{
    let parameters = packet.subrange(3, packet.len() - 1);
    assert(packet.drop_last() =~= instruction_body(packet[0], packet[2], parameters));
    assert(packet =~= packet.drop_last().push(packet.last()));
}

/// Changing one byte of a packet body other than its checksum makes the checksum wrong.
pub proof fn corrupted_bytes_break_the_checksum(packet: Seq<u8>, index: int, byte: u8)
    requires
        status_checksum_ok(packet),
        0 <= index < packet.len() - 1,
        byte != packet[index],
    ensures
        !status_checksum_ok(packet.update(index, byte)),
{
    let body = packet.drop_last();
    let changed = packet.update(index, byte).drop_last();
    let left = body.take(index);
    let right = body.skip(index + 1);
    assert(body =~= left + seq![packet[index]] + right);
    assert(changed =~= left + seq![byte] + right);
    byte_sum_concat(left + seq![packet[index]], right);
    byte_sum_concat(left, seq![packet[index]]);
    byte_sum_concat(left + seq![byte], right);
    byte_sum_concat(left, seq![byte]);
    assert(seq![byte].drop_last() =~= Seq::<u8>::empty());
    assert(seq![packet[index]].drop_last() =~= Seq::<u8>::empty());
    reveal_with_fuel(byte_sum, 2);
    assert(packet.update(index, byte).last() == packet.last());
}

/// The bytes of a packet body and its checksum always add up to 255 modulo 256.
pub proof fn checksums_complete_the_sum(body: Seq<u8>)
    ensures
        byte_sum(body.push(inverted_sum(body))) % 256 == 255,
{
    assert(body.push(inverted_sum(body)).drop_last() =~= body);
}

/// A monotonically increasing ownership marker for controller sessions.
///
/// The MCU completes several TCP handshakes at a time, but only the session holding the current
/// epoch may issue a command to the shared STS bus.
#[derive(Clone, Copy, Debug, PartialEq, Eq, Structural)]
pub struct ControllerEpoch(u64);

impl View for ControllerEpoch {
    type V = u64;

    closed spec fn view(&self) -> u64 {
        self.0
    }
}

/// The epoch that follows `epoch`; after the greatest one the numbers start over.
pub open spec fn next_epoch(epoch: u64) -> u64 {
    if epoch == u64::MAX {
        0
    } else {
        (epoch + 1) as u64
    }
}

impl ControllerEpoch {
    pub fn new() -> (epoch: Self)
        ensures
            epoch@ == 0,
    {
        ControllerEpoch(0)
    }

    pub fn claim(&mut self) -> (claimed: u64)
        ensures
            final(self)@ == next_epoch(old(self)@),
            claimed == final(self)@,
    {
        self.0 = self.0.wrapping_add(1);
        self.0
    }

    pub fn is_current(self, epoch: u64) -> (current: bool)
        ensures
            current == (self@ == epoch),
    {
        self.0 == epoch
    }
}

/// Serializes controller ownership changes until the retiring TCP transport is listening again.
/// It permits exactly one active controller generation.
#[derive(Clone, Copy, Debug, PartialEq, Eq, Structural)]
pub struct ControllerAdmission {
    epoch: ControllerEpoch,
    active: bool,
    listener_required: bool,
}

#[derive(Clone, Copy, Debug, PartialEq, Eq, Structural)]
pub enum ControllerAdmissionResult {
    Granted { generation: u64, replaces_active: bool },
    WaitForListener,
}

/// Who owns the controller: the newest generation, whether its session is still active, and
/// whether a predecessor has yet to return its transport to listening.
pub struct AdmissionState {
    pub generation: u64,
    pub active: bool,
    pub listener_required: bool,
}

impl View for ControllerAdmission {
    type V = AdmissionState;

    closed spec fn view(&self) -> AdmissionState {
        AdmissionState {
            generation: self.epoch@,
            active: self.active,
            listener_required: self.listener_required,
        }
    }
}

/// The state before the first session.
pub open spec fn no_controller() -> AdmissionState {
    AdmissionState { generation: 0, active: false, listener_required: false }
}

/// What a claim does and answers.
pub open spec fn claimed(state: AdmissionState) -> (AdmissionState, ControllerAdmissionResult) {
    if state.listener_required {
        (state, ControllerAdmissionResult::WaitForListener)
    } else {
        (
            AdmissionState {
                generation: next_epoch(state.generation),
                active: true,
                listener_required: state.active,
            },
            ControllerAdmissionResult::Granted {
                generation: next_epoch(state.generation),
                replaces_active: state.active,
            },
        )
    }
}

/// The state after the session of `generation` has disconnected.
pub open spec fn released(state: AdmissionState, generation: u64) -> AdmissionState {
    if state.generation == generation {
        AdmissionState { active: false, ..state }
    } else {
        state
    }
}

/// The state after a transport has returned to listening.
pub open spec fn listening(state: AdmissionState) -> AdmissionState {
    AdmissionState { listener_required: false, ..state }
}

impl ControllerAdmission {
    pub fn new() -> (admission: Self)
        ensures
            admission@ == no_controller(),
    {
        ControllerAdmission {
            epoch: ControllerEpoch::new(),
            active: false,
            listener_required: false,
        }
    }

    /// Grants the next session only when no predecessor is still returning its TCP transport to
    /// listening mode.
    pub fn try_claim(&mut self) -> (result: ControllerAdmissionResult)
        ensures
            (final(self)@, result) == claimed(old(self)@),
    {
        if self.listener_required {
            return ControllerAdmissionResult::WaitForListener;
        }
        let replaces_active = self.active;
        let generation = self.epoch.claim();
        self.active = true;
        self.listener_required = replaces_active;
        ControllerAdmissionResult::Granted { generation, replaces_active }
    }

    /// Marks the current session as no longer active after a normal disconnect.
    pub fn release(&mut self, generation: u64)
        ensures
            final(self)@ == released(old(self)@, generation),
    {
        if self.epoch.is_current(generation) {
            self.active = false;
        }
    }

    /// Returns true when this listener transition unblocks a queued takeover.
    pub fn listener_ready(&mut self) -> (unblocked: bool)
        ensures
            final(self)@ == listening(old(self)@),
            unblocked == old(self)@.listener_required,
    {
        let required = self.listener_required;
        self.listener_required = false;
        required
    }

    pub fn is_current(self, generation: u64) -> (current: bool)
        ensures
            current == (self@.generation == generation),
    {
        self.epoch.is_current(generation)
    }
}

/// The newest session wins: a granted claim makes its own generation current and the one before
/// it stale, and it takes over exactly when the previous session was still active.
pub proof fn newest_session_wins(state: AdmissionState)
    requires
        !state.listener_required,
    ensures
        claimed(state).0.generation != state.generation,
        claimed(state).0.active,
        claimed(state).1 == (ControllerAdmissionResult::Granted {
            generation: claimed(state).0.generation,
            replaces_active: state.active,
        }),
        state.generation < u64::MAX ==> claimed(state).0.generation > state.generation,
{
}

/// Takeovers are serialized: after one session has replaced an active one, every further claim
/// waits and changes nothing until a transport listens again, and is granted after that.
pub proof fn takeovers_wait_for_a_listener(state: AdmissionState)
    requires
        state.active,
        !state.listener_required,
    ensures
        ({
            let taken = claimed(state).0;
            &&& claimed(taken) == (taken, ControllerAdmissionResult::WaitForListener)
            &&& listening(taken).generation == taken.generation
            &&& claimed(listening(taken)).1 is Granted
        }),
{
}

/// A session that disconnects normally blocks nobody: the next claim is granted and replaces no
/// active session. The end of a session that was replaced changes nothing.
pub proof fn disconnected_sessions_block_nobody(state: AdmissionState, stale: u64)
    requires
        !state.listener_required,
        stale != state.generation,
    ensures
        claimed(released(state, state.generation)).1 == (ControllerAdmissionResult::Granted {
            generation: next_epoch(state.generation),
            replaces_active: false,
        }),
        !claimed(released(state, state.generation)).0.listener_required,
        released(state, stale) == state,
{
}

/// What a byte string adds up to.
pub open spec fn total(bytes: Seq<u8>) -> int {
    bytes.fold_left(0int, |sum: int, byte: u8| sum + byte)
}

/// Whether `packet` carries `content` on the bus: two bytes 255 come before it, one byte comes
/// after it, and what comes after the first two adds up to 255 modulo 256.
pub open spec fn carries(packet: Seq<u8>, content: Seq<u8>) -> bool {
    &&& packet.len() == content.len() + 3
    &&& packet[0] == 255 && packet[1] == 255
    &&& packet.subrange(2, packet.len() - 1) == content
    &&& total(packet.skip(2)) % 256 == 255
}

pub(crate) proof fn sums_are_totals(bytes: Seq<u8>)
    ensures
        byte_sum(bytes) == total(bytes),
    decreases bytes.len(),
{
    if bytes.len() > 0 {
        sums_are_totals(bytes.drop_last());
    }
}

/// The checksum of a byte string completes its total to 255 modulo 256.
pub proof fn checksums_complete_the_total(bytes: Seq<u8>)
    ensures
        (total(bytes) + inverted_sum(bytes)) % 256 == 255,
        total(bytes.push(inverted_sum(bytes))) % 256 == 255,
{
    sums_are_totals(bytes);
    assert(bytes.push(inverted_sum(bytes)).drop_last() =~= bytes);
}

/// An instruction packet carries the servo's address, the number of parameters and two, the
/// instruction and the parameters, in this order.
pub proof fn instructions_are_carried_by_their_packets(
    id: u8,
    instruction: u8,
    parameters: Seq<u8>,
)
    requires
        parameters.len() <= 253,
    ensures
        carries(
            instruction_packet(id, instruction, parameters),
            seq![id, (parameters.len() + 2) as u8, instruction] + parameters,
        ),
{
    let packet = instruction_packet(id, instruction, parameters);
    let content = seq![id, (parameters.len() + 2) as u8, instruction] + parameters;
    checksums_complete_the_total(content);
    assert(STS_HEADER@.len() == 2);
    assert(packet.subrange(2, packet.len() - 1) =~= content);
    assert(packet.skip(2) =~= content.push(inverted_sum(content)));
}

/// The body of a status packet is accepted exactly if its second byte counts the bytes after it,
/// of which there are 2 to 66, and all its bytes add up to 255 modulo 256.
pub proof fn status_packets_are_counted_and_summed(packet: Seq<u8>)
    ensures
        status_length_ok(packet) <==> packet.len() >= 4 && packet[1] == packet.len() - 2
            && packet.len() <= 68,
        packet.len() > 0 ==> (status_checksum_ok(packet) <==> total(packet) % 256 == 255),
{
    if packet.len() > 0 {
        sums_are_totals(packet);
        sums_are_totals(packet.drop_last());
    }
}

/// A claim that is granted takes the next generation, and one that is not changes nothing. The end
/// of the current session changes only that it is active, and a listener only that it is awaited.
pub proof fn ownership_changes_one_thing_at_a_time(state: AdmissionState, generation: u64)
    ensures
        claimed(state).1 is WaitForListener <==> state.listener_required,
        state.listener_required ==> claimed(state).0 == state,
        !state.listener_required ==> (claimed(state).0.generation - state.generation - 1) % (u64::MAX
            + 1) == 0,
        ({
            let after = released(state, generation);
            &&& after.generation == state.generation
            &&& after.listener_required == state.listener_required
            &&& after.active <==> state.active && state.generation != generation
        }),
        ({
            let after = listening(state);
            &&& after.generation == state.generation
            &&& after.active == state.active
            &&& !after.listener_required
        }),
        ({
            let first = no_controller();
            !first.active && !first.listener_required
        }),
{
}

/// A claim that is granted leaves a controller, whose generation is told, and lets the next one
/// wait exactly where another session is still to be closed.
pub proof fn granted_claims_leave_a_controller(state: AdmissionState)
    requires
        !state.listener_required,
    ensures
        claimed(state).1 matches ControllerAdmissionResult::Granted {
            generation,
            replaces_active,
        } && {
            &&& claimed(state).0.active
            &&& claimed(state).0.generation == generation
            &&& replaces_active == state.active
            &&& claimed(state).0.listener_required == replaces_active
        },
{
}

} // verus!
