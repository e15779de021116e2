//! The receiving side of a bulk transfer over a serial line: packets of 128
//! bytes, each acknowledged, up to the end of the transmission.

use vstd::prelude::*;
use vstd::string::StringSliceAdditionalSpecFns;
use crate::print::{decimal_text, put_count, put_printable};

verus! {

/// Start of a packet.
pub const SOH: u8 = 0x01;

/// End of the transmission.
pub const EOT: u8 = 0x04;

/// Acknowledge.
pub const ACK: u8 = 0x06;

/// Not acknowledge: asks the sender to start.
pub const NAK: u8 = 0x15;

/// Cancel.
pub const CAN: u8 = 0x18;

/// Number of payload bytes in a packet.
pub const PAYLOAD_SIZE: usize = 128;

/// Number of bytes in a packet: the start byte, two bytes that number the
/// packet, the payload and the check sum.
pub const PACKET_SIZE: usize = 132;

/// What the receiver waits for.
#[derive(Clone, Copy, Debug, PartialEq, Eq, Structural)]
pub enum Phase {
    /// The byte that starts a packet or ends the transmission.
    AwaitingPacket,
    /// The number of the packet.
    AwaitingId,
    /// The number of the packet once more, complemented.
    AwaitingIdComplement,
    /// A payload byte, after `received` of them with the sum `check_sum`.
    AwaitingPayload { received: u8, check_sum: u8 },
    /// The check sum of a payload whose bytes have the sum `check_sum`.
    AwaitingCheckSum { check_sum: u8 },
    /// Nothing: the transmission has ended.
    Finished,
    /// Nothing: `byte` came where a packet should have started.
    Aborted { byte: u8 },
}

/// The receiver as a mathematical value.
pub struct ReceiverView {
    /// What the receiver waits for.
    pub phase: Phase,
    /// The payload bytes of the packet that was received last, as far as the
    /// packet that is being received has not replaced them.
    pub buffer: Seq<u8>,
    /// Number of packets received.
    pub blocks: nat,
    /// Number of packets received whose check sum matched.
    pub check_sum_ok: nat,
}

/// The sum of `bytes`, wrapping at 8 bits.
pub open spec fn wrapping_sum(bytes: Seq<u8>) -> u8
    decreases bytes.len(),
{
    if bytes.len() == 0 {
        0
    } else {
        ((wrapping_sum(bytes.drop_last()) + bytes.last()) % 256) as u8
    }
}

impl ReceiverView {
    /// A receiver before the first byte.
    pub open spec fn initial() -> ReceiverView {
        ReceiverView {
            phase: Phase::AwaitingPacket,
            buffer: Seq::new(PAYLOAD_SIZE as nat, |at: int| 0u8),
            blocks: 0,
            check_sum_ok: 0,
        }
    }

    /// Whether the transfer is over.
    pub open spec fn is_terminal(self) -> bool {
        self.phase is Finished || self.phase is Aborted
    }

    /// How the transfer stands.
    pub open spec fn outcome(self) -> Outcome {
        match self.phase {
            Phase::Finished => Outcome::Completed,
            Phase::Aborted { byte } => Outcome::Aborted { byte },
            _ => Outcome::Incomplete,
        }
    }

    /// The receiver after `byte` has arrived.
    pub open spec fn stepped(self, byte: u8) -> ReceiverView {
        match self.phase {
            Phase::AwaitingPacket => if byte == EOT {
                ReceiverView { phase: Phase::Finished, ..self }
            } else if byte == SOH {
                ReceiverView { phase: Phase::AwaitingId, ..self }
            } else {
                ReceiverView { phase: Phase::Aborted { byte }, ..self }
            },
            Phase::AwaitingId => ReceiverView { phase: Phase::AwaitingIdComplement, ..self },
            Phase::AwaitingIdComplement => ReceiverView {
                phase: Phase::AwaitingPayload { received: 0, check_sum: 0 },
                ..self
            },
            Phase::AwaitingPayload { received, check_sum } => {
                let sum = ((check_sum + byte) % 256) as u8;
                ReceiverView {
                    phase: if received + 1 < PAYLOAD_SIZE {
                        Phase::AwaitingPayload { received: (received + 1) as u8, check_sum: sum }
                    } else {
                        Phase::AwaitingCheckSum { check_sum: sum }
                    },
                    buffer: self.buffer.update(received as int, byte),
                    ..self
                }
            },
            Phase::AwaitingCheckSum { check_sum } => ReceiverView {
                phase: Phase::AwaitingPacket,
                blocks: self.blocks + 1,
                check_sum_ok: if check_sum == byte {
                    self.check_sum_ok + 1
                } else {
                    self.check_sum_ok
                },
                ..self
            },
            Phase::Finished => self,
            Phase::Aborted { byte: _ } => self,
        }
    }

    /// The receiver after the bytes of `input` have arrived, one after the
    /// other.
    pub open spec fn stepped_all(self, input: Seq<u8>) -> ReceiverView
        decreases input.len(),
    {
        if input.len() == 0 {
            self
        } else {
            self.stepped(input[0]).stepped_all(input.drop_first())
        }
    }

    /// The bytes that the receiver sends while the bytes of `input` arrive.
    pub open spec fn replied_all(self, input: Seq<u8>) -> Seq<u8>
        decreases input.len(),
    {
        if input.len() == 0 {
            Seq::empty()
        } else {
            (match self.reply(input[0]) {
                Some(reply) => seq![reply],
                None => Seq::empty(),
            }) + self.stepped(input[0]).replied_all(input.drop_first())
        }
    }

    /// The transfer that the receiver has made so far.
    pub open spec fn transfer(self) -> TransferView {
        TransferView {
            outcome: self.outcome(),
            blocks: self.blocks,
            check_sum_ok: self.check_sum_ok,
            buffer: self.buffer,
        }
    }

    /// The byte that the receiver sends when `byte` has arrived, if any: a
    /// packet is acknowledged whether or not its check sum matched, the end
    /// of the transmission is acknowledged, and any other byte in place of a
    /// packet's start is answered with a cancel.
    pub open spec fn reply(self, byte: u8) -> Option<u8> {
        match self.phase {
            Phase::AwaitingPacket => if byte == EOT {
                Some(ACK)
            } else if byte == SOH {
                None
            } else {
                Some(CAN)
            },
            Phase::AwaitingCheckSum { check_sum: _ } => Some(ACK),
            _ => None,
        }
    }
}

/// The receiving side of a transfer.
pub struct Receiver {
    phase: Phase,
    buffer: [u8; 128],
    blocks: u64,
    check_sum_ok: u64,
}

impl Receiver {
    /// The payload position that the receiver waits for lies in the packet,
    /// and no more check sums matched than packets were received.
    #[verifier::type_invariant]
    pub closed spec fn wf(&self) -> bool {
        &&& self.check_sum_ok <= self.blocks
        &&& match self.phase {
            Phase::AwaitingPayload { received, check_sum: _ } => received < PAYLOAD_SIZE,
            _ => true,
        }
    }

    /// The receiver as a mathematical value.
    pub closed spec fn view(&self) -> ReceiverView {
        ReceiverView {
            phase: self.phase,
            buffer: self.buffer@,
            blocks: self.blocks as nat,
            check_sum_ok: self.check_sum_ok as nat,
        }
    }

    /// A receiver before the first byte, and the byte to send, after a
    /// pause, to ask the sender to start.
    pub fn start() -> (started: (Receiver, u8))
        ensures
            started.0@ == ReceiverView::initial(),
            started.1 == NAK,
    {
        let receiver = Receiver {
            phase: Phase::AwaitingPacket,
            buffer: [0;128],
            blocks: 0,
            check_sum_ok: 0,
        };
        assert(receiver@.buffer =~= ReceiverView::initial().buffer);
        (receiver, NAK)
    }

    /// What the receiver waits for.
    pub fn phase(&self) -> (phase: Phase)
        ensures
            phase == self@.phase,
    {
        self.phase
    }

    /// How the transfer stands.
    pub fn outcome(&self) -> (outcome: Outcome)
        ensures
            outcome == self@.outcome(),
    {
        match self.phase {
            Phase::Finished => Outcome::Completed,
            Phase::Aborted { byte } => Outcome::Aborted { byte },
            _ => Outcome::Incomplete,
        }
    }

    /// Whether the transfer is over.
    pub fn is_terminal(&self) -> (terminal: bool)
        ensures
            terminal == self@.is_terminal(),
    {
        match self.phase {
            Phase::Finished => true,
            Phase::Aborted { byte: _ } => true,
            _ => false,
        }
    }

    /// Number of packets received.
    pub fn blocks(&self) -> (blocks: u64)
        ensures
            blocks == self@.blocks,
    {
        self.blocks
    }

    /// Number of packets received whose check sum matched.
    pub fn check_sum_ok(&self) -> (count: u64)
        ensures
            count == self@.check_sum_ok,
            count <= self@.blocks,
    {
        proof {
            use_type_invariant(self);
        }
        self.check_sum_ok
    }

    /// The payload bytes of the packet that was received last.
    pub fn buffer(&self) -> (buffer: &[u8; 128])
        ensures
            buffer@ == self@.buffer,
    {
        &self.buffer
    }

    /// Takes the next byte from the sender and says which byte to send in
    /// reply, if any.
    pub fn step(&mut self, byte: u8) -> (reply: Option<u8>)
        requires
            old(self)@.blocks < u64::MAX,
        ensures
            final(self)@ == old(self)@.stepped(byte),
            reply == old(self)@.reply(byte),
    {
        proof {
            use_type_invariant(&*self);
        }
        match self.phase {
            Phase::AwaitingPacket => {
                if byte == EOT {
                    self.phase = Phase::Finished;
                    Some(ACK)
                } else if byte == SOH {
                    self.phase = Phase::AwaitingId;
                    None
                } else {
                    self.phase = Phase::Aborted { byte };
                    Some(CAN)
                }
            },
            Phase::AwaitingId => {
                self.phase = Phase::AwaitingIdComplement;
                None
            },
            Phase::AwaitingIdComplement => {
                self.phase = Phase::AwaitingPayload { received: 0, check_sum: 0 };
                None
            },
            Phase::AwaitingPayload { received, check_sum } => {
                self.buffer[received as usize] = byte;
                let sum = check_sum.wrapping_add(byte);
                if received + 1 < 128 {
                    self.phase = Phase::AwaitingPayload { received: received + 1, check_sum: sum };
                } else {
                    self.phase = Phase::AwaitingCheckSum { check_sum: sum };
                }
                None
            },
            Phase::AwaitingCheckSum { check_sum } => {
                self.blocks = self.blocks + 1;
                if check_sum == byte {
                    self.check_sum_ok = self.check_sum_ok + 1;
                }
                self.phase = Phase::AwaitingPacket;
                Some(ACK)
            },
            Phase::Finished => None,
            Phase::Aborted { byte: _ } => None,
        }
    }
}

/// How a transfer ended.
#[derive(Clone, Copy, Debug, PartialEq, Eq, Structural)]
pub enum Outcome {
    /// The sender ended the transmission.
    Completed,
    /// `byte` came where a packet should have started.
    Aborted { byte: u8 },
    /// The input ended before the transmission did.
    Incomplete,
}

/// A transfer as a mathematical value.
pub struct TransferView {
    /// How the transfer ended.
    pub outcome: Outcome,
    /// Number of packets received.
    pub blocks: nat,
    /// Number of packets received whose check sum matched.
    pub check_sum_ok: nat,
    /// The payload of the last packet, as far as the bytes of a packet that
    /// did not arrive in full have not replaced it.
    pub buffer: Seq<u8>,
}

/// The payload of a packet.
pub open spec fn payload_of(packet: Seq<u8>) -> Seq<u8> {
    packet.subrange(3, 3 + PAYLOAD_SIZE)
}

/// Whether the last byte of a packet is the wrapping sum of its payload.
pub open spec fn check_sum_matches(packet: Seq<u8>) -> bool {
    wrapping_sum(payload_of(packet)) == packet[PACKET_SIZE - 1]
}

/// The payload bytes of a packet of which only `part` has arrived.
pub open spec fn partial_payload(part: Seq<u8>) -> Seq<u8> {
    if part.len() > 3 {
        part.skip(3)
    } else {
        Seq::empty()
    }
}

/// The transfer that `input` makes of a receiver that waits for a packet,
/// has counted `blocks` packets, `check_sum_ok` of them with a matching check
/// sum, and holds `buffer`.
///
/// The packets lie one behind the other: the numbers in a packet are not
/// looked at, and a packet whose check sum does not match is counted and
/// passed over like any other.
pub open spec fn transfer_from(input: Seq<u8>, blocks: nat, check_sum_ok: nat, buffer: Seq<u8>)
    -> TransferView
    decreases input.len(),
{
    if input.len() == 0 {
        TransferView { outcome: Outcome::Incomplete, blocks, check_sum_ok, buffer }
    } else if input[0] == EOT {
        TransferView { outcome: Outcome::Completed, blocks, check_sum_ok, buffer }
    } else if input[0] != SOH {
        TransferView { outcome: Outcome::Aborted { byte: input[0] }, blocks, check_sum_ok, buffer }
    } else if input.len() < PACKET_SIZE {
        TransferView {
            outcome: Outcome::Incomplete,
            blocks,
            check_sum_ok,
            buffer: partial_payload(input) + buffer.skip(partial_payload(input).len() as int),
        }
    } else {
        transfer_from(
            input.skip(PACKET_SIZE as int),
            blocks + 1,
            if check_sum_matches(input) {
                check_sum_ok + 1
            } else {
                check_sum_ok
            },
            payload_of(input),
        )
    }
}

/// The transfer that `input` makes of a receiver that has just started.
pub open spec fn transfer(input: Seq<u8>) -> TransferView {
    transfer_from(input, 0, 0, ReceiverView::initial().buffer)
}

/// One acknowledgement for each of `blocks` packets.
pub open spec fn acknowledgements(blocks: nat) -> Seq<u8> {
    Seq::new(blocks, |at: int| ACK)
}

/// The byte that the receiver sends when a transfer is over: an
/// acknowledgement of the end, or a cancel.
pub open spec fn closing(outcome: Outcome) -> Seq<u8> {
    match outcome {
        Outcome::Completed => seq![ACK],
        Outcome::Aborted { byte: _ } => seq![CAN],
        Outcome::Incomplete => Seq::empty(),
    }
}

/// The bytes that the receiver sends in the course of a transfer: the
/// request to start, an acknowledgement for each packet, and an
/// acknowledgement of the end or a cancel.
pub open spec fn replies(transfer: TransferView) -> Seq<u8> {
    seq![NAK] + acknowledgements(transfer.blocks) + closing(transfer.outcome)
}

/// What is printed when a transfer is over: the counts of a transfer that
/// the sender ended, or the byte that came in place of a packet's start.
/// Nothing is printed of a transfer that is not over.
pub open spec fn report_text(outcome: Outcome, blocks: nat, check_sum_ok: nat) -> Seq<u8> {
    match outcome {
        Outcome::Completed => "Receive successful.\r\n".spec_bytes()
            + "Received blocks: ".spec_bytes() + decimal_text(blocks as int) + "\r\n".spec_bytes()
            + "Successful checksums: ".spec_bytes() + decimal_text(check_sum_ok as int)
            + "\r\n".spec_bytes(),
        Outcome::Aborted { byte } => "Error: Packet did not start with a SOH.\r\n".spec_bytes()
            + "Instead it was: ".spec_bytes() + decimal_text(byte as int) + "\r\n".spec_bytes(),
        Outcome::Incomplete => Seq::empty(),
    }
}

/// Prints what is printed when a transfer is over.
pub fn put_report(outcome: Outcome, blocks: u64, check_sum_ok: u64, out: &mut Vec<u8>)
    ensures
        final(out)@ == old(out)@ + report_text(outcome, blocks as nat, check_sum_ok as nat),
{
    match outcome {
        Outcome::Completed => {
            put_printable("Receive successful.\r\n", out);
            put_printable("Received blocks: ", out);
            put_count(blocks, out);
            put_printable("\r\n", out);
            put_printable("Successful checksums: ", out);
            put_count(check_sum_ok, out);
            put_printable("\r\n", out);
        },
        Outcome::Aborted { byte } => {
            put_printable("Error: Packet did not start with a SOH.\r\n", out);
            put_printable("Instead it was: ", out);
            put_count(byte as u64, out);
            put_printable("\r\n", out);
        },
        Outcome::Incomplete => {},
    }
}

/// What a receiver has made of a run of input.
pub struct Reception {
    /// How the transfer ended.
    pub outcome: Outcome,
    /// Number of packets received.
    pub blocks: u64,
    /// Number of packets received whose check sum matched.
    pub check_sum_ok: u64,
    /// The payload of the last packet.
    pub buffer: [u8; 128],
    /// The bytes that the receiver sent.
    pub sent: Vec<u8>,
}

impl Reception {
    /// The transfer that the reception records.
    pub open spec fn view(&self) -> TransferView {
        TransferView {
            outcome: self.outcome,
            blocks: self.blocks as nat,
            check_sum_ok: self.check_sum_ok as nat,
            buffer: self.buffer@,
        }
    }
}

/// Whether a receiver in `phase` that holds `buffer` is where the bytes of
/// `input` from `base`, the start of a packet, up to `index` take a receiver
/// that held `start` at `base`.
spec fn tracks(phase: Phase, buffer: Seq<u8>, input: Seq<u8>, base: int, index: int, start: Seq<u8>)
    -> bool {
    let offset = index - base;
    &&& 0 <= offset
    &&& offset > 0 ==> input[base] == SOH
    &&& offset < 3 ==> buffer == start
    &&& if offset == 0 {
        phase == Phase::AwaitingPacket
    } else if offset == 1 {
        phase == Phase::AwaitingId
    } else if offset == 2 {
        phase == Phase::AwaitingIdComplement
    } else if offset < 3 + PAYLOAD_SIZE {
        &&& phase == (Phase::AwaitingPayload {
            received: (offset - 3) as u8,
            check_sum: wrapping_sum(input.subrange(base + 3, index)),
        })
        &&& buffer == input.subrange(base + 3, index) + start.skip(offset - 3)
    } else {
        &&& offset == PACKET_SIZE - 1
        &&& phase == (Phase::AwaitingCheckSum {
            check_sum: wrapping_sum(input.subrange(base + 3, index)),
        })
        &&& buffer == input.subrange(base + 3, index)
    }
}

/// A receiver whose transfer is over takes no more bytes and sends none.
proof fn lemma_terminal_absorbs(receiver: ReceiverView, input: Seq<u8>)
    requires
        receiver.is_terminal(),
    ensures
        receiver.stepped_all(input) == receiver,
        receiver.replied_all(input) == Seq::<u8>::empty(),
    decreases input.len(),
{
    if input.len() > 0 {
        lemma_terminal_absorbs(receiver, input.drop_first());
    }
}

/// A receiver that has taken the bytes `seen` of a packet, and held `start`
/// when the packet began, makes of the bytes `rest` what the transfer of
/// `seen` and `rest` together is, and sends what that transfer sends.
proof fn lemma_steps_in_packet(
    receiver: ReceiverView,
    seen: Seq<u8>,
    start: Seq<u8>,
    rest: Seq<u8>,
)
    requires
        seen.len() < PACKET_SIZE,
        start.len() == PAYLOAD_SIZE,
        receiver.buffer.len() == PAYLOAD_SIZE,
        tracks(receiver.phase, receiver.buffer, seen, 0, seen.len() as int, start),
    ensures
        receiver.stepped_all(rest).transfer() == transfer_from(
            seen + rest,
            receiver.blocks,
            receiver.check_sum_ok,
            start,
        ),
        acknowledgements(receiver.blocks) + receiver.replied_all(rest) == acknowledgements(
            receiver.stepped_all(rest).blocks,
        ) + closing(receiver.stepped_all(rest).outcome()),
    decreases rest.len(),
{
    let whole = seen + rest;
    let offset = seen.len() as int;
    if rest.len() == 0 {
        if offset > 0 {
            assert(receiver.buffer =~= partial_payload(seen) + start.skip(
                partial_payload(seen).len() as int,
            ));
        }
    } else {
        let byte = rest[0];
        let next = receiver.stepped(byte);
        let more = seen.push(byte);
        assert(more + rest.drop_first() =~= whole);
        if next.is_terminal() {
            lemma_terminal_absorbs(next, rest.drop_first());
        } else if offset == PACKET_SIZE - 1 {
            assert(payload_of(whole) =~= seen.subrange(3, offset));
            assert(whole.skip(PACKET_SIZE as int) =~= Seq::<u8>::empty() + rest.drop_first());
            lemma_steps_in_packet(next, Seq::empty(), next.buffer, rest.drop_first());
        } else {
            if offset >= 3 {
                assert(more.subrange(3, offset + 1).drop_last() =~= seen.subrange(3, offset));
                assert(next.buffer =~= more.subrange(3, offset + 1) + start.skip(offset + 1 - 3));
            }
            if offset == 2 {
                assert(start.skip(0) =~= start);
            }
            lemma_steps_in_packet(next, more, start, rest.drop_first());
        }
    }
}

/// Taking the bytes of `input` one by one makes the transfer that `input`
/// is when it is read packet by packet, and sends what that transfer sends.
pub proof fn lemma_steps_make_transfer(input: Seq<u8>)
    ensures
        ReceiverView::initial().stepped_all(input).transfer() == transfer(input),
        seq![NAK] + ReceiverView::initial().replied_all(input) == replies(transfer(input)),
{
    let receiver = ReceiverView::initial();
    lemma_steps_in_packet(receiver, Seq::empty(), receiver.buffer, input);
}

/// Runs a receiver over `input`, the bytes that the sender sends, and
/// reports the transfer and the bytes sent in reply.
pub fn receive_file(input: &[u8]) -> (reception: Reception)
    ensures
        reception@ == transfer(input@),
        reception.sent@ == replies(transfer(input@)),
{
    let (mut receiver, request) = Receiver::start();
    let mut sent: Vec<u8> = Vec::new();
    sent.push(request);
    let mut index: usize = 0;
    let ghost mut base: int = 0;
    let ghost mut start: Seq<u8> = receiver@.buffer;
    assert(input@.skip(0) =~= input@);
    while index < input.len() && !receiver.is_terminal()
        invariant
            0 <= base <= index <= input@.len(),
            receiver@.blocks * PACKET_SIZE == base,
            start.len() == PAYLOAD_SIZE,
            receiver@.buffer.len() == PAYLOAD_SIZE,
            transfer(input@) == transfer_from(
                input@.skip(base),
                receiver@.blocks,
                receiver@.check_sum_ok,
                start,
            ),
            !receiver@.is_terminal() ==> tracks(
                receiver@.phase,
                receiver@.buffer,
                input@,
                base,
                index as int,
                start,
            ) && sent@ == seq![NAK] + acknowledgements(receiver@.blocks),
            receiver@.is_terminal() ==> base < input@.len() && receiver@.buffer == start && sent@
                == replies(transfer(input@)) && match receiver@.phase {
                Phase::Finished => input@[base] == EOT,
                Phase::Aborted { byte } => input@[base] == byte && byte != EOT && byte != SOH,
                _ => false,
            },
        decreases input@.len() - index,
    {
        let byte = input[index];
        let ghost before = receiver@;
        let ghost tail = input@.skip(base);
        let ghost offset = index - base;
        let reply = receiver.step(byte);
        proof {
            if offset >= 3 && offset < 3 + PAYLOAD_SIZE {
                let so_far = input@.subrange(base + 3, index as int);
                let more = input@.subrange(base + 3, index + 1);
                assert(more.drop_last() =~= so_far);
                assert(receiver@.buffer =~= more + start.skip(offset + 1 - 3));
            }
            if offset == 2 {
                assert(start.skip(0) =~= start);
            }
        }
        match reply {
            Some(reply) => {
                sent.push(reply);
            },
            None => {},
        }
        index = index + 1;
        proof {
            if before.phase is AwaitingCheckSum {
                assert(payload_of(tail) =~= input@.subrange(base + 3, base + 3 + PAYLOAD_SIZE));
                assert(tail.skip(PACKET_SIZE as int) =~= input@.skip(base + PACKET_SIZE));
                base = base + PACKET_SIZE;
                start = receiver@.buffer;
            }
        }
    }
    proof {
        if !receiver@.is_terminal() {
            let tail = input@.skip(base);
            let offset = index - base;
            if offset > 0 {
                assert(receiver@.buffer =~= partial_payload(tail) + start.skip(
                    partial_payload(tail).len() as int,
                ));
            }
        }
    }
    Reception {
        outcome: receiver.outcome(),
        blocks: receiver.blocks(),
        check_sum_ok: receiver.check_sum_ok(),
        buffer: *receiver.buffer(),
        sent,
    }
}

} // verus!
