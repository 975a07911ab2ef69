//! Exchanges with the peripheral, one byte transfer at a time.
//!
//! The bus is half duplex and the peripheral needs a pause before every byte,
//! so an exchange is a sequence of single transfers. `Peripheral` decides
//! what the next transfer is; the caller, who owns the bus, performs it after
//! the pause and reports what came of it. The rules of the three exchanges
//! are the function `step`, over a state that holds sequences; `Peripheral`
//! is that state in executable form.

use vstd::prelude::*;
use crate::frame::{
    decode_frame, encode_frame, frame_of, frame_verdict, getter_command, le_bytes,
    lemma_flipped_bit_rejected, outcome_of, read_command, setter_command, Fault, TransportError,
};

verus! {

/// The byte that marks the start of the answer to the probe.
pub const START_MARKER: u8 = 0xff;

/// The command byte that probes for the start of an answer: the self test, read as two bytes.
pub const PROBE: u8 = 0x20;

/// The three bytes that follow the start marker in the answer to the probe.
pub open spec fn signature() -> Seq<u8> {
    seq![0xcd, 0xab, 0x1f]
}

/// What came of the transfer that was asked for.
#[derive(Clone, Copy, Debug, PartialEq, Eq, Structural)]
pub enum BusReply {
    /// The byte was written.
    Written,
    /// A byte was read.
    Byte(u8),
    /// The transfer failed.
    Failed,
}

/// What the caller is to do next.
#[derive(Clone, Debug, PartialEq, Eq)]
pub enum BusAction {
    /// Write this byte and report `BusReply::Written`.
    Write(u8),
    /// Read one byte and report it.
    Read,
    /// Write this byte, read one byte in the same transfer, and report the byte read.
    Transfer(u8),
    /// The exchange is over: this number was read.
    Value(u32),
    /// The exchange is over: the write or the resynchronisation is done.
    Done,
    /// The exchange is over and has failed.
    Failed(TransportError),
}

/// A `BusAction` with the bytes of its error as a sequence.
pub enum Step {
    Write(u8),
    Read,
    Transfer(u8),
    Value(u32),
    Done,
    Failed(Fault),
}

impl View for BusAction {
    type V = Step;

    open spec fn view(&self) -> Step {
        match *self {
            BusAction::Write(byte) => Step::Write(byte),
            BusAction::Read => Step::Read,
            BusAction::Transfer(byte) => Step::Transfer(byte),
            BusAction::Value(value) => Step::Value(value),
            BusAction::Done => Step::Done,
            BusAction::Failed(error) => Step::Failed(error@),
        }
    }
}

/// How far an exchange has come. Each state but `Idle` waits for the reply
/// to one transfer.
pub enum Exchange {
    /// No exchange is under way.
    Idle,
    /// Reading a number: the command byte is being written.
    ReadCommand { command: u8, length: u8 },
    /// Reading a number: `received` has come of the data and the checksum.
    ReadPayload { command: u8, length: u8, received: Seq<u8> },
    /// Writing a number: byte `sent` of the frame is being written.
    Write { frame: Seq<u8>, sent: nat },
    /// Resynchronising: the first probe is being written.
    ResyncProbe,
    /// Resynchronising: a probe is being exchanged for a byte that may be the start marker.
    ResyncPoll,
    /// Resynchronising: `found` has come of the signature.
    ResyncSignature { found: Seq<u8> },
}

impl Exchange {
    /// What holds of every state that an exchange started here can reach.
    pub open spec fn well_formed(self) -> bool {
        match self {
            Exchange::Idle => true,
            Exchange::ReadCommand { command, length } => length == 2 || length == 4,
            Exchange::ReadPayload { command, length, received } => (length == 2 || length == 4)
                && received.len() <= length,
            Exchange::Write { frame, sent } => sent < frame.len(),
            Exchange::ResyncProbe => true,
            Exchange::ResyncPoll => true,
            Exchange::ResyncSignature { found } => found.len() < 3,
        }
    }
}

/// The step that ends a read.
pub open spec fn verdict_step(verdict: Result<u32, Fault>) -> Step {
    match verdict {
        Ok(value) => Step::Value(value),
        Err(fault) => Step::Failed(fault),
    }
}

/// Begins reading `length` bytes of `opcode`: the command byte goes out first.
pub open spec fn start_read(opcode: u8, length: u8) -> (Exchange, Step) {
    let command = getter_command(opcode, length);
    (Exchange::ReadCommand { command, length }, Step::Write(command))
}

/// Begins writing the low `length` bytes of `value` to `opcode`: the frame goes out byte by byte.
pub open spec fn start_write(opcode: u8, length: u8, value: u32) -> (Exchange, Step) {
    let frame = frame_of(setter_command(opcode, length), le_bytes(value, length as nat));
    (Exchange::Write { frame, sent: 0 }, Step::Write(frame[0]))
}

/// Begins a resynchronisation: a probe goes out.
pub open spec fn start_resync() -> (Exchange, Step) {
    (Exchange::ResyncProbe, Step::Write(PROBE))
}

/// The state after a reply, and what is to be done next.
///
/// A reply of another kind than the transfer that was asked for, or any
/// reply while nothing was asked for, ends the exchange as a bus failure.
/// A read writes its command, then reads the data and the checksum and
/// nothing more, and ends with the verdict on them. A write sends its frame and
/// ends; no answer is read. A resynchronisation repeats its probe until the
/// start marker comes back, reads three bytes and ends well if they are the
/// signature.
pub open spec fn step(exchange: Exchange, reply: BusReply) -> (Exchange, Step) {
    match (exchange, reply) {
        (Exchange::ReadCommand { command, length }, BusReply::Written) => (
            Exchange::ReadPayload { command, length, received: Seq::empty() },
            Step::Read,
        ),
        (Exchange::ReadPayload { command, length, received }, BusReply::Byte(byte)) => if
            received.len() < length {
            (Exchange::ReadPayload { command, length, received: received.push(byte) }, Step::Read)
        } else {
            (Exchange::Idle, verdict_step(frame_verdict(command, received.push(byte))))
        },
        (Exchange::Write { frame, sent }, BusReply::Written) => if sent + 1 < frame.len() {
            (Exchange::Write { frame, sent: sent + 1 }, Step::Write(frame[sent as int + 1]))
        } else {
            (Exchange::Idle, Step::Done)
        },
        (Exchange::ResyncProbe, BusReply::Written) => (Exchange::ResyncPoll, Step::Transfer(PROBE)),
        (Exchange::ResyncPoll, BusReply::Byte(byte)) => if byte == START_MARKER {
            (Exchange::ResyncSignature { found: Seq::empty() }, Step::Read)
        } else {
            (Exchange::ResyncPoll, Step::Transfer(PROBE))
        },
        (Exchange::ResyncSignature { found }, BusReply::Byte(byte)) => if found.len() < 2 {
            (Exchange::ResyncSignature { found: found.push(byte) }, Step::Read)
        } else if found.push(byte) == signature() {
            (Exchange::Idle, Step::Done)
        } else {
            (Exchange::Idle, Step::Failed(Fault::Resync { signature: found.push(byte) }))
        },
        _ => (Exchange::Idle, Step::Failed(Fault::Bus)),
    }
}

#[derive(Clone, Copy, Debug, PartialEq, Eq, Structural)]
enum Stage {
    Idle,
    ReadCommand,
    ReadPayload,
    Write,
    ResyncProbe,
    ResyncPoll,
    ResyncSignature,
}

/// The exchange under way with the peripheral, if any.
pub struct Peripheral {
    stage: Stage,
    command: u8,
    length: u8,
    /// What has been received, or the frame that is being sent.
    buffer: Vec<u8>,
    sent: usize,
}

impl View for Peripheral {
    type V = Exchange;

    closed spec fn view(&self) -> Exchange {
        match self.stage {
            Stage::Idle => Exchange::Idle,
            Stage::ReadCommand => Exchange::ReadCommand {
                command: self.command,
                length: self.length,
            },
            Stage::ReadPayload => Exchange::ReadPayload {
                command: self.command,
                length: self.length,
                received: self.buffer@,
            },
            Stage::Write => Exchange::Write { frame: self.buffer@, sent: self.sent as nat },
            Stage::ResyncProbe => Exchange::ResyncProbe,
            Stage::ResyncPoll => Exchange::ResyncPoll,
            Stage::ResyncSignature => Exchange::ResyncSignature { found: self.buffer@ },
        }
    }
}

impl Peripheral {
    #[verifier::type_invariant]
    spec fn well_formed(self) -> bool {
        self@.well_formed()
    }

    /// A peripheral with no exchange under way.
    pub fn new() -> (peripheral: Peripheral)
        ensures
            peripheral@ == Exchange::Idle,
    {
        Peripheral { stage: Stage::Idle, command: 0, length: 0, buffer: Vec::new(), sent: 0 }
    }

    /// Whether no exchange is under way.
    pub fn is_idle(&self) -> (idle: bool)
        ensures
            idle == (self@ == Exchange::Idle),
    {
        self.stage == Stage::Idle
    }

    /// Begins reading `length` bytes of `opcode`. An exchange that was under
    /// way is dropped.
    pub fn read_number(&mut self, opcode: u8, length: u8) -> (action: BusAction)
        requires
            length == 2 || length == 4,
        ensures
            (final(self)@, action@) == start_read(opcode, length),
    {
        let command = read_command(opcode, length);
        self.stage = Stage::Idle;
        self.command = command;
        self.length = length;
        self.stage = Stage::ReadCommand;
        BusAction::Write(command)
    }

    /// Begins writing the low `length` bytes of `value` to `opcode`. An
    /// exchange that was under way is dropped.
    pub fn write_number(&mut self, opcode: u8, length: u8, value: u32) -> (action: BusAction)
        requires
            length == 2 || length == 4,
        ensures
            (final(self)@, action@) == start_write(opcode, length, value),
    {
        let frame = encode_frame(opcode, length, value);
        let first = frame[0];
        self.stage = Stage::Idle;
        self.buffer = frame;
        self.sent = 0;
        self.stage = Stage::Write;
        BusAction::Write(first)
    }

    /// Begins a resynchronisation. An exchange that was under way is dropped.
    pub fn resync(&mut self) -> (action: BusAction)
        ensures
            (final(self)@, action@) == start_resync(),
    {
        self.stage = Stage::ResyncProbe;
        BusAction::Write(PROBE)
    }

    /// Takes the reply to the transfer that was asked for last and says what
    /// is to be done next.
    pub fn advance(&mut self, reply: BusReply) -> (action: BusAction)
        ensures
            (final(self)@, action@) == step(old(self)@, reply),
    {
        proof {
            use_type_invariant(&*self);
        }
        let stage = self.stage;
        self.stage = Stage::Idle;
        match (stage, reply) {
            (Stage::ReadCommand, BusReply::Written) => {
                self.buffer = Vec::new();
                self.stage = Stage::ReadPayload;
                BusAction::Read
            },
            (Stage::ReadPayload, BusReply::Byte(byte)) => {
                let more = self.buffer.len() < self.length as usize;
                let mut received: Vec<u8> = Vec::new();
                core::mem::swap(&mut self.buffer, &mut received);
                received.push(byte);
                self.buffer = received;
                if more {
                    self.stage = Stage::ReadPayload;
                    BusAction::Read
                } else {
                    let result = decode_frame(self.command, self.buffer.as_slice());
                    match result {
                        Ok(value) => BusAction::Value(value),
                        Err(error) => BusAction::Failed(error),
                    }
                }
            },
            (Stage::Write, BusReply::Written) => {
                assert(self.sent < self.buffer.len());
                if self.sent + 1 < self.buffer.len() {
                    let byte = self.buffer[self.sent + 1];
                    self.sent = self.sent + 1;
                    self.stage = Stage::Write;
                    BusAction::Write(byte)
                } else {
                    BusAction::Done
                }
            },
            (Stage::ResyncProbe, BusReply::Written) => {
                self.stage = Stage::ResyncPoll;
                BusAction::Transfer(PROBE)
            },
            (Stage::ResyncPoll, BusReply::Byte(byte)) => {
                if byte == START_MARKER {
                    self.buffer = Vec::new();
                    self.stage = Stage::ResyncSignature;
                    BusAction::Read
                } else {
                    self.stage = Stage::ResyncPoll;
                    BusAction::Transfer(PROBE)
                }
            },
            (Stage::ResyncSignature, BusReply::Byte(byte)) => {
                let more = self.buffer.len() < 2;
                let mut found: Vec<u8> = Vec::new();
                core::mem::swap(&mut self.buffer, &mut found);
                found.push(byte);
                self.buffer = found;
                if more {
                    self.stage = Stage::ResyncSignature;
                    BusAction::Read
                } else if self.buffer[0] == 0xcd && self.buffer[1] == 0xab && self.buffer[2]
                    == 0x1f {
                    assert(self.buffer@ =~= signature());
                    BusAction::Done
                } else {
                    let mut signature: Vec<u8> = Vec::new();
                    core::mem::swap(&mut self.buffer, &mut signature);
                    BusAction::Failed(TransportError::Resync { signature })
                }
            },
            _ => BusAction::Failed(TransportError::Bus),
        }
    }
}

/// The state after a sequence of replies, and the steps that were asked for
/// along the way, one for each reply.
pub open spec fn feed(exchange: Exchange, replies: Seq<BusReply>) -> (Exchange, Seq<Step>)
    decreases replies.len(),
{
    if replies.len() == 0 {
        (exchange, Seq::empty())
    } else {
        let before = feed(exchange, replies.drop_last());
        let last = step(before.0, replies.last());
        (last.0, before.1.push(last.1))
    }
}

/// The replies that bytes read from the bus amount to.
pub open spec fn bytes_read(bytes: Seq<u8>) -> Seq<BusReply> {
    Seq::new(bytes.len(), |index: int| BusReply::Byte(bytes[index]))
}

/// The steps that write the given bytes one after the other.
pub open spec fn bytes_written(bytes: Seq<u8>) -> Seq<Step> {
    Seq::new(bytes.len(), |index: int| Step::Write(bytes[index]))
}

/// `count` times the same value.
pub open spec fn repeated<T>(count: nat, value: T) -> Seq<T> {
    Seq::new(count, |index: int| value)
}

/// Feeding one more reply is feeding the replies before it and then taking one step.
proof fn lemma_feed_push(exchange: Exchange, replies: Seq<BusReply>, reply: BusReply)
    ensures
        feed(exchange, replies.push(reply)) == (
            step(feed(exchange, replies).0, reply).0,
            feed(exchange, replies).1.push(step(feed(exchange, replies).0, reply).1),
        ),
{
    assert(replies.push(reply).drop_last() =~= replies);
}

/// While the data of a read come in, every step asks for the next byte.
proof fn lemma_read_in_progress(command: u8, length: u8, payload: Seq<u8>, count: nat)
    requires
        length == 2 || length == 4,
        count <= length,
        count <= payload.len(),
    ensures
        feed(
            Exchange::ReadCommand { command, length },
            seq![BusReply::Written] + bytes_read(payload.take(count as int)),
        ) == (
            Exchange::ReadPayload { command, length, received: payload.take(count as int) },
            repeated(count + 1, Step::Read),
        ),
    decreases count,
{
    let start = Exchange::ReadCommand { command, length };
    let opening = seq![BusReply::Written];
    if count == 0 {
        assert(payload.take(0) =~= Seq::<u8>::empty());
        assert(opening + bytes_read(payload.take(0)) =~= Seq::<BusReply>::empty().push(
            BusReply::Written,
        ));
        lemma_feed_push(start, Seq::empty(), BusReply::Written);
        assert(Seq::<Step>::empty().push(Step::Read) =~= repeated(1, Step::Read));
    } else {
        let before = (count - 1) as nat;
        lemma_read_in_progress(command, length, payload, before);
        let replies = opening + bytes_read(payload.take(before as int));
        let byte = payload[before as int];
        assert(opening + bytes_read(payload.take(count as int)) =~= replies.push(
            BusReply::Byte(byte),
        ));
        lemma_feed_push(start, replies, BusReply::Byte(byte));
        assert(payload.take(before as int).push(byte) =~= payload.take(count as int));
        assert(repeated(before + 1, Step::Read).push(Step::Read) =~= repeated(
            count + 1,
            Step::Read,
        ));
    }
}

/// A read runs its course whatever the bytes are: it writes the command
/// byte and nothing else, then reads the data and the checksum, one byte at
/// a time and nothing more, and ends idle with the verdict on them. The
/// number comes out exactly when the checksum is that of command and data.
pub proof fn lemma_read_exchange(opcode: u8, length: u8, data: Seq<u8>, checksum: u8)
    requires
        length == 2 || length == 4,
        data.len() == length,
    ensures
        start_read(opcode, length).1 == Step::Write(getter_command(opcode, length)),
        feed(
            start_read(opcode, length).0,
            seq![BusReply::Written] + bytes_read(data.push(checksum)),
        ) == (
            Exchange::Idle,
            repeated(length as nat + 1, Step::Read).push(
                verdict_step(
                    frame_verdict(getter_command(opcode, length), data.push(checksum)),
                ),
            ),
        ),
{
    let command = getter_command(opcode, length);
    let start = Exchange::ReadCommand { command, length };
    let opening = seq![BusReply::Written];
    let payload = data.push(checksum);
    lemma_read_in_progress(command, length, payload, length as nat);
    assert(payload.take(length as int) =~= data);
    let replies = opening + bytes_read(data);
    assert(opening + bytes_read(payload) =~= replies.push(BusReply::Byte(checksum)));
    lemma_feed_push(start, replies, BusReply::Byte(checksum));
}

/// A read whose answer was accepted refuses the same answer with any one
/// bit flipped, in the data or in the checksum: it ends with the checksum
/// error and without a value.
pub proof fn lemma_read_detects_flipped_bit(
    opcode: u8,
    length: u8,
    payload: Seq<u8>,
    position: int,
    k: u8,
)
    requires
        length == 2 || length == 4,
        payload.len() == length + 1,
        frame_verdict(getter_command(opcode, length), payload) is Ok,
        0 <= position < payload.len(),
        k < 8,
    ensures
        feed(
            start_read(opcode, length).0,
            seq![BusReply::Written] + bytes_read(
                payload.update(position, payload[position] ^ (1u8 << k)),
            ),
        ).0 == Exchange::Idle,
        feed(
            start_read(opcode, length).0,
            seq![BusReply::Written] + bytes_read(
                payload.update(position, payload[position] ^ (1u8 << k)),
            ),
        ).1.last() matches Step::Failed(Fault::Checksum { .. }),
{
    let command = getter_command(opcode, length);
    let flipped = payload.update(position, payload[position] ^ (1u8 << k));
    lemma_flipped_bit_rejected(command, payload, position, k);
    assert(flipped.drop_last().push(flipped.last()) =~= flipped);
    lemma_read_exchange(opcode, length, flipped.drop_last(), flipped.last());
}

/// While a frame goes out, every step writes its next byte.
proof fn lemma_write_in_progress(frame: Seq<u8>, count: nat)
    requires
        count < frame.len(),
    ensures
        feed(Exchange::Write { frame, sent: 0 }, repeated(count, BusReply::Written)) == (
            Exchange::Write { frame, sent: count },
            bytes_written(frame.subrange(1, count as int + 1)),
        ),
    decreases count,
{
    let start = Exchange::Write { frame, sent: 0 };
    if count == 0 {
        assert(repeated(0, BusReply::Written) =~= Seq::<BusReply>::empty());
        assert(bytes_written(frame.subrange(1, 1)) =~= Seq::<Step>::empty());
    } else {
        let before = (count - 1) as nat;
        lemma_write_in_progress(frame, before);
        assert(repeated(count, BusReply::Written) =~= repeated(before, BusReply::Written).push(
            BusReply::Written,
        ));
        lemma_feed_push(start, repeated(before, BusReply::Written), BusReply::Written);
        assert(bytes_written(frame.subrange(1, before as int + 1)).push(
            Step::Write(frame[count as int]),
        ) =~= bytes_written(frame.subrange(1, count as int + 1)));
    }
}

/// A write sends its frame and nothing else: the command first, then, as
/// each byte is reported written, the data from the least significant byte
/// on and the checksum, and it ends idle without reading an answer.
pub proof fn lemma_write_exchange(opcode: u8, length: u8, value: u32)
    requires
        length == 2 || length == 4,
    ensures
        ({
            let frame = frame_of(setter_command(opcode, length), le_bytes(value, length as nat));
            &&& frame.len() == length + 2
            &&& start_write(opcode, length, value).1 == Step::Write(frame[0])
            &&& feed(
                start_write(opcode, length, value).0,
                repeated(frame.len(), BusReply::Written),
            ) == (Exchange::Idle, bytes_written(frame.skip(1)).push(Step::Done))
        }),
{
    let frame = frame_of(setter_command(opcode, length), le_bytes(value, length as nat));
    let start = Exchange::Write { frame, sent: 0 };
    let last = (frame.len() - 1) as nat;
    lemma_write_in_progress(frame, last);
    assert(repeated(frame.len(), BusReply::Written) =~= repeated(last, BusReply::Written).push(
        BusReply::Written,
    ));
    lemma_feed_push(start, repeated(last, BusReply::Written), BusReply::Written);
    assert(frame.subrange(1, last as int + 1) =~= frame.skip(1));
}

/// While bytes other than the start marker come back, a resynchronisation
/// keeps probing.
proof fn lemma_resync_polling(noise: Seq<u8>)
    requires
        forall|index: int| 0 <= index < noise.len() ==> noise[index] != START_MARKER,
    ensures
        feed(Exchange::ResyncProbe, seq![BusReply::Written] + bytes_read(noise)) == (
            Exchange::ResyncPoll,
            repeated(noise.len() + 1, Step::Transfer(PROBE)),
        ),
    decreases noise.len(),
{
    let start = Exchange::ResyncProbe;
    if noise.len() == 0 {
        assert(seq![BusReply::Written] + bytes_read(noise) =~= Seq::<BusReply>::empty().push(
            BusReply::Written,
        ));
        lemma_feed_push(start, Seq::empty(), BusReply::Written);
        assert(Seq::<Step>::empty().push(Step::Transfer(PROBE)) =~= repeated(
            1,
            Step::Transfer(PROBE),
        ));
    } else {
        let before = noise.drop_last();
        lemma_resync_polling(before);
        let replies = seq![BusReply::Written] + bytes_read(before);
        assert(seq![BusReply::Written] + bytes_read(noise) =~= replies.push(
            BusReply::Byte(noise.last()),
        ));
        lemma_feed_push(start, replies, BusReply::Byte(noise.last()));
        assert(repeated(before.len() + 1, Step::Transfer(PROBE)).push(Step::Transfer(PROBE))
            =~= repeated(noise.len() + 1, Step::Transfer(PROBE)));
    }
}

/// A resynchronisation probes until the start marker comes back, however
/// long that takes, then reads exactly three bytes and ends idle: well if
/// they are the signature, and with them in the error if they are not.
pub proof fn lemma_resync_exchange(noise: Seq<u8>, found: Seq<u8>)
    requires
        forall|index: int| 0 <= index < noise.len() ==> noise[index] != START_MARKER,
        found.len() == 3,
    ensures
        feed(
            start_resync().0,
            seq![BusReply::Written] + bytes_read(noise.push(START_MARKER) + found),
        ) == (
            Exchange::Idle,
            (repeated(noise.len() + 1, Step::Transfer(PROBE)) + repeated(3, Step::Read)).push(
                if found == signature() {
                    Step::Done
                } else {
                    Step::Failed(Fault::Resync { signature: found })
                },
            ),
        ),
{
    let start = Exchange::ResyncProbe;
    lemma_resync_polling(noise);
    let polled = seq![BusReply::Written] + bytes_read(noise);
    let probes = repeated(noise.len() + 1, Step::Transfer(PROBE));
    let marked = polled.push(BusReply::Byte(START_MARKER));
    lemma_feed_push(start, polled, BusReply::Byte(START_MARKER));
    let first = marked.push(BusReply::Byte(found[0]));
    lemma_feed_push(start, marked, BusReply::Byte(found[0]));
    let second = first.push(BusReply::Byte(found[1]));
    lemma_feed_push(start, first, BusReply::Byte(found[1]));
    let third = second.push(BusReply::Byte(found[2]));
    lemma_feed_push(start, second, BusReply::Byte(found[2]));
    assert(seq![BusReply::Written] + bytes_read(noise.push(START_MARKER) + found) =~= third);
    assert(Seq::<u8>::empty().push(found[0]).push(found[1]).push(found[2]) =~= found);
    assert(probes.push(Step::Read).push(Step::Read).push(Step::Read) =~= probes + repeated(
        3,
        Step::Read,
    ));
}

/// Every state that an exchange can reach is well formed.
pub proof fn lemma_step_keeps_well_formed(exchange: Exchange, reply: BusReply)
    requires
        exchange.well_formed(),
    ensures
        step(exchange, reply).0.well_formed(),
{
}

} // verus!
