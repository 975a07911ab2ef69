//! Frames of the bus protocol: one command byte, two or four data bytes with
//! the least significant first, and a checksum over command and data.

use vstd::prelude::*;
use crate::crc::{checksum, checksum_of, lemma_checksum_detects_flipped_bit};

verus! {

/// Operation type, bits 7 and 6 of a command byte: read two bytes.
pub const TYPE_GETTER2: u8 = 0x00;

/// Operation type: read four bytes.
pub const TYPE_GETTER4: u8 = 0x40;

/// Operation type: write two bytes.
pub const TYPE_SETTER2: u8 = 0x80;

/// Operation type: write four bytes.
pub const TYPE_SETTER4: u8 = 0xc0;

/// Opcode of the actuator's packed colour word.
pub const CMD_COLOR: u8 = 0x05;

/// Opcode of the current temperature, computed by the peripheral.
pub const CMD_TEMP_NOW: u8 = 0x11;

/// Opcode of the average temperature, computed by the peripheral.
pub const CMD_TEMP_AVG: u8 = 0x12;

/// Opcode of the last raw reading of the temperature sensor.
pub const CMD_TEMP_RAW: u8 = 0x13;

/// Opcode of the sum of 256 raw readings of the temperature sensor.
pub const CMD_TEMP_RSUM: u8 = 0x14;

/// Opcode of the series resistor constant.
pub const CMD_TEMP_SRES: u8 = 0x15;

/// Opcode of the sensor's nominal resistance at 25 °C.
pub const CMD_TEMP_NRES: u8 = 0x16;

/// Opcode of the sensor's β coefficient.
pub const CMD_TEMP_BCOE: u8 = 0x17;

/// Opcode of the self test, whose answer is a fixed signature.
pub const CMD_TEST: u8 = 0x20;

/// Why an exchange with the peripheral came to nothing.
#[derive(Clone, Debug, PartialEq, Eq)]
pub enum TransportError {
    /// A transfer on the bus failed.
    Bus,
    /// The checksum that came with the data is not the checksum of command and data.
    Checksum { received: u8, computed: u8, data: Vec<u8> },
    /// The three bytes after the start marker are not the signature.
    Resync { signature: Vec<u8> },
}

/// A `TransportError` with its bytes as a sequence.
pub enum Fault {
    Bus,
    Checksum { received: u8, computed: u8, data: Seq<u8> },
    Resync { signature: Seq<u8> },
}

impl View for TransportError {
    type V = Fault;

    open spec fn view(&self) -> Fault {
        match *self {
            TransportError::Bus => Fault::Bus,
            TransportError::Checksum { received, computed, data } => Fault::Checksum {
                received,
                computed,
                data: data@,
            },
            TransportError::Resync { signature } => Fault::Resync { signature: signature@ },
        }
    }
}

/// A result of the transport with the bytes of its error as a sequence.
pub open spec fn outcome_of(result: Result<u32, TransportError>) -> Result<u32, Fault> {
    match result {
        Ok(value) => Ok(value),
        Err(error) => Err(error@),
    }
}

/// The command byte that asks for `length` bytes of `opcode`.
pub open spec fn getter_command(opcode: u8, length: u8) -> u8 {
    opcode | (if length == 2 {
        TYPE_GETTER2
    } else {
        TYPE_GETTER4
    })
}

/// The command byte that announces `length` bytes for `opcode`.
pub open spec fn setter_command(opcode: u8, length: u8) -> u8 {
    opcode | (if length == 2 {
        TYPE_SETTER2
    } else {
        TYPE_SETTER4
    })
}

/// 256 to the power `count`: the number of values that `count` bytes can hold.
pub open spec fn span(count: nat) -> nat
    decreases count,
{
    if count == 0 {
        1
    } else {
        256 * span((count - 1) as nat)
    }
}

/// Byte `index` of a value, byte 0 being the least significant.
pub open spec fn le_byte(value: u32, index: nat) -> u8 {
    ((value as nat / span(index)) % 256) as u8
}

/// The first `length` bytes of a value, the least significant first.
pub open spec fn le_bytes(value: u32, length: nat) -> Seq<u8> {
    Seq::new(length, |index: int| le_byte(value, index as nat))
}

/// The number that bytes stand for when the first is the least significant.
pub open spec fn le_value(bytes: Seq<u8>) -> nat
    decreases bytes.len(),
{
    if bytes.len() == 0 {
        0
    } else {
        le_value(bytes.drop_last()) + (bytes.last() as nat) * span((bytes.len() - 1) as nat)
    }
}

/// The frame for a command and its data: command, data, checksum of both.
pub open spec fn frame_of(command: u8, data: Seq<u8>) -> Seq<u8> {
    (seq![command] + data).push(checksum_of(seq![command] + data))
}

/// What the answer to a command amounts to. `payload` is what came after
/// the command: the data bytes and then the checksum. The data are
/// decoded only where the checksum is that of command and data.
pub open spec fn frame_verdict(command: u8, payload: Seq<u8>) -> Result<u32, Fault> {
    let data = payload.drop_last();
    let received = payload.last();
    let computed = checksum_of(seq![command] + data);
    if received == computed {
        Ok(le_value(data) as u32)
    } else {
        Err(Fault::Checksum { received, computed, data })
    }
}

/// Builds the command byte that asks for `length` bytes of `opcode`.
pub fn read_command(opcode: u8, length: u8) -> (command: u8)
    requires
        length == 2 || length == 4,
    ensures
        command == getter_command(opcode, length),
{
    if length == 2 {
        opcode | TYPE_GETTER2
    } else {
        opcode | TYPE_GETTER4
    }
}

/// Builds the command byte that announces `length` bytes for `opcode`.
pub fn write_command(opcode: u8, length: u8) -> (command: u8)
    requires
        length == 2 || length == 4,
    ensures
        command == setter_command(opcode, length),
{
    if length == 2 {
        opcode | TYPE_SETTER2
    } else {
        opcode | TYPE_SETTER4
    }
}

/// The spans of up to four bytes.
pub proof fn lemma_span_values()
    ensures
        span(0) == 1,
        span(1) == 0x100,
        span(2) == 0x1_0000,
        span(3) == 0x100_0000,
        span(4) == 0x1_0000_0000,
{
    reveal_with_fuel(span, 5);
}

/// The bytes of a value stand for less than their span.
pub proof fn lemma_le_value_bound(bytes: Seq<u8>)
    ensures
        le_value(bytes) < span(bytes.len()),
    decreases bytes.len(),
{
    if bytes.len() > 0 {
        lemma_le_value_bound(bytes.drop_last());
        let below = span((bytes.len() - 1) as nat);
        assert(bytes.last() * below <= 255 * below) by (nonlinear_arith)
            requires
                bytes.last() <= 255,
        ;
    }
}

/// Builds the frame that writes the low `length` bytes of `value` to `opcode`.
pub fn encode_frame(opcode: u8, length: u8, value: u32) -> (frame: Vec<u8>)
    requires
        length == 2 || length == 4,
    ensures
        frame@ == frame_of(setter_command(opcode, length), le_bytes(value, length as nat)),
{
    let command = write_command(opcode, length);
    let mut frame: Vec<u8> = Vec::new();
    frame.push(command);
    let mut rest: u32 = value;
    let mut index: u8 = 0;
    proof {
        lemma_span_values();
    }
    while index < length
        invariant
            index <= length <= 4,
            rest == value as nat / span(index as nat),
            frame@ == seq![command] + le_bytes(value, index as nat),
        decreases length - index,
    {
        let byte = (rest % 256) as u8;
        proof {
            lemma_span_values();
            let next = (index + 1) as nat;
            assert(span(next) == 256 * span(index as nat));
            assert(rest as nat / 256 == value as nat / span(next)) by {
                vstd::arithmetic::div_mod::lemma_div_denominator(
                    value as int,
                    span(index as nat) as int,
                    256,
                );
                assert(span(index as nat) * 256 == span(next));
            }
            assert(frame@.push(byte) =~= seq![command] + le_bytes(value, next));
        }
        frame.push(byte);
        rest = rest / 256;
        index = index + 1;
    }
    let sum = checksum(frame.as_slice());
    frame.push(sum);
    frame
}

/// Checks and decodes the answer to `command`: the data bytes and then the
/// checksum. A checksum that is not the checksum of command and data gives
/// `TransportError::Checksum` with both checksums and the data as received.
pub fn decode_frame(command: u8, payload: &[u8]) -> (result: Result<u32, TransportError>)
    requires
        payload@.len() == 3 || payload@.len() == 5,
    ensures
        outcome_of(result) == frame_verdict(command, payload@),
{
    let length = payload.len() - 1;
    let mut covered: Vec<u8> = Vec::new();
    covered.push(command);
    let mut data: Vec<u8> = Vec::new();
    let mut value: u32 = 0;
    let mut scale: u64 = 1;
    let mut index: usize = 0;
    proof {
        lemma_span_values();
        assert(payload@.take(0) =~= Seq::<u8>::empty());
    }
    while index < length
        invariant
            index <= length == payload@.len() - 1,
            length <= 4,
            data@ == payload@.take(index as int),
            covered@ == seq![command] + data@,
            value == le_value(data@),
            scale == span(index as nat),
        decreases length - index,
    {
        let byte = payload[index];
        proof {
            lemma_span_values();
            let longer = payload@.take(index + 1);
            assert(longer.drop_last() =~= payload@.take(index as int));
            assert(longer.last() == byte);
            lemma_le_value_bound(longer);
            assert(span((index + 1) as nat) == 256 * span(index as nat));
            assert(le_value(longer) == value + byte * scale);
            assert(data@.push(byte) =~= longer);
            assert(covered@.push(byte) =~= seq![command] + longer);
            assert(byte * scale <= 255 * scale) by (nonlinear_arith)
                requires
                    byte <= 255,
            ;
        }
        value = value + (byte as u64 * scale) as u32;
        scale = scale * 256;
        data.push(byte);
        covered.push(byte);
        index = index + 1;
    }
    let received = payload[length];
    let computed = checksum(covered.as_slice());
    proof {
        assert(payload@.drop_last() =~= payload@.take(length as int));
    }
    if received == computed {
        Ok(value)
    } else {
        Err(TransportError::Checksum { received, computed, data })
    }
}

/// A value of four bytes is what its four bytes stand for; of a larger value
/// written in two bytes, the low sixteen bits are left.
pub proof fn lemma_le_round_trip(value: u32)
    ensures
        le_value(le_bytes(value, 4)) == value,
        le_value(le_bytes(value, 2)) == value % 0x1_0000,
{
    lemma_span_values();
    let four = le_bytes(value, 4);
    let three = four.drop_last();
    let two = three.drop_last();
    let one = two.drop_last();
    assert(two =~= le_bytes(value, 2));
    assert(one.drop_last() =~= Seq::<u8>::empty());
    assert(le_value(one.drop_last()) == 0);
    assert(le_value(one) == value as nat % 256);
    assert(le_value(two) == le_value(one) + two.last() * 256);
    assert(le_value(three) == le_value(two) + three.last() * 0x1_0000);
    assert(le_value(four) == le_value(three) + four.last() * 0x100_0000);
}

/// The frame that writes a value is answered, read back as an answer to its
/// own command, by that value: the checksum of a frame built here is accepted.
pub proof fn lemma_frame_round_trip(command: u8, value: u32, length: u8)
    requires
        length == 2 || length == 4,
    ensures
        frame_verdict(command, frame_of(command, le_bytes(value, length as nat)).drop_first())
            == Ok::<u32, Fault>(
            if length == 4 {
                value
            } else {
                (value % 0x1_0000) as u32
            },
        ),
{
    let data = le_bytes(value, length as nat);
    let payload = frame_of(command, data).drop_first();
    assert(payload.drop_last() =~= data);
    lemma_le_round_trip(value);
}

/// An answer whose checksum byte is anything but the checksum of command and
/// data is refused, whatever the data: no value comes out of it.
pub proof fn lemma_corrupt_checksum_rejected(command: u8, data: Seq<u8>, received: u8)
    requires
        received != checksum_of(seq![command] + data),
    ensures
        frame_verdict(command, data.push(received)) == Err::<u32, Fault>(
            Fault::Checksum {
                received,
                computed: checksum_of(seq![command] + data),
                data,
            },
        ),
{
    assert(data.push(received).drop_last() =~= data);
}

/// An answer that was accepted is refused when any one of its bits is
/// flipped, in the data or in the checksum.
pub proof fn lemma_flipped_bit_rejected(command: u8, payload: Seq<u8>, position: int, k: u8)
    requires
        payload.len() > 0,
        frame_verdict(command, payload) is Ok,
        0 <= position < payload.len(),
        k < 8,
    ensures
        frame_verdict(command, payload.update(position, payload[position] ^ (1u8 << k)))
            matches Err(Fault::Checksum { .. }),
{
    let byte = payload[position];
    let flipped = payload.update(position, byte ^ (1u8 << k));
    let data = payload.drop_last();
    assert(byte ^ (1u8 << k) != byte) by (bit_vector)
        requires
            k < 8,
    ;
    if position == payload.len() - 1 {
        assert(flipped.drop_last() =~= data);
    } else {
        let covered = seq![command] + data;
        lemma_checksum_detects_flipped_bit(covered, position + 1, k);
        assert(seq![command] + flipped.drop_last() =~= covered.update(
            position + 1,
            covered[position + 1] ^ (1u8 << k),
        ));
    }
}

} // verus!
