use vstd::prelude::*;
use crate::codec::{le_bytes, le_value, lemma_le_value_of_le_bytes};
use crate::error::CounterError;

verus! {

/// The tag byte of `InitializeCounter`.
pub const TAG_INITIALIZE: u8 = 0;

/// The tag byte of `IncrementCounter`.
pub const TAG_INCREMENT: u8 = 1;

/// What the program can be told to do.
#[derive(Clone, Copy, Debug, PartialEq, Eq, Structural)]
pub enum CounterInstruction {
    /// Create the counter account and set the counter to `initial_value`.
    InitializeCounter { initial_value: u64 },
    /// Add one to the counter.
    IncrementCounter,
}

/// What a byte buffer means as an instruction: a tag byte, then the payload.
/// Tag 0 takes exactly eight payload bytes, the initial value in little-endian
/// order. Tag 1 takes no payload and ignores any that is there.
pub open spec fn unpacked(input: Seq<u8>) -> Result<CounterInstruction, CounterError> {
    if input.len() == 0 {
        Err(CounterError::MalformedInstruction)
    } else if input[0] == TAG_INITIALIZE {
        if input.len() == 9 {
            Ok(
                CounterInstruction::InitializeCounter {
                    initial_value: le_value(input.subrange(1, 9)) as u64,
                },
            )
        } else {
            Err(CounterError::MalformedInstruction)
        }
    } else if input[0] == TAG_INCREMENT {
        Ok(CounterInstruction::IncrementCounter)
    } else {
        Err(CounterError::UnknownInstruction)
    }
}

/// The bytes that carry an instruction: its tag, then its payload.
pub open spec fn packed(instruction: CounterInstruction) -> Seq<u8> {
    match instruction {
        CounterInstruction::InitializeCounter { initial_value } => seq![TAG_INITIALIZE] + le_bytes(
            initial_value,
        ),
        CounterInstruction::IncrementCounter => seq![TAG_INCREMENT],
    }
}

/// Reads eight bytes as a number, least significant byte first.
fn read_u64_le(bytes: &[u8]) -> (value: u64)
    requires
        bytes@.len() == 8,
    ensures
        value == le_value(bytes@),
{
    bytes[0] as u64
        + bytes[1] as u64 * 0x100
        + bytes[2] as u64 * 0x1_0000
        + bytes[3] as u64 * 0x100_0000
        + bytes[4] as u64 * 0x1_0000_0000
        + bytes[5] as u64 * 0x100_0000_0000
        + bytes[6] as u64 * 0x1_0000_0000_0000
        + bytes[7] as u64 * 0x100_0000_0000_0000
}

impl CounterInstruction {
    /// Decodes an instruction from the bytes that the host hands over.
    pub fn unpack(input: &[u8]) -> (result: Result<CounterInstruction, CounterError>)
        ensures
            result == unpacked(input@),
    {
        if input.len() == 0 {
            return Err(CounterError::MalformedInstruction);
        }
        let tag = input[0];
        if tag == TAG_INITIALIZE {
            if input.len() != 9 {
                return Err(CounterError::MalformedInstruction);
            }
            let payload = vstd::slice::slice_subrange(input, 1, 9);
            let initial_value = read_u64_le(payload);
            Ok(CounterInstruction::InitializeCounter { initial_value })
        } else if tag == TAG_INCREMENT {
            Ok(CounterInstruction::IncrementCounter)
        } else {
            Err(CounterError::UnknownInstruction)
        }
    }
}

/// A buffer without a tag byte is malformed.
pub proof fn lemma_unpack_empty()
    ensures
        unpacked(Seq::<u8>::empty()) == Err::<CounterInstruction, CounterError>(
            CounterError::MalformedInstruction,
        ),
{
}

/// Tag 0 followed by exactly eight bytes initializes the counter with the
/// number that those bytes stand for in little-endian order.
pub proof fn lemma_unpack_initialize(payload: Seq<u8>)
    requires
        payload.len() == 8,
    ensures
        unpacked(seq![TAG_INITIALIZE] + payload) == Ok::<CounterInstruction, CounterError>(
            CounterInstruction::InitializeCounter { initial_value: le_value(payload) as u64 },
        ),
{
    let input = seq![TAG_INITIALIZE] + payload;
    assert(input.subrange(1, 9) =~= payload);
}

/// Tag 0 followed by any other number of bytes is malformed.
pub proof fn lemma_unpack_initialize_wrong_length(payload: Seq<u8>)
    requires
        payload.len() != 8,
    ensures
        unpacked(seq![TAG_INITIALIZE] + payload) == Err::<CounterInstruction, CounterError>(
            CounterError::MalformedInstruction,
        ),
{
}

/// Tag 1 increments the counter, whatever follows it.
pub proof fn lemma_unpack_increment(trailing: Seq<u8>)
    ensures
        unpacked(seq![TAG_INCREMENT] + trailing) == Ok::<CounterInstruction, CounterError>(
            CounterInstruction::IncrementCounter,
        ),
{
}

/// Any tag other than 0 and 1 is unknown, whatever follows it.
pub proof fn lemma_unpack_unknown(tag: u8, rest: Seq<u8>)
    requires
        tag != TAG_INITIALIZE,
        tag != TAG_INCREMENT,
    ensures
        unpacked(seq![tag] + rest) == Err::<CounterInstruction, CounterError>(
            CounterError::UnknownInstruction,
        ),
{
}

/// Every instruction is read back from the bytes that carry it.
pub proof fn lemma_unpack_packed(instruction: CounterInstruction)
    ensures
        unpacked(packed(instruction)) == Ok::<CounterInstruction, CounterError>(instruction),
{
    match instruction {
        CounterInstruction::InitializeCounter { initial_value } => {
            lemma_le_value_of_le_bytes(initial_value);
            lemma_unpack_initialize(le_bytes(initial_value));
        },
        CounterInstruction::IncrementCounter => {},
    }
}

} // verus!
