use vstd::prelude::*;
use crate::error::CounterError;

verus! {

/// The number of bytes a stored counter occupies.
pub const COUNTER_SIZE: usize = 8;

/// The number that eight bytes stand for when the first byte is the least
/// significant one.
pub open spec fn le_value(bytes: Seq<u8>) -> int
    recommends
        bytes.len() == 8,
{
    bytes[0] as int
        + bytes[1] as int * 0x100
        + bytes[2] as int * 0x1_0000
        + bytes[3] as int * 0x100_0000
        + bytes[4] as int * 0x1_0000_0000
        + bytes[5] as int * 0x100_0000_0000
        + bytes[6] as int * 0x1_0000_0000_0000
        + bytes[7] as int * 0x100_0000_0000_0000
}

/// The eight bytes that stand for a number, least significant byte first.
pub open spec fn le_bytes(value: u64) -> Seq<u8> {
    seq![
        (value as int % 0x100) as u8,
        (value as int / 0x100 % 0x100) as u8,
        (value as int / 0x1_0000 % 0x100) as u8,
        (value as int / 0x100_0000 % 0x100) as u8,
        (value as int / 0x1_0000_0000 % 0x100) as u8,
        (value as int / 0x100_0000_0000 % 0x100) as u8,
        (value as int / 0x1_0000_0000_0000 % 0x100) as u8,
        (value as int / 0x100_0000_0000_0000 % 0x100) as u8,
    ]
}

/// Dividing by a power of 256 is dividing by 256 that many times.
proof fn lemma_shift_bytes(v: int)
    requires
        0 <= v,
    ensures
        v / 0x1_0000 == v / 0x100 / 0x100,
        v / 0x100_0000 == v / 0x1_0000 / 0x100,
        v / 0x1_0000_0000 == v / 0x100_0000 / 0x100,
        v / 0x100_0000_0000 == v / 0x1_0000_0000 / 0x100,
        v / 0x1_0000_0000_0000 == v / 0x100_0000_0000 / 0x100,
        v / 0x100_0000_0000_0000 == v / 0x1_0000_0000_0000 / 0x100,
{
    assert(v / 0x1_0000 == v / 0x100 / 0x100);
    assert(v / 0x100_0000 == v / 0x1_0000 / 0x100);
    assert(v / 0x1_0000_0000 == v / 0x100_0000 / 0x100);
    assert(v / 0x100_0000_0000 == v / 0x1_0000_0000 / 0x100);
    assert(v / 0x1_0000_0000_0000 == v / 0x100_0000_0000 / 0x100);
    assert(v / 0x100_0000_0000_0000 == v / 0x1_0000_0000_0000 / 0x100);
}

/// Eight bytes always stand for a number that fits in 64 bits.
pub proof fn lemma_le_value_bounds(bytes: Seq<u8>)
    requires
        bytes.len() == 8,
    ensures
        0 <= le_value(bytes) <= u64::MAX,
{
}

/// Reading the bytes of a number gives the number back.
pub proof fn lemma_le_value_of_le_bytes(value: u64)
    ensures
        le_bytes(value).len() == 8,
        le_value(le_bytes(value)) == value,
{
    let v0 = value as int;
    let v1 = v0 / 0x100;
    let v2 = v1 / 0x100;
    let v3 = v2 / 0x100;
    let v4 = v3 / 0x100;
    let v5 = v4 / 0x100;
    let v6 = v5 / 0x100;
    let v7 = v6 / 0x100;
    lemma_shift_bytes(v0);
    assert(v0 == v0 % 0x100 + 0x100 * v1);
    assert(v1 == v1 % 0x100 + 0x100 * v2);
    assert(v2 == v2 % 0x100 + 0x100 * v3);
    assert(v3 == v3 % 0x100 + 0x100 * v4);
    assert(v4 == v4 % 0x100 + 0x100 * v5);
    assert(v5 == v5 % 0x100 + 0x100 * v6);
    assert(v6 == v6 % 0x100 + 0x100 * v7);
    assert(v7 == v7 % 0x100);
    let b = le_bytes(value);
    assert(b[0] == v0 % 0x100);
    assert(b[1] == v1 % 0x100);
    assert(b[2] == v2 % 0x100);
    assert(b[3] == v3 % 0x100);
    assert(b[4] == v4 % 0x100);
    assert(b[5] == v5 % 0x100);
    assert(b[6] == v6 % 0x100);
    assert(b[7] == v7 % 0x100);
}

/// Writing the number that eight bytes stand for gives the bytes back.
pub proof fn lemma_le_bytes_of_le_value(bytes: Seq<u8>)
    requires
        bytes.len() == 8,
    ensures
        0 <= le_value(bytes) <= u64::MAX,
        le_bytes(le_value(bytes) as u64) == bytes,
{
    let t7 = bytes[7] as int;
    let t6 = bytes[6] as int + 0x100 * t7;
    let t5 = bytes[5] as int + 0x100 * t6;
    let t4 = bytes[4] as int + 0x100 * t5;
    let t3 = bytes[3] as int + 0x100 * t4;
    let t2 = bytes[2] as int + 0x100 * t3;
    let t1 = bytes[1] as int + 0x100 * t2;
    let t0 = bytes[0] as int + 0x100 * t1;
    assert(t0 == le_value(bytes));
    lemma_shift_bytes(t0);
    assert(t0 / 0x100 == t1 && t0 % 0x100 == bytes[0]);
    assert(t1 / 0x100 == t2 && t1 % 0x100 == bytes[1]);
    assert(t2 / 0x100 == t3 && t2 % 0x100 == bytes[2]);
    assert(t3 / 0x100 == t4 && t3 % 0x100 == bytes[3]);
    assert(t4 / 0x100 == t5 && t4 % 0x100 == bytes[4]);
    assert(t5 / 0x100 == t6 && t5 % 0x100 == bytes[5]);
    assert(t6 / 0x100 == t7 && t6 % 0x100 == bytes[6]);
    assert(t7 % 0x100 == bytes[7]);
    assert(le_bytes(t0 as u64) =~= bytes);
}

/// What decoding a stored counter gives: the number that the first eight bytes
/// stand for, or `CorruptState` where fewer than eight are there.
pub open spec fn decoded(bytes: Seq<u8>) -> Result<u64, CounterError> {
    if bytes.len() < 8 {
        Err(CounterError::CorruptState)
    } else {
        Ok(le_value(bytes.subrange(0, 8)) as u64)
    }
}

/// The counter one step on: after the largest value it starts again at zero.
pub open spec fn next_count(count: u64) -> u64 {
    if count == u64::MAX {
        0
    } else {
        (count + 1) as u64
    }
}

/// Calls `borsh::to_vec` on a `u64`. borsh writes an unsigned 64-bit integer as
/// its eight bytes in little-endian order, and writing into a fresh vector does
/// not fail; the contract claims both.
#[verifier::external_body]
fn borsh_encode_u64(value: u64) -> (bytes: Option<Vec<u8>>)
    ensures
        bytes is Some,
        bytes->0@ == le_bytes(value),
{
    borsh::to_vec(&value).ok()
}

/// Calls `BorshDeserialize::deserialize` for `u64` on a byte slice. borsh reads
/// the first eight bytes as a little-endian integer and leaves the rest alone;
/// it fails exactly when fewer than eight bytes are there. The contract claims
/// that.
#[verifier::external_body]
fn borsh_decode_u64(bytes: &[u8]) -> (value: Option<u64>)
    ensures
        value is Some <==> bytes@.len() >= 8,
        value is Some ==> value->0 == le_value(bytes@.subrange(0, 8)),
{
    let mut rest: &[u8] = bytes;
    <u64 as borsh::BorshDeserialize>::deserialize(&mut rest).ok()
}

/// The counter as it is kept in an account.
#[derive(Clone, Copy, Debug, PartialEq, Eq, Structural)]
pub struct CounterAccount {
    count: u64,
}

impl View for CounterAccount {
    type V = u64;

    closed spec fn view(&self) -> u64 {
        self.count
    }
}

impl CounterAccount {
    /// A counter that stands at `count`.
    pub fn new(count: u64) -> (counter: CounterAccount)
        ensures
            counter@ == count,
    {
        CounterAccount { count }
    }

    /// Where the counter stands.
    pub fn count(&self) -> (count: u64)
        ensures
            count == self@,
    {
        self.count
    }

    /// The counter one step on. After the largest value it starts again at zero.
    pub fn incremented(&self) -> (next: CounterAccount)
        ensures
            next@ == next_count(self@),
    {
        CounterAccount { count: self.count.wrapping_add(1) }
    }

    /// The stored form of the counter: its eight bytes, least significant first.
    pub fn encode(&self) -> (bytes: Vec<u8>)
        ensures
            bytes@ == le_bytes(self@),
            bytes@.len() == COUNTER_SIZE,
    {
        match borsh_encode_u64(self.count) {
            Some(bytes) => bytes,
            None => Vec::new(),
        }
    }

    /// Reads a counter from the front of `bytes`. Bytes after the eighth are
    /// ignored; fewer than eight are refused.
    pub fn decode(bytes: &[u8]) -> (result: Result<CounterAccount, CounterError>)
        ensures
            match result {
                Ok(counter) => decoded(bytes@) == Ok::<u64, CounterError>(counter@),
                Err(error) => decoded(bytes@) == Err::<u64, CounterError>(error),
            },
    {
        match borsh_decode_u64(bytes) {
            Some(count) => Ok(CounterAccount { count }),
            None => Err(CounterError::CorruptState),
        }
    }

    /// Writes the stored form of the counter over the first eight bytes of
    /// `data` and leaves the rest as it was. Data too short to hold a counter is
    /// refused and left unchanged.
    pub fn store(&self, data: &mut Vec<u8>) -> (result: Result<(), CounterError>)
        ensures
            old(data)@.len() >= COUNTER_SIZE ==> result is Ok && final(data)@ == stored(
                old(data)@,
                self@,
            ),
            old(data)@.len() < COUNTER_SIZE ==> result == Err::<(), CounterError>(
                CounterError::CorruptState,
            ) && final(data)@ == old(data)@,
    {
        if data.len() < COUNTER_SIZE {
            return Err(CounterError::CorruptState);
        }
        let bytes = self.encode();
        let mut i: usize = 0;
        while i < COUNTER_SIZE
            invariant
                i <= COUNTER_SIZE,
                bytes@ == le_bytes(self@),
                data@.len() == old(data)@.len(),
                data@.len() >= COUNTER_SIZE,
                forall|j: int| 0 <= j < i ==> data@[j] == bytes@[j],
                forall|j: int| i <= j < data@.len() ==> data@[j] == old(data)@[j],
            decreases COUNTER_SIZE - i,
        {
            data.set(i, bytes[i]);
            i += 1;
        }
        assert(data@ =~= stored(old(data)@, self@));
        Ok(())
    }
}

/// Account data after a counter was stored in it: the counter's eight bytes,
/// then whatever followed the eighth byte before.
pub open spec fn stored(data: Seq<u8>, count: u64) -> Seq<u8>
    recommends
        data.len() >= 8,
{
    le_bytes(count) + data.subrange(8, data.len() as int)
}

/// Decoding what was encoded gives the same counter, whatever follows the
/// eight bytes.
pub proof fn lemma_decode_encode(count: u64, trailing: Seq<u8>)
    ensures
        decoded(le_bytes(count) + trailing) == Ok::<u64, CounterError>(count),
{
    lemma_le_value_of_le_bytes(count);
    assert((le_bytes(count) + trailing).subrange(0, 8) =~= le_bytes(count));
}

/// Encoding what was decoded from eight bytes gives the same bytes.
pub proof fn lemma_encode_decode(bytes: Seq<u8>)
    requires
        bytes.len() == 8,
    ensures
        decoded(bytes) is Ok,
        le_bytes(decoded(bytes)->Ok_0) == bytes,
{
    lemma_le_bytes_of_le_value(bytes);
    assert(bytes.subrange(0, 8) =~= bytes);
}

/// A counter read back from data in which it was stored is the same counter.
pub proof fn lemma_decode_stored(data: Seq<u8>, count: u64)
    requires
        data.len() >= 8,
    ensures
        stored(data, count).len() == data.len(),
        decoded(stored(data, count)) == Ok::<u64, CounterError>(count),
{
    lemma_decode_encode(count, data.subrange(8, data.len() as int));
}

} // verus!
