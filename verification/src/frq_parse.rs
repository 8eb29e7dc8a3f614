//! The pitch sidecar of a recording: a little-endian binary file with the
//! average pitch at byte 12 and, from byte 36 on, a count and that many
//! records of a frequency and an amplitude.
//!
//! Pitches and amplitudes are IEEE-754 doubles; this module hands out their
//! 64 bits and leaves the arithmetic to the caller.

use vstd::prelude::*;

verus! {

/// Where the average pitch stands.
pub const AVG_FRQ_OFFSET: usize = 12;

/// Where the count of records stands.
pub const CHUNK_COUNT_OFFSET: usize = 36;

/// Where the first record stands.
pub const CHUNKS_OFFSET: usize = 40;

/// The size of a record: two doubles.
pub const CHUNK_LEN: usize = 16;

/// The 32-bit little-endian number at `at`.
pub open spec fn le_u32(b: Seq<u8>, at: int) -> u32 {
    (b[at] + b[at + 1] * 0x100 + b[at + 2] * 0x1_0000 + b[at + 3] * 0x100_0000) as u32
}

/// The 64-bit little-endian number at `at`.
pub open spec fn le_u64(b: Seq<u8>, at: int) -> u64 {
    (le_u32(b, at) + le_u32(b, at + 4) * 0x1_0000_0000) as u64
}

/// The bits of the average pitch; zero for a sidecar too short to hold it.
pub open spec fn avg_frq_bits(bytes: Seq<u8>) -> u64 {
    if bytes.len() >= AVG_FRQ_OFFSET + 8 {
        le_u64(bytes, AVG_FRQ_OFFSET as int)
    } else {
        0
    }
}

/// The number of records that the sidecar announces; zero for a sidecar too
/// short to hold the count.
pub open spec fn chunk_count(bytes: Seq<u8>) -> nat {
    if bytes.len() >= CHUNKS_OFFSET {
        le_u32(bytes, CHUNK_COUNT_OFFSET as int) as nat
    } else {
        0
    }
}

/// Whether the sidecar holds all the records that it announces.
pub open spec fn chunks_complete(bytes: Seq<u8>) -> bool {
    CHUNKS_OFFSET + CHUNK_LEN * chunk_count(bytes) <= bytes.len() || chunk_count(bytes) == 0
}

/// The bits of the frequency of record `i`.
pub open spec fn frq_bits_at(bytes: Seq<u8>, i: int) -> u64 {
    le_u64(bytes, CHUNKS_OFFSET + CHUNK_LEN * i)
}

/// The bits of the amplitude of record `i`.
pub open spec fn amp_bits_at(bytes: Seq<u8>, i: int) -> u64 {
    le_u64(bytes, CHUNKS_OFFSET + CHUNK_LEN * i + 8)
}

/// Reads a 32-bit little-endian number.
pub fn read_le_u32(bytes: &[u8], at: usize) -> (v: u32)
    requires
        at + 4 <= bytes@.len(),
    ensures
        v == le_u32(bytes@, at as int),
{
    let b0 = bytes[at];
    let b1 = bytes[at + 1];
    let b2 = bytes[at + 2];
    let b3 = bytes[at + 3];
    assert((b0 as u32) | ((b1 as u32) << 8) | ((b2 as u32) << 16) | ((b3 as u32) << 24) == (b0 as u32)
        + (b1 as u32) * 0x100 + (b2 as u32) * 0x1_0000 + (b3 as u32) * 0x100_0000) by (bit_vector);
    (b0 as u32) | ((b1 as u32) << 8) | ((b2 as u32) << 16) | ((b3 as u32) << 24)
}

/// Reads a 64-bit little-endian number.
pub fn read_le_u64(bytes: &[u8], at: usize) -> (v: u64)
    requires
        at + 8 <= bytes@.len(),
    ensures
        v == le_u64(bytes@, at as int),
{
    let end = bytes.len();
    assert(at + 8 <= end);
    let low = read_le_u32(bytes, at);
    let high = read_le_u32(bytes, at + 4);
    assert((low as u64) | ((high as u64) << 32) == (low as u64) + (high as u64) * 0x1_0000_0000)
        by (bit_vector);
    (low as u64) | ((high as u64) << 32)
}

/// The bits of the average pitch of a sidecar.
pub fn get_avg_frq_bits(bytes: &[u8]) -> (bits: u64)
    ensures
        bits == avg_frq_bits(bytes@),
{
    if bytes.len() >= AVG_FRQ_OFFSET + 8 {
        read_le_u64(bytes, AVG_FRQ_OFFSET)
    } else {
        0
    }
}

/// The bits of the frequencies and of the amplitudes of all records, or
/// `None` where the sidecar ends before the last record that it announces.
pub fn get_frq_amp_bits(bytes: &[u8]) -> (r: Option<(Vec<u64>, Vec<u64>)>)
    ensures
        r is Some <==> chunks_complete(bytes@),
        r is Some ==> {
            &&& r.unwrap().0@.len() == chunk_count(bytes@)
            &&& r.unwrap().1@.len() == chunk_count(bytes@)
            &&& forall|i: int|
                0 <= i < chunk_count(bytes@) ==> r.unwrap().0@[i] == frq_bits_at(bytes@, i)
                    && r.unwrap().1@[i] == amp_bits_at(bytes@, i)
        },
{
    let mut frqs: Vec<u64> = Vec::new();
    let mut amps: Vec<u64> = Vec::new();
    if bytes.len() < CHUNKS_OFFSET {
        return Some((frqs, amps));
    }
    let count = read_le_u32(bytes, CHUNK_COUNT_OFFSET);
    if count == 0 {
        return Some((frqs, amps));
    }
    if (bytes.len() - CHUNKS_OFFSET) / CHUNK_LEN < count as usize {
        return None;
    }
    let mut i: usize = 0;
    while i < count as usize
        invariant
            i <= count,
            count == chunk_count(bytes@),
            bytes@.len() <= usize::MAX,
            CHUNKS_OFFSET + CHUNK_LEN * count <= bytes@.len(),
            frqs@.len() == i,
            amps@.len() == i,
            forall|k: int|
                0 <= k < i ==> frqs@[k] == frq_bits_at(bytes@, k) && amps@[k] == amp_bits_at(
                    bytes@,
                    k,
                ),
        decreases count - i,
    {
        let at = CHUNKS_OFFSET + CHUNK_LEN * i;
        frqs.push(read_le_u64(bytes, at));
        amps.push(read_le_u64(bytes, at + 8));
        i += 1;
    }
    Some((frqs, amps))
}

/// The bits of the frequencies of all records.
pub fn get_frq_bits(bytes: &[u8]) -> (r: Option<Vec<u64>>)
    ensures
        r is Some <==> chunks_complete(bytes@),
        r is Some ==> r.unwrap()@.len() == chunk_count(bytes@) && forall|i: int|
            0 <= i < chunk_count(bytes@) ==> r.unwrap()@[i] == frq_bits_at(bytes@, i),
{
    match get_frq_amp_bits(bytes) {
        Some(pair) => Some(pair.0),
        None => None,
    }
}

/// The bits of the amplitudes of all records.
pub fn get_amp_bits(bytes: &[u8]) -> (r: Option<Vec<u64>>)
    ensures
        r is Some <==> chunks_complete(bytes@),
        r is Some ==> r.unwrap()@.len() == chunk_count(bytes@) && forall|i: int|
            0 <= i < chunk_count(bytes@) ==> r.unwrap()@[i] == amp_bits_at(bytes@, i),
{
    match get_frq_amp_bits(bytes) {
        Some(pair) => Some(pair.1),
        None => None,
    }
}

} // verus!
