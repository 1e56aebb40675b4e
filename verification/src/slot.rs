//! Hash slots: which of the 16384 partitions of the keyspace a key falls in.

use crate::text::{first_index_from, lemma_first_index_from};
use vstd::prelude::*;

verus! {

/// Number of hash slots in a cluster.
pub const SLOT_SIZE: u16 = 16384;

/// One shift of the CRC register with the XMODEM polynomial `0x1021`.
pub open spec fn crc_shift(crc: u16) -> u16 {
    if crc & 0x8000 != 0 {
        (crc << 1) ^ 0x1021
    } else {
        crc << 1
    }
}

/// The CRC register after one more byte.
pub open spec fn crc_byte(crc: u16, byte: u8) -> u16 {
    let c0 = crc ^ ((byte as u16) << 8);
    crc_shift(crc_shift(crc_shift(crc_shift(crc_shift(crc_shift(crc_shift(crc_shift(c0))))))))
}

/// CRC16-XMODEM of a byte string: polynomial `0x1021`, initial value zero,
/// most significant bit first.
pub open spec fn crc16(data: Seq<u8>) -> u16
    decreases data.len(),
{
    if data.len() == 0 {
        0
    } else {
        crc_byte(crc16(data.drop_last()), data.last())
    }
}

/// The part of a key that is hashed when the key carries a hash tag: what
/// stands between the first `{` and the next `}`, unless that is empty.
pub open spec fn hashtag(key: Seq<u8>) -> Option<Seq<u8>> {
    match first_index_from(key, 0x7bu8, 0) {
        None => None,
        Some(open) => match first_index_from(key, 0x7du8, open + 1) {
            None => None,
            Some(close) => if close == open + 1 {
                None
            } else {
                Some(key.subrange(open + 1, close))
            },
        },
    }
}

/// The bytes of a key that decide its slot.
pub open spec fn hashed_part(key: Seq<u8>) -> Seq<u8> {
    match hashtag(key) {
        Some(tag) => tag,
        None => key,
    }
}

/// The slot of a key.
pub open spec fn key_slot(key: Seq<u8>) -> u16 {
    crc16(hashed_part(key)) % SLOT_SIZE
}

fn shift(crc: u16) -> (r: u16)
    ensures
        r == crc_shift(crc),
{
    if crc & 0x8000 != 0 {
        (crc << 1) ^ 0x1021
    } else {
        crc << 1
    }
}

/// CRC16-XMODEM of `data[from..to]`.
pub fn crc16_of(data: &[u8], from: usize, to: usize) -> (crc: u16)
    requires
        from <= to <= data.len(),
    ensures
        crc == crc16(data@.subrange(from as int, to as int)),
{
    let mut crc: u16 = 0;
    let mut i = from;
    while i < to
        invariant
            from <= i <= to <= data.len(),
            crc == crc16(data@.subrange(from as int, i as int)),
        decreases to - i,
    {
        let ghost next = data@.subrange(from as int, i + 1);
        assert(next.drop_last() =~= data@.subrange(from as int, i as int));
        let mut c = crc ^ ((data[i] as u16) << 8);
        c = shift(c);
        c = shift(c);
        c = shift(c);
        c = shift(c);
        c = shift(c);
        c = shift(c);
        c = shift(c);
        c = shift(c);
        crc = c;
        i += 1;
    }
    crc
}

fn position(data: &[u8], byte: u8, from: usize) -> (r: Option<usize>)
    requires
        from <= data.len(),
    ensures
        match r {
            Some(i) => first_index_from(data@, byte, from as int) == Some(i as int),
            None => first_index_from(data@, byte, from as int) is None,
        },
{
    let mut i = from;
    while i < data.len()
        invariant
            from <= i <= data.len(),
            first_index_from(data@, byte, from as int) == first_index_from(data@, byte, i as int),
        decreases data.len() - i,
    {
        if data[i] == byte {
            return Some(i);
        }
        i += 1;
    }
    None
}

/// The range of `key` that is hashed: the hash tag where there is one, the
/// whole key otherwise.
pub fn hashed_range(key: &[u8]) -> (r: (usize, usize))
    ensures
        r.0 <= r.1 <= key.len(),
        key@.subrange(r.0 as int, r.1 as int) == hashed_part(key@),
{
    proof {
        lemma_first_index_from(key@, 0x7bu8, 0);
    }
    match position(key, 0x7b, 0) {
        None => (0, key.len()),
        Some(open) => {
            proof {
                lemma_first_index_from(key@, 0x7du8, open + 1);
            }
            match position(key, 0x7d, open + 1) {
                None => (0, key.len()),
                Some(close) => if close == open + 1 {
                    (0, key.len())
                } else {
                    (open + 1, close)
                },
            }
        },
    }
}

/// The slot of a key.
pub fn get_slot(key: &[u8]) -> (slot: u16)
    ensures
        slot == key_slot(key@),
        slot < SLOT_SIZE,
{
    let (from, to) = hashed_range(key);
    crc16_of(key, from, to) % SLOT_SIZE
}

} // verus!
