//! Primitives of the binary record format: base-128 varints, zigzag
//! integers, field tags, little-endian words and length-delimited payloads.
//!
//! Every reader is described by a spec function over the whole byte
//! sequence and a position; `None` means the bytes at that position are not
//! a well-formed item of the kind asked for.

use vstd::prelude::*;

verus! {

/// A varint occupies at most this many bytes.
pub const VARINT_MAX_BYTES: u64 = 10;

/// Wire type of a varint field.
pub const WIRE_VARINT: u32 = 0;

/// Wire type of an eight-byte field.
pub const WIRE_FIXED64: u32 = 1;

/// Wire type of a length-delimited field.
pub const WIRE_DELIMITED: u32 = 2;

/// Wire type of the tag that opens a group.
pub const WIRE_GROUP_START: u32 = 3;

/// Wire type of the tag that closes a group.
pub const WIRE_GROUP_END: u32 = 4;

/// Wire type of a four-byte field.
pub const WIRE_FIXED32: u32 = 5;

/// The bits that the `i`-th byte of a varint contributes to its value: the
/// low seven bits of the byte, moved `7 * i` places up. Bits moved past the
/// 64th place are lost.
pub open spec fn septet(b: u8, i: int) -> u64 {
    ((b & 0x7f) as u64) << ((7 * i) as u64)
}

/// The varint that starts at `pos`, given that its first `i` bytes have
/// been read and contributed `acc`: its value and the position after it.
pub open spec fn varint_from(bytes: Seq<u8>, pos: int, i: int, acc: u64) -> Option<(u64, int)>
    decreases VARINT_MAX_BYTES - i,
{
    if i < 0 || i >= VARINT_MAX_BYTES || pos < 0 || pos + i >= bytes.len() {
        None
    } else {
        let b = bytes[pos + i];
        let acc2 = acc | septet(b, i);
        if b < 0x80 {
            Some((acc2, pos + i + 1))
        } else {
            varint_from(bytes, pos, i + 1, acc2)
        }
    }
}

/// The varint that starts at `pos`: its value and the position after it.
/// A varint ends with the first byte below `0x80`; it is malformed when the
/// input ends before that byte or when ten bytes pass without it.
pub open spec fn varint(bytes: Seq<u8>, pos: int) -> Option<(u64, int)> {
    varint_from(bytes, pos, 0, 0)
}

/// The signed integer that the zigzag code `n` stands for: even codes are
/// the non-negative integers, odd codes the negative ones.
pub open spec fn unzigzag(n: u64) -> i64 {
    if n % 2 == 0 {
        (n / 2) as i64
    } else {
        (-(n / 2) - 1) as i64
    }
}

/// The low 32 bits of a varint.
pub open spec fn low32(v: u64) -> u32 {
    (v & 0xffff_ffff) as u32
}

/// The 32-bit two's complement integer with the bit pattern `u`.
pub open spec fn as_signed32(u: u32) -> i32 {
    if u < 0x8000_0000 {
        u as i32
    } else {
        (u - 0x1_0000_0000) as i32
    }
}

/// The field tag that starts at `pos`: field number, wire type and the
/// position after the tag. A tag is the low 32 bits of a varint; its low
/// three bits are the wire type, which must be one of the six known ones,
/// and the rest is the field number, which must not be zero.
pub open spec fn tag(bytes: Seq<u8>, pos: int) -> Option<(u32, u32, int)> {
    match varint(bytes, pos) {
        Some((v, next)) => {
            let t = low32(v);
            if (t & 7) <= WIRE_FIXED32 && (t >> 3) != 0 {
                Some((t >> 3, t & 7, next))
            } else {
                None
            }
        },
        None => None,
    }
}

/// The little-endian 32-bit word at `pos` and the position after it.
pub open spec fn word32(bytes: Seq<u8>, pos: int) -> Option<(u32, int)> {
    if 0 <= pos && pos + 4 <= bytes.len() {
        Some(
            (
                (bytes[pos] + 0x100 * bytes[pos + 1] + 0x1_0000 * bytes[pos + 2] + 0x100_0000
                    * bytes[pos + 3]) as u32,
                pos + 4,
            ),
        )
    } else {
        None
    }
}

/// The length-delimited payload at `pos`: the positions where it starts and
/// where it ends. The length is the low 32 bits of a varint, and that many
/// bytes must follow it.
pub open spec fn delimited(bytes: Seq<u8>, pos: int) -> Option<(int, int)> {
    match varint(bytes, pos) {
        Some((v, start)) => {
            if start + low32(v) <= bytes.len() {
                Some((start, start + low32(v)))
            } else {
                None
            }
        },
        None => None,
    }
}

/// The position after the value of wire type `wire` at `pos`, for the four
/// wire types that carry a value of their own.
pub open spec fn skip_plain(bytes: Seq<u8>, pos: int, wire: u32) -> Option<int> {
    if wire == WIRE_VARINT {
        match varint(bytes, pos) {
            Some((_, next)) => Some(next),
            None => None,
        }
    } else if wire == WIRE_FIXED64 {
        if 0 <= pos && pos + 8 <= bytes.len() {
            Some(pos + 8)
        } else {
            None
        }
    } else if wire == WIRE_DELIMITED {
        match delimited(bytes, pos) {
            Some((_, end)) => Some(end),
            None => None,
        }
    } else if wire == WIRE_FIXED32 {
        if 0 <= pos && pos + 4 <= bytes.len() {
            Some(pos + 4)
        } else {
            None
        }
    } else {
        None
    }
}

/// The position after the group whose opening tag ends at `pos`. The group
/// runs up to the first closing tag; the fields before it are skipped one
/// by one, and a group nested in it is malformed.
pub open spec fn skip_group(bytes: Seq<u8>, pos: int) -> Option<int>
    decreases bytes.len() - pos,
{
    match tag(bytes, pos) {
        Some((_, wire, next)) => {
            if wire == WIRE_GROUP_END {
                Some(next)
            } else {
                match skip_plain(bytes, next, wire) {
                    Some(after) => {
                        if pos < after <= bytes.len() {
                            skip_group(bytes, after)
                        } else {
                            None
                        }
                    },
                    None => None,
                }
            }
        },
        None => None,
    }
}

/// The position after an unread field of wire type `wire` whose tag ends at
/// `pos`.
pub open spec fn skip_field(bytes: Seq<u8>, pos: int, wire: u32) -> Option<int> {
    if wire == WIRE_GROUP_START {
        skip_group(bytes, pos)
    } else {
        skip_plain(bytes, pos, wire)
    }
}

/// A value read by an executable reader together with the next position,
/// as the spec functions give it.
pub open spec fn located<T>(r: Option<(T, usize)>) -> Option<(T, int)> {
    match r {
        Some((v, next)) => Some((v, next as int)),
        None => None,
    }
}

/// A position reached by an executable reader, as the spec functions give
/// it.
pub open spec fn reached(r: Option<usize>) -> Option<int> {
    match r {
        Some(next) => Some(next as int),
        None => None,
    }
}

/// A varint that is read ends after the position it starts at, inside the
/// input and at most ten bytes on.
pub proof fn lemma_varint_advances(bytes: Seq<u8>, pos: int, i: int, acc: u64)
    ensures
        varint_from(bytes, pos, i, acc) matches Some((_, next)) ==> pos + i < next <= bytes.len()
            && next <= pos + VARINT_MAX_BYTES,
    decreases VARINT_MAX_BYTES - i,
{
    if !(i < 0 || i >= VARINT_MAX_BYTES || pos < 0 || pos + i >= bytes.len()) {
        if bytes[pos + i] >= 0x80 {
            lemma_varint_advances(bytes, pos, i + 1, acc | septet(bytes[pos + i], i));
        }
    }
}

/// Reads the varint at `pos`.
pub fn read_varint(bytes: &[u8], pos: usize) -> (r: Option<(u64, usize)>)
    ensures
        located(r) == varint(bytes@, pos as int),
{
    let mut acc: u64 = 0;
    let mut i: u64 = 0;
    while i < VARINT_MAX_BYTES
        invariant
            i <= VARINT_MAX_BYTES,
            varint(bytes@, pos as int) == varint_from(bytes@, pos as int, i as int, acc),
        decreases VARINT_MAX_BYTES - i,
    {
        if pos >= bytes.len() || i as usize >= bytes.len() - pos {
            return None;
        }
        let b: u8 = bytes[pos + i as usize];
        acc = acc | (((b & 0x7f) as u64) << (7 * i));
        i = i + 1;
        if b < 0x80 {
            return Some((acc, pos + i as usize));
        }
    }
    None
}

/// Decodes a zigzag code.
pub fn zigzag_decode(n: u64) -> (r: i64)
    ensures
        r == unzigzag(n),
{
    let half: i64 = (n / 2) as i64;
    if n % 2 == 0 {
        half
    } else {
        -half - 1
    }
}

/// Reinterprets the low 32 bits of a varint as a signed integer.
pub fn signed32(v: u64) -> (r: i32)
    ensures
        r == as_signed32(low32(v)),
{
    let u: u32 = (v & 0xffff_ffff) as u32;
    if u < 0x8000_0000 {
        u as i32
    } else {
        let below: u32 = u - 0x8000_0000;
        (below as i32) + i32::MIN
    }
}

/// Reads the field tag at `pos`.
pub fn read_tag(bytes: &[u8], pos: usize) -> (r: Option<(u32, u32, usize)>)
    ensures
        match r {
            Some((field, wire, next)) => tag(bytes@, pos as int) == Some((field, wire, next as int)),
            None => tag(bytes@, pos as int) is None,
        },
{
    match read_varint(bytes, pos) {
        Some((v, next)) => {
            let t: u32 = (v & 0xffff_ffff) as u32;
            if (t & 7) <= WIRE_FIXED32 && (t >> 3) != 0 {
                Some((t >> 3, t & 7, next))
            } else {
                None
            }
        },
        None => None,
    }
}

/// Reads the little-endian 32-bit word at `pos`.
pub fn read_word32(bytes: &[u8], pos: usize) -> (r: Option<(u32, usize)>)
    ensures
        located(r) == word32(bytes@, pos as int),
{
    if pos > bytes.len() || bytes.len() - pos < 4 {
        return None;
    }
    let b0: u32 = bytes[pos] as u32;
    let b1: u32 = bytes[pos + 1] as u32;
    let b2: u32 = bytes[pos + 2] as u32;
    let b3: u32 = bytes[pos + 3] as u32;
    Some((b0 + 0x100 * b1 + 0x1_0000 * b2 + 0x100_0000 * b3, pos + 4))
}

/// Finds the length-delimited payload at `pos`.
pub fn read_delimited(bytes: &[u8], pos: usize) -> (r: Option<(usize, usize)>)
    ensures
        match r {
            Some((start, end)) => delimited(bytes@, pos as int) == Some((start as int, end as int))
                && start <= end <= bytes@.len(),
            None => delimited(bytes@, pos as int) is None,
        },
{
    match read_varint(bytes, pos) {
        Some((v, start)) => {
            proof {
                lemma_varint_advances(bytes@, pos as int, 0, 0);
            }
            let len: u32 = (v & 0xffff_ffff) as u32;
            if len as u64 <= (bytes.len() - start) as u64 {
                Some((start, start + len as usize))
            } else {
                None
            }
        },
        None => None,
    }
}

/// Skips a value of one of the four plain wire types.
pub fn pass_plain(bytes: &[u8], pos: usize, wire: u32) -> (r: Option<usize>)
    ensures
        reached(r) == skip_plain(bytes@, pos as int, wire),
        r matches Some(next) ==> pos <= next <= bytes@.len(),
{
    if wire == WIRE_VARINT {
        proof {
            lemma_varint_advances(bytes@, pos as int, 0, 0);
        }
        match read_varint(bytes, pos) {
            Some((_, next)) => Some(next),
            None => None,
        }
    } else if wire == WIRE_FIXED64 {
        if pos <= bytes.len() && bytes.len() - pos >= 8 {
            Some(pos + 8)
        } else {
            None
        }
    } else if wire == WIRE_DELIMITED {
        proof {
            lemma_varint_advances(bytes@, pos as int, 0, 0);
        }
        match read_delimited(bytes, pos) {
            Some((_, end)) => Some(end),
            None => None,
        }
    } else if wire == WIRE_FIXED32 {
        if pos <= bytes.len() && bytes.len() - pos >= 4 {
            Some(pos + 4)
        } else {
            None
        }
    } else {
        None
    }
}

/// Skips the group whose opening tag ends at `pos`.
pub fn pass_group(bytes: &[u8], pos: usize) -> (r: Option<usize>)
    ensures
        reached(r) == skip_group(bytes@, pos as int),
        r matches Some(next) ==> pos < next <= bytes@.len(),
{
    let mut at: usize = pos;
    loop
        invariant
            pos <= at,
            skip_group(bytes@, pos as int) == skip_group(bytes@, at as int),
        decreases bytes@.len() - at,
    {
        proof {
            lemma_varint_advances(bytes@, at as int, 0, 0);
        }
        match read_tag(bytes, at) {
            Some((_, wire, next)) => {
                if wire == WIRE_GROUP_END {
                    return Some(next);
                }
                match pass_plain(bytes, next, wire) {
                    Some(after) => {
                        at = after;
                    },
                    None => {
                        return None;
                    },
                }
            },
            None => {
                return None;
            },
        }
    }
}

/// Skips an unread field of wire type `wire` whose tag ends at `pos`.
pub fn pass_field(bytes: &[u8], pos: usize, wire: u32) -> (r: Option<usize>)
    ensures
        reached(r) == skip_field(bytes@, pos as int, wire),
        r matches Some(next) ==> pos <= next <= bytes@.len(),
{
    if wire == WIRE_GROUP_START {
        pass_group(bytes, pos)
    } else {
        pass_plain(bytes, pos, wire)
    }
}

} // verus!
