//! The update record: the fields the client reads from one inbound message
//! and the rule by which they are found in its bytes.
//!
//! A record is a run of tagged fields. Six field numbers are read; every
//! other field is passed over. When a field occurs more than once, the last
//! occurrence counts. Fields that are absent keep their zero value.

use crate::wire::{
    as_signed32, delimited, lemma_varint_advances, low32, pass_field, read_delimited, read_tag,
    read_varint, read_word32, signed32, skip_field, tag, unzigzag, varint, word32,
    zigzag_decode, WIRE_DELIMITED, WIRE_FIXED32, WIRE_VARINT,
};
use vstd::prelude::*;
use vstd::slice::{slice_subrange, slice_to_vec};
use vstd::utf8::{decode_utf8, valid_utf8};

verus! {

/// Field number of the symbol, a UTF-8 string.
pub const FIELD_ID: u32 = 1;

/// Field number of the price, a four-byte IEEE 754 number.
pub const FIELD_PRICE: u32 = 2;

/// Field number of the time, a zigzag varint of seconds since the epoch.
pub const FIELD_TIME: u32 = 3;

/// Field number of the instrument's classification code, a varint.
pub const FIELD_QUOTE_TYPE: u32 = 6;

/// Field number of the trading session code, a varint.
pub const FIELD_MARKET_HOURS: u32 = 7;

/// Field number of the day's cumulative volume, a zigzag varint.
pub const FIELD_DAY_VOLUME: u32 = 9;

/// One update as it stands on the wire, before its codes are classified.
#[derive(Debug, Clone, PartialEq, Eq)]
pub struct RawUpdate {
    /// Symbol the update is about.
    pub id: String,
    /// Classification code of the instrument.
    pub quote_type: i32,
    /// Seconds since the epoch.
    pub time: i64,
    /// Trading session code.
    pub market_hours: i32,
    /// Bit pattern of the price, an IEEE 754 single-precision number.
    pub price_bits: u32,
    /// Cumulative volume of the day.
    pub day_volume: i64,
}

/// Mathematical value of a [`RawUpdate`].
pub struct RawUpdateView {
    pub id: Seq<char>,
    pub quote_type: i32,
    pub time: i64,
    pub market_hours: i32,
    pub price_bits: u32,
    pub day_volume: i64,
}

impl View for RawUpdate {
    type V = RawUpdateView;

    open spec fn view(&self) -> RawUpdateView {
        RawUpdateView {
            id: self.id@,
            quote_type: self.quote_type,
            time: self.time,
            market_hours: self.market_hours,
            price_bits: self.price_bits,
            day_volume: self.day_volume,
        }
    }
}

impl RawUpdateView {
    /// The record without any field: an empty symbol and zeros.
    pub open spec fn empty() -> RawUpdateView {
        RawUpdateView {
            id: Seq::empty(),
            quote_type: 0,
            time: 0,
            market_hours: 0,
            price_bits: 0,
            day_volume: 0,
        }
    }
}

/// The wire type that a field the record reads must have; `None` for the
/// numbers of fields it passes over.
pub open spec fn wire_of(number: u32) -> Option<u32> {
    if number == FIELD_ID {
        Some(WIRE_DELIMITED)
    } else if number == FIELD_PRICE {
        Some(WIRE_FIXED32)
    } else if number == FIELD_TIME || number == FIELD_QUOTE_TYPE || number == FIELD_MARKET_HOURS
        || number == FIELD_DAY_VOLUME {
        Some(WIRE_VARINT)
    } else {
        None
    }
}

/// The record with the varint `v` taken as its field `number`: the time
/// and the volume are zigzag codes, the two codes are signed 32-bit
/// integers.
pub open spec fn with_varint(acc: RawUpdateView, number: u32, v: u64) -> RawUpdateView {
    if number == FIELD_TIME {
        RawUpdateView { time: unzigzag(v), ..acc }
    } else if number == FIELD_QUOTE_TYPE {
        RawUpdateView { quote_type: as_signed32(low32(v)), ..acc }
    } else if number == FIELD_MARKET_HOURS {
        RawUpdateView { market_hours: as_signed32(low32(v)), ..acc }
    } else if number == FIELD_DAY_VOLUME {
        RawUpdateView { day_volume: unzigzag(v), ..acc }
    } else {
        acc
    }
}

/// The record after the field with number `number` and wire type `wire`
/// whose tag ends at `pos`, and the position after that field. A field
/// that the record reads must have the wire type of its kind, and the
/// symbol must be valid UTF-8; any other field is passed over.
pub open spec fn field(bytes: Seq<u8>, pos: int, number: u32, wire: u32, acc: RawUpdateView)
    -> Option<(RawUpdateView, int)> {
    match wire_of(number) {
        None => match skip_field(bytes, pos, wire) {
            Some(next) => Some((acc, next)),
            None => None,
        },
        Some(expected) => if wire != expected {
            None
        } else if number == FIELD_ID {
            match delimited(bytes, pos) {
                Some((start, end)) => if valid_utf8(bytes.subrange(start, end)) {
                    Some((RawUpdateView { id: decode_utf8(bytes.subrange(start, end)), ..acc }, end))
                } else {
                    None
                },
                None => None,
            }
        } else if number == FIELD_PRICE {
            match word32(bytes, pos) {
                Some((bits, next)) => Some((RawUpdateView { price_bits: bits, ..acc }, next)),
                None => None,
            }
        } else {
            match varint(bytes, pos) {
                Some((v, next)) => Some((with_varint(acc, number, v), next)),
                None => None,
            }
        },
    }
}

/// The record that the fields from `pos` to the end of `bytes` make of
/// `acc`, or `None` where one of them is malformed.
pub open spec fn fields(bytes: Seq<u8>, pos: int, acc: RawUpdateView) -> Option<RawUpdateView>
    decreases bytes.len() - pos,
{
    if pos >= bytes.len() {
        Some(acc)
    } else {
        match tag(bytes, pos) {
            Some((number, wire, next)) => match field(bytes, next, number, wire, acc) {
                Some((acc2, after)) => {
                    if pos < after <= bytes.len() {
                        fields(bytes, after, acc2)
                    } else {
                        None
                    }
                },
                None => None,
            },
            None => None,
        }
    }
}

/// The record that `bytes` encode, or `None` where they are malformed.
pub open spec fn record(bytes: Seq<u8>) -> Option<RawUpdateView> {
    fields(bytes, 0, RawUpdateView::empty())
}

/// `String::from_utf8` of the standard library: the string is returned
/// exactly when the bytes are valid UTF-8, and then holds the characters
/// they encode.
#[verifier::external_body]
fn utf8_text(bytes: Vec<u8>) -> (r: Option<String>)
    ensures
        r is Some <==> valid_utf8(bytes@),
        r matches Some(s) ==> s@ == decode_utf8(bytes@),
{
    match String::from_utf8(bytes) {
        Ok(s) => Some(s),
        Err(_) => None,
    }
}

impl RawUpdate {
    /// The record without any field.
    pub fn new() -> (r: RawUpdate)
        ensures
            r@ == RawUpdateView::empty(),
    {
        RawUpdate {
            id: String::new(),
            quote_type: 0,
            time: 0,
            market_hours: 0,
            price_bits: 0,
            day_volume: 0,
        }
    }
}

/// Reads the field with number `number` and wire type `wire` whose tag ends
/// at `pos` into `acc`, and returns the position after it.
pub fn read_field(bytes: &[u8], pos: usize, number: u32, wire: u32, acc: &mut RawUpdate) -> (r:
    Option<usize>)
    ensures
        match r {
            Some(next) => field(bytes@, pos as int, number, wire, old(acc)@) == Some(
                (final(acc)@, next as int),
            ) && next <= bytes@.len(),
            None => field(bytes@, pos as int, number, wire, old(acc)@) is None,
        },
{
    if number == FIELD_ID {
        if wire != WIRE_DELIMITED {
            return None;
        }
        match read_delimited(bytes, pos) {
            Some((start, end)) => match utf8_text(slice_to_vec(slice_subrange(bytes, start, end))) {
                Some(id) => {
                    acc.id = id;
                    Some(end)
                },
                None => None,
            },
            None => None,
        }
    } else if number == FIELD_PRICE {
        if wire != WIRE_FIXED32 {
            return None;
        }
        match read_word32(bytes, pos) {
            Some((bits, next)) => {
                acc.price_bits = bits;
                Some(next)
            },
            None => None,
        }
    } else if number == FIELD_TIME || number == FIELD_QUOTE_TYPE || number == FIELD_MARKET_HOURS
        || number == FIELD_DAY_VOLUME {
        if wire != WIRE_VARINT {
            return None;
        }
        proof {
            lemma_varint_advances(bytes@, pos as int, 0, 0);
        }
        match read_varint(bytes, pos) {
            Some((v, next)) => {
                if number == FIELD_TIME {
                    acc.time = zigzag_decode(v);
                } else if number == FIELD_QUOTE_TYPE {
                    acc.quote_type = signed32(v);
                } else if number == FIELD_MARKET_HOURS {
                    acc.market_hours = signed32(v);
                } else {
                    acc.day_volume = zigzag_decode(v);
                }
                Some(next)
            },
            None => None,
        }
    } else {
        pass_field(bytes, pos, wire)
    }
}

/// Reads the record that `bytes` encode.
pub fn parse_record(bytes: &[u8]) -> (r: Option<RawUpdate>)
    ensures
        match r {
            Some(update) => record(bytes@) == Some(update@),
            None => record(bytes@) is None,
        },
{
    let mut acc = RawUpdate::new();
    let mut pos: usize = 0;
    while pos < bytes.len()
        invariant
            pos <= bytes@.len(),
            record(bytes@) == fields(bytes@, pos as int, acc@),
        decreases bytes@.len() - pos,
    {
        proof {
            lemma_varint_advances(bytes@, pos as int, 0, 0);
        }
        match read_tag(bytes, pos) {
            Some((number, wire, next)) => match read_field(bytes, next, number, wire, &mut acc) {
                Some(after) => {
                    if after <= pos {
                        return None;
                    }
                    pos = after;
                },
                None => {
                    return None;
                },
            },
            None => {
                return None;
            },
        }
    }
    Some(acc)
}

} // verus!
