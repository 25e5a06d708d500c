//! The canonical encoding of a record, its writer, and the proof that
//! reading it gives the record back.
//!
//! The encoding is what a writer of the record format produces: the six
//! fields in the order of their numbers, each once, varints in their
//! shortest form.

use crate::decoder::{decoded, payload, DecodeError};
use crate::record::{
    field, fields, record, wire_of, with_varint, RawUpdate, RawUpdateView, FIELD_DAY_VOLUME, FIELD_ID,
    FIELD_MARKET_HOURS, FIELD_PRICE, FIELD_QUOTE_TYPE, FIELD_TIME,
};
use crate::wire::{
    as_signed32, delimited, low32, septet, tag, unzigzag, varint, varint_from, word32,
    VARINT_MAX_BYTES, WIRE_DELIMITED, WIRE_FIXED32, WIRE_VARINT,
};
use vstd::prelude::*;
use vstd::utf8::encode_utf8;

verus! {

/// The shortest varint with the value `v`: seven bits to a byte, lowest
/// first, every byte but the last marked with its high bit.
pub open spec fn varint_bytes(v: u64) -> Seq<u8>
    decreases v,
{
    if v < 0x80 {
        seq![v as u8]
    } else {
        seq![(v % 0x80 + 0x80) as u8] + varint_bytes(v / 0x80)
    }
}

/// The zigzag code of `n`.
pub open spec fn zigzag(n: i64) -> u64 {
    if n >= 0 {
        (2 * n) as u64
    } else {
        (-2 * n - 1) as u64
    }
}

/// The 64-bit two's complement pattern of `c`, as which a signed 32-bit
/// integer is written.
pub open spec fn extended(c: i32) -> u64 {
    if c >= 0 {
        c as u64
    } else {
        (c + 0x1_0000_0000_0000_0000) as u64
    }
}

/// The tag of a field.
pub open spec fn tag_bytes(number: u32, wire: u32) -> Seq<u8> {
    varint_bytes((8 * number + wire) as u64)
}

/// The four bytes of a 32-bit word, lowest first.
pub open spec fn word32_bytes(w: u32) -> Seq<u8> {
    seq![
        (w % 0x100) as u8,
        (w / 0x100 % 0x100) as u8,
        (w / 0x1_0000 % 0x100) as u8,
        (w / 0x100_0000) as u8,
    ]
}

/// A field that holds a varint.
pub open spec fn varint_field(number: u32, v: u64) -> Seq<u8> {
    tag_bytes(number, WIRE_VARINT) + varint_bytes(v)
}

/// The canonical encoding of a record.
pub open spec fn encoded(update: RawUpdateView) -> Seq<u8> {
    tag_bytes(FIELD_ID, WIRE_DELIMITED) + varint_bytes(encode_utf8(update.id).len() as u64)
        + encode_utf8(update.id) + tag_bytes(FIELD_PRICE, WIRE_FIXED32) + word32_bytes(
        update.price_bits,
    ) + varint_field(FIELD_TIME, zigzag(update.time)) + varint_field(
        FIELD_QUOTE_TYPE,
        extended(update.quote_type),
    ) + varint_field(FIELD_MARKET_HOURS, extended(update.market_hours)) + varint_field(
        FIELD_DAY_VOLUME,
        zigzag(update.day_volume),
    )
}

/// Appends the shortest varint of `v`.
pub fn write_varint(out: &mut Vec<u8>, v: u64)
    ensures
        final(out)@ == old(out)@ + varint_bytes(v),
{
    let ghost start = out@;
    let mut rest: u64 = v;
    while rest >= 0x80
        invariant
            out@ + varint_bytes(rest) == start + varint_bytes(v),
        decreases rest,
    {
        let ghost before = out@;
        let first: u8 = (rest % 0x80 + 0x80) as u8;
        out.push(first);
        assert(out@ + varint_bytes(rest / 0x80) =~= before + varint_bytes(rest));
        rest = rest / 0x80;
    }
    let ghost before = out@;
    out.push(rest as u8);
    assert(out@ =~= before + varint_bytes(rest));
}

/// Appends the tag of a field.
pub fn write_tag(out: &mut Vec<u8>, number: u32, wire: u32)
    ensures
        final(out)@ == old(out)@ + tag_bytes(number, wire),
{
    write_varint(out, 8 * (number as u64) + wire as u64);
}

/// Appends the four bytes of a word, lowest first.
pub fn write_word32(out: &mut Vec<u8>, w: u32)
    ensures
        final(out)@ == old(out)@ + word32_bytes(w),
{
    let ghost start = out@;
    out.push((w % 0x100) as u8);
    out.push((w / 0x100 % 0x100) as u8);
    out.push((w / 0x1_0000 % 0x100) as u8);
    out.push((w / 0x100_0000) as u8);
    assert(out@ =~= start + word32_bytes(w));
}

/// Computes the zigzag code of `n`.
pub fn zigzag_encode(n: i64) -> (r: u64)
    ensures
        r == zigzag(n),
{
    if n >= 0 {
        2 * (n as u64)
    } else {
        2 * ((-(n + 1)) as u64) + 1
    }
}

/// Computes the pattern as which a signed 32-bit integer is written.
pub fn extend32(c: i32) -> (r: u64)
    ensures
        r == extended(c),
{
    if c >= 0 {
        c as u64
    } else {
        u64::MAX - ((-(c as i64) - 1) as u64)
    }
}

/// Writes the canonical encoding of a record. A symbol whose UTF-8 form
/// is too long for its length to be written in 32 bits has none.
pub fn encode(update: &RawUpdate) -> (r: Option<Vec<u8>>)
    ensures
        match r {
            Some(bytes) => bytes@ == encoded(update@) && encode_utf8(update@.id).len()
                <= u32::MAX,
            None => encode_utf8(update@.id).len() > u32::MAX,
        },
{
    let text = update.id.as_str().as_bytes();
    if text.len() > 0xffff_ffff {
        return None;
    }
    let mut out: Vec<u8> = Vec::new();
    write_tag(&mut out, FIELD_ID, WIRE_DELIMITED);
    write_varint(&mut out, text.len() as u64);
    out.extend_from_slice(text);
    write_tag(&mut out, FIELD_PRICE, WIRE_FIXED32);
    write_word32(&mut out, update.price_bits);
    write_tag(&mut out, FIELD_TIME, WIRE_VARINT);
    write_varint(&mut out, zigzag_encode(update.time));
    write_tag(&mut out, FIELD_QUOTE_TYPE, WIRE_VARINT);
    write_varint(&mut out, extend32(update.quote_type));
    write_tag(&mut out, FIELD_MARKET_HOURS, WIRE_VARINT);
    write_varint(&mut out, extend32(update.market_hours));
    write_tag(&mut out, FIELD_DAY_VOLUME, WIRE_VARINT);
    write_varint(&mut out, zigzag_encode(update.day_volume));
    assert(out@ =~= encoded(update@));
    Some(out)
}

/// `part` stands in `bytes` at `pos`.
pub open spec fn stands_at(bytes: Seq<u8>, pos: int, part: Seq<u8>) -> bool {
    &&& 0 <= pos
    &&& pos + part.len() <= bytes.len()
    &&& forall|k: int| 0 <= k < part.len() ==> bytes[pos + k] == #[trigger] part[k]
}

/// Where two parts stand one after the other, each of them stands.
pub proof fn lemma_stands_split(bytes: Seq<u8>, pos: int, first: Seq<u8>, second: Seq<u8>)
    requires
        stands_at(bytes, pos, first + second),
    ensures
        stands_at(bytes, pos, first),
        stands_at(bytes, pos + first.len(), second),
{
    let both = first + second;
    assert forall|k: int| 0 <= k < first.len() implies bytes[pos + k] == #[trigger] first[k] by {
        assert(both[k] == first[k]);
    }
    assert forall|k: int| 0 <= k < second.len() implies bytes[pos + first.len() + k]
        == #[trigger] second[k] by {
        assert(both[first.len() + k] == second[k]);
    }
}

/// A shortest varint has one to ten bytes.
pub proof fn lemma_varint_bytes_len(v: u64)
    ensures
        1 <= varint_bytes(v).len() <= VARINT_MAX_BYTES,
        v < 0x80 ==> varint_bytes(v).len() == 1,
{
    assert(u64::MAX >> 0 == u64::MAX) by (bit_vector);
    lemma_varint_bytes_bound(v, 0);
}

/// A value that fits in the bits left after `i` bytes has a shortest
/// varint of at most `10 - i` bytes.
proof fn lemma_varint_bytes_bound(v: u64, i: int)
    requires
        0 <= i < 10,
        v <= u64::MAX >> ((7 * i) as u64),
    ensures
        1 <= varint_bytes(v).len() <= 10 - i,
        v < 0x80 ==> varint_bytes(v).len() == 1,
    decreases v,
{
    if v >= 0x80 {
        let s: u64 = (7 * i) as u64;
        assert(s <= 63 && v >= 0x80 && v <= u64::MAX >> s ==> s <= 56 && v / 0x80 <= u64::MAX >> (
        s + 7) as u64) by (bit_vector);
        lemma_varint_bytes_bound(v / 0x80, i + 1);
    }
}

/// Reading the bytes of a shortest varint gives its value: after `i`
/// bytes, with `acc` read so far, the rest `w` of the value is added above
/// the bits read.
proof fn lemma_varint_from(bytes: Seq<u8>, pos: int, i: int, acc: u64, w: u64)
    requires
        0 <= i < 10,
        w <= u64::MAX >> ((7 * i) as u64),
        stands_at(bytes, pos + i, varint_bytes(w)),
        0 <= pos,
    ensures
        varint_from(bytes, pos, i, acc) == Some(
            (acc | (w << ((7 * i) as u64)), pos + i + varint_bytes(w).len()),
        ),
    decreases w,
{
    let s: u64 = (7 * i) as u64;
    let b = bytes[pos + i];
    assert(varint_bytes(w).len() >= 1) by {
        lemma_varint_bytes_bound(w, i);
    }
    assert(b == varint_bytes(w)[0]);
    if w < 0x80 {
        assert(b == w as u8);
        assert(w < 0x80 && s <= 63 ==> ((((w as u8) & 0x7f) as u64) << s) == w << s)
            by (bit_vector);
    } else {
        assert(b == (w % 0x80 + 0x80) as u8);
        let rest: u64 = w / 0x80;
        let first: u8 = (w % 0x80 + 0x80) as u8;
        assert(first >= 0x80) by (bit_vector)
            requires
                first == (w % 0x80 + 0x80) as u8,
        ;
        assert(s <= 63 && w >= 0x80 && w <= u64::MAX >> s ==> s <= 56 && w / 0x80 <= u64::MAX >> (
        s + 7) as u64) by (bit_vector);
        assert(stands_at(bytes, pos + i + 1, varint_bytes(rest))) by {
            lemma_stands_split(bytes, pos + i, seq![first], varint_bytes(rest));
        }
        lemma_varint_from(bytes, pos, i + 1, acc | septet(b, i), rest);
        assert(s <= 56 ==> (acc | ((((w % 0x80 + 0x80) as u8 & 0x7f) as u64) << s)) | ((w / 0x80)
            << (s + 7) as u64) == acc | (w << s)) by (bit_vector);
    }
}

/// Reading the shortest varint of `v` gives `v`.
pub proof fn lemma_varint_read_back(bytes: Seq<u8>, pos: int, v: u64)
    requires
        stands_at(bytes, pos, varint_bytes(v)),
    ensures
        varint(bytes, pos) == Some((v, pos + varint_bytes(v).len())),
{
    assert(u64::MAX >> 0 == u64::MAX) by (bit_vector);
    lemma_varint_from(bytes, pos, 0, 0, v);
    assert(0u64 | (v << 0) == v) by (bit_vector);
}

/// Reading the zigzag code of `n` gives `n`.
pub proof fn lemma_zigzag_read_back(n: i64)
    ensures
        unzigzag(zigzag(n)) == n,
{
}

/// Reading the pattern as which `c` is written gives `c`.
pub proof fn lemma_extended_read_back(c: i32)
    ensures
        as_signed32(low32(extended(c))) == c,
{
    let x = extended(c);
    if c >= 0 {
        assert(x < 0x8000_0000 ==> (x & 0xffff_ffff) == x) by (bit_vector);
    } else {
        let low: u64 = (c + 0x1_0000_0000) as u64;
        assert(x == 0xffff_ffff_0000_0000 + low);
        assert(low < 0x1_0000_0000 && x == 0xffff_ffff_0000_0000 + low ==> (x & 0xffff_ffff)
            == low) by (bit_vector);
    }
}

/// Reading the tag of a field gives its number and wire type.
pub proof fn lemma_tag_read_back(bytes: Seq<u8>, pos: int, number: u32, wire: u32)
    requires
        0 < number < 0x2000_0000,
        wire <= WIRE_FIXED32,
        stands_at(bytes, pos, tag_bytes(number, wire)),
    ensures
        tag(bytes, pos) == Some((number, wire, pos + tag_bytes(number, wire).len())),
{
    let v: u64 = (8 * number + wire) as u64;
    lemma_varint_read_back(bytes, pos, v);
    let t = low32(v);
    assert(v < 0x1_0000_0000 ==> (v & 0xffff_ffff) == v) by (bit_vector);
    assert(t == 8 * number + wire);
    assert(number < 0x2000_0000 && wire <= 5 && t == 8 * number + wire ==> (t & 7) == wire && (t
        >> 3) == number) by (bit_vector);
}

/// Reading the bytes of a word gives the word.
pub proof fn lemma_word32_read_back(bytes: Seq<u8>, pos: int, w: u32)
    requires
        stands_at(bytes, pos, word32_bytes(w)),
    ensures
        word32(bytes, pos) == Some((w, pos + 4)),
{
    let part = word32_bytes(w);
    assert(bytes[pos] == part[0]);
    assert(bytes[pos + 1] == part[1]);
    assert(bytes[pos + 2] == part[2]);
    assert(bytes[pos + 3] == part[3]);
}

/// A varint field of the record is read as the varint it holds.
proof fn lemma_varint_field(bytes: Seq<u8>, pos: int, number: u32, v: u64, acc: RawUpdateView)
    requires
        wire_of(number) == Some(WIRE_VARINT),
        stands_at(bytes, pos, varint_field(number, v)),
    ensures
        pos + varint_field(number, v).len() <= bytes.len(),
        fields(bytes, pos, acc) == fields(
            bytes,
            pos + varint_field(number, v).len(),
            with_varint(acc, number, v),
        ),
{
    let head = tag_bytes(number, WIRE_VARINT);
    lemma_stands_split(bytes, pos, head, varint_bytes(v));
    lemma_varint_bytes_len(v);
    lemma_tag_read_back(bytes, pos, number, WIRE_VARINT);
    lemma_varint_read_back(bytes, pos + head.len(), v);
    lemma_varint_bytes_len((8 * number + WIRE_VARINT) as u64);
}

/// Round trip: the canonical encoding of a record is read back as that
/// record, field for field, whatever the fields hold. The symbol must be
/// short enough for its length to be written in 32 bits.
pub proof fn lemma_record_read_back(update: RawUpdateView)
    requires
        encode_utf8(update.id).len() <= u32::MAX,
    ensures
        record(encoded(update)) == Some(update),
{
    let bytes = encoded(update);
    let text = encode_utf8(update.id);
    let id_tag = tag_bytes(FIELD_ID, WIRE_DELIMITED);
    let id_len = varint_bytes(text.len() as u64);
    let price_tag = tag_bytes(FIELD_PRICE, WIRE_FIXED32);
    let price = word32_bytes(update.price_bits);
    let time = varint_field(FIELD_TIME, zigzag(update.time));
    let kind = varint_field(FIELD_QUOTE_TYPE, extended(update.quote_type));
    let hours = varint_field(FIELD_MARKET_HOURS, extended(update.market_hours));
    let volume = varint_field(FIELD_DAY_VOLUME, zigzag(update.day_volume));
    let empty = RawUpdateView::empty();

    // where each part stands
    assert(stands_at(bytes, 0, bytes));
    lemma_stands_split(bytes, 0, id_tag + id_len + text + price_tag + price + time + kind + hours, volume);
    lemma_stands_split(bytes, 0, id_tag + id_len + text + price_tag + price + time + kind, hours);
    lemma_stands_split(bytes, 0, id_tag + id_len + text + price_tag + price + time, kind);
    lemma_stands_split(bytes, 0, id_tag + id_len + text + price_tag + price, time);
    lemma_stands_split(bytes, 0, id_tag + id_len + text + price_tag, price);
    lemma_stands_split(bytes, 0, id_tag + id_len + text, price_tag);
    lemma_stands_split(bytes, 0, id_tag + id_len, text);
    lemma_stands_split(bytes, 0, id_tag, id_len);
    let after_id_tag = id_tag.len() as int;
    let text_start = after_id_tag + id_len.len();
    let text_end = text_start + text.len();
    let price_start = text_end + price_tag.len();
    let price_end = price_start + price.len();
    let time_end = price_end + time.len();
    let kind_end = time_end + kind.len();
    let hours_end = kind_end + hours.len();
    let volume_end = hours_end + volume.len();
    assert(volume_end == bytes.len());

    // the symbol
    lemma_varint_bytes_len((8 * FIELD_ID + WIRE_DELIMITED) as u64);
    lemma_varint_bytes_len(text.len() as u64);
    lemma_tag_read_back(bytes, 0, FIELD_ID, WIRE_DELIMITED);
    lemma_varint_read_back(bytes, after_id_tag, text.len() as u64);
    let n: u64 = text.len() as u64;
    assert(n < 0x1_0000_0000 ==> (n & 0xffff_ffff) == n) by (bit_vector);
    assert(delimited(bytes, after_id_tag) == Some((text_start, text_end)));
    assert(bytes.subrange(text_start, text_end) =~= text);
    vstd::utf8::encode_utf8_valid_utf8(update.id);
    vstd::utf8::encode_utf8_decode_utf8(update.id);
    let with_id = RawUpdateView { id: update.id, ..empty };
    assert(field(bytes, after_id_tag, FIELD_ID, WIRE_DELIMITED, empty) == Some((with_id, text_end)));
    assert(fields(bytes, 0, empty) == fields(bytes, text_end, with_id));

    // the price
    lemma_varint_bytes_len((8 * FIELD_PRICE + WIRE_FIXED32) as u64);
    lemma_tag_read_back(bytes, text_end, FIELD_PRICE, WIRE_FIXED32);
    lemma_word32_read_back(bytes, price_start, update.price_bits);
    let with_price = RawUpdateView { price_bits: update.price_bits, ..with_id };
    assert(field(bytes, price_start, FIELD_PRICE, WIRE_FIXED32, with_id) == Some((with_price, price_end)));
    assert(fields(bytes, text_end, with_id) == fields(bytes, price_end, with_price));

    // the four varint fields
    lemma_varint_field(bytes, price_end, FIELD_TIME, zigzag(update.time), with_price);
    lemma_zigzag_read_back(update.time);
    let with_time = RawUpdateView { time: update.time, ..with_price };
    lemma_varint_field(bytes, time_end, FIELD_QUOTE_TYPE, extended(update.quote_type), with_time);
    lemma_extended_read_back(update.quote_type);
    let with_kind = RawUpdateView { quote_type: update.quote_type, ..with_time };
    lemma_varint_field(bytes, kind_end, FIELD_MARKET_HOURS, extended(update.market_hours), with_kind);
    lemma_extended_read_back(update.market_hours);
    let with_hours = RawUpdateView { market_hours: update.market_hours, ..with_kind };
    lemma_varint_field(bytes, hours_end, FIELD_DAY_VOLUME, zigzag(update.day_volume), with_hours);
    lemma_zigzag_read_back(update.day_volume);
    let with_volume = RawUpdateView { day_volume: update.day_volume, ..with_hours };
    assert(with_volume == update);
    assert(fields(bytes, volume_end, with_volume) == Some(with_volume));
}

/// Round trip through a frame: a frame whose payload is the canonical
/// encoding of a record is decoded to that record.
pub proof fn lemma_frame_read_back(frame: Seq<u8>, update: RawUpdateView)
    requires
        encode_utf8(update.id).len() <= u32::MAX,
        payload(frame) == Some(encoded(update)),
    ensures
        decoded(frame) == Ok::<RawUpdateView, DecodeError>(update),
{
    lemma_record_read_back(update);
}

} // verus!
