use protobuf::wire_format::WireType;
use protobuf::{rt, CodedInputStream, UnknownFields};
use quote_streamer::record::parse_record;
use quote_streamer::wire::{pass_field, read_tag, read_varint};
use quote_streamer::RawUpdate;

/// A small deterministic generator, so that a failure can be reproduced.
struct Dice(u64);

impl Dice {
    fn next(&mut self) -> u64 {
        self.0 = self.0.wrapping_mul(6364136223846793005).wrapping_add(1442695040888963407);
        self.0 >> 33
    }

    fn below(&mut self, bound: u64) -> u64 {
        self.next() % bound
    }

    fn bytes(&mut self, len: usize) -> Vec<u8> {
        (0..len).map(|_| self.next() as u8).collect()
    }
}

/// The record as the wire library's own runtime reads it, field by field.
fn reference(bytes: &[u8]) -> Option<RawUpdate> {
    let mut stream = CodedInputStream::from_bytes(bytes);
    let mut unknown = UnknownFields::new();
    let mut out = RawUpdate::new();
    while !stream.eof().ok()? {
        let (number, wire) = stream.read_tag_unpack().ok()?;
        match number {
            1 => rt::read_singular_proto3_string_into(wire, &mut stream, &mut out.id).ok()?,
            2 => {
                if wire != WireType::WireTypeFixed32 {
                    return None;
                }
                out.price_bits = stream.read_fixed32().ok()?;
            }
            3 | 9 => {
                if wire != WireType::WireTypeVarint {
                    return None;
                }
                let value = stream.read_sint64().ok()?;
                if number == 3 {
                    out.time = value;
                } else {
                    out.day_volume = value;
                }
            }
            6 | 7 => {
                if wire != WireType::WireTypeVarint {
                    return None;
                }
                let value = stream.read_int32().ok()?;
                if number == 6 {
                    out.quote_type = value;
                } else {
                    out.market_hours = value;
                }
            }
            _ => rt::read_unknown_or_skip_group(number, wire, &mut stream, &mut unknown).ok()?,
        }
    }
    Some(out)
}

fn push_varint(out: &mut Vec<u8>, mut value: u64) {
    while value >= 0x80 {
        out.push(value as u8 | 0x80);
        value >>= 7;
    }
    out.push(value as u8);
}

/// Bytes that look like a record: mostly well-formed fields, now and then
/// a wrong wire type, a group, text that is not UTF-8 or a cut.
fn likely_record(dice: &mut Dice) -> Vec<u8> {
    let numbers = [1u64, 1, 2, 3, 4, 6, 7, 9, 9, 15, 16, 1000, 0];
    let mut out = Vec::new();
    for _ in 0..dice.below(7) {
        let number = numbers[dice.below(numbers.len() as u64) as usize];
        let natural = match number {
            1 | 4 => 2,
            2 => 5,
            16 => 1,
            15 => 3,
            _ => 0,
        };
        let wire = if dice.below(8) == 0 { dice.below(8) } else { natural };
        push_varint(&mut out, number << 3 | wire);
        match wire {
            0 => {
                let value = if dice.below(2) == 0 { dice.below(300) } else { dice.next() << 31 | dice.next() };
                push_varint(&mut out, value);
            }
            1 => out.extend(dice.bytes(8)),
            2 => {
                let len = dice.below(6);
                push_varint(&mut out, len);
                if dice.below(6) == 0 {
                    out.extend(dice.bytes(len as usize));
                } else {
                    for _ in 0..len {
                        out.push(b'A' + dice.below(26) as u8);
                    }
                }
            }
            3 => {
                for _ in 0..dice.below(3) {
                    push_varint(&mut out, dice.below(20) << 3 | [0, 0, 2, 5, 1, 3][dice.below(6) as usize]);
                    let len = dice.below(3) as usize;
                    out.extend(dice.bytes(len));
                }
                if dice.below(4) != 0 {
                    push_varint(&mut out, dice.below(20) << 3 | 4);
                }
            }
            5 => out.extend(dice.bytes(4)),
            _ => {}
        }
    }
    if dice.below(5) == 0 && !out.is_empty() {
        let keep = dice.below(out.len() as u64) as usize;
        out.truncate(keep);
    }
    out
}

#[test]
fn records_are_read_as_the_wire_library_reads_them() {
    let mut dice = Dice(7);
    let mut accepted = 0;
    for _ in 0..20_000 {
        let bytes = likely_record(&mut dice);
        let expected = reference(&bytes);
        if expected.is_some() {
            accepted += 1;
        }
        assert_eq!(parse_record(&bytes), expected, "on {:?}", bytes);
    }
    assert!(accepted > 2_000 && accepted < 19_000, "accepted {}", accepted);
}

#[test]
fn random_bytes_are_read_as_the_wire_library_reads_them() {
    let mut dice = Dice(11);
    for _ in 0..20_000 {
        let len = dice.below(24) as usize;
        let bytes = dice.bytes(len);
        assert_eq!(parse_record(&bytes), reference(&bytes), "on {:?}", bytes);
    }
}

#[test]
fn varints_are_read_as_the_wire_library_reads_them() {
    let mut dice = Dice(13);
    for _ in 0..20_000 {
        let len = dice.below(13) as usize;
        let mut bytes = dice.bytes(len);
        if dice.below(2) == 0 {
            for byte in bytes.iter_mut() {
                *byte |= 0x80;
            }
            if let Some(last) = bytes.last_mut() {
                *last &= 0x7f;
            }
        }
        let mut stream = CodedInputStream::from_bytes(&bytes);
        let expected = match stream.read_raw_varint64() {
            Ok(value) => Some((value, stream.pos() as usize)),
            Err(_) => None,
        };
        assert_eq!(read_varint(&bytes, 0), expected, "on {:?}", bytes);
    }
}

#[test]
fn tags_are_read_as_the_wire_library_reads_them() {
    let mut dice = Dice(17);
    for _ in 0..20_000 {
        let len = dice.below(7) as usize;
        let bytes = dice.bytes(len);
        let mut stream = CodedInputStream::from_bytes(&bytes);
        let expected = match stream.read_tag_unpack() {
            Ok((number, wire)) => Some((number, wire as u32, stream.pos() as usize)),
            Err(_) => None,
        };
        assert_eq!(read_tag(&bytes, 0), expected, "on {:?}", bytes);
    }
}

#[test]
fn fields_are_skipped_as_the_wire_library_skips_them() {
    let kinds = [
        WireType::WireTypeVarint,
        WireType::WireTypeFixed64,
        WireType::WireTypeLengthDelimited,
        WireType::WireTypeStartGroup,
        WireType::WireTypeEndGroup,
        WireType::WireTypeFixed32,
    ];
    let mut dice = Dice(19);
    for _ in 0..20_000 {
        let bytes = if dice.below(2) == 0 {
            let len = dice.below(12) as usize;
            dice.bytes(len)
        } else {
            likely_record(&mut dice)
        };
        let kind = kinds[dice.below(6) as usize];
        let mut stream = CodedInputStream::from_bytes(&bytes);
        let mut unknown = UnknownFields::new();
        let expected = match rt::read_unknown_or_skip_group(1, kind, &mut stream, &mut unknown) {
            Ok(()) => Some(stream.pos() as usize),
            Err(_) => None,
        };
        assert_eq!(pass_field(&bytes, 0, kind as u32), expected, "on {:?} as {:?}", bytes, kind);
    }
}
