use yodesk::cursor::ByteCursor;
use yodesk::error::ParseError;
use yodesk::format::Tag;
use yodesk::parser::{
    generic_section_reader, parse_stream, section_size_reader, sound_filename_size_reader,
    sound_section_reader, version_reader, zone_reader, zone_size_reader, Section, SoundEntry,
    ZoneEntry,
};

fn stream(parts: &[&[u8]]) -> Vec<u8> {
    let mut out: Vec<u8> = Vec::new();
    for p in parts {
        out.extend_from_slice(p);
    }
    out
}

#[test]
fn cursor_read_n_exact_and_truncated() {
    let mut c = ByteCursor::new(vec![1, 2, 3]);
    assert_eq!(c.read_n(2), Ok(vec![1, 2]));
    assert_eq!(c.position(), 2);
    assert_eq!(c.read_n(2), Err(ParseError::TruncatedInput));
    assert_eq!(c.position(), 2);
    assert_eq!(c.remaining(), 1);
    assert_eq!(c.read_n(1), Ok(vec![3]));
    assert_eq!(c.position(), 3);
}

#[test]
fn minimal_version_stream() {
    let data = stream(&[b"VERS", &[0x00, 0x00, 0x00, 0x01], b"ENDF"]);
    let mut c = ByteCursor::new(data);
    let sections = parse_stream(&mut c).unwrap();
    assert_eq!(sections, vec![Section::Version(1)]);
    assert_eq!(c.position(), 12);
    assert_eq!(c.remaining(), 0);
}

#[test]
fn endf_only_stream() {
    let mut c = ByteCursor::new(b"ENDF".to_vec());
    assert_eq!(parse_stream(&mut c), Ok(vec![]));
    assert_eq!(c.position(), 4);
}

#[test]
fn nothing_after_endf_is_read() {
    let data = stream(&[b"ENDF", b"VERSjunk"]);
    let mut c = ByteCursor::new(data);
    assert_eq!(parse_stream(&mut c), Ok(vec![]));
    assert_eq!(c.position(), 4);
}

#[test]
fn empty_input_is_truncated() {
    let mut c = ByteCursor::new(Vec::new());
    assert_eq!(parse_stream(&mut c), Err(ParseError::TruncatedInput));
}

#[test]
fn short_tag_is_truncated() {
    let mut c = ByteCursor::new(b"VER".to_vec());
    assert_eq!(parse_stream(&mut c), Err(ParseError::TruncatedInput));
}

#[test]
fn truncated_version_field() {
    let data = stream(&[b"VERS", &[0x00, 0x01]]);
    let mut c = ByteCursor::new(data);
    assert_eq!(parse_stream(&mut c), Err(ParseError::TruncatedInput));
}

#[test]
fn unknown_tag_consumes_nothing_further() {
    let data = stream(&[b"XXXX", b"ENDF"]);
    let mut c = ByteCursor::new(data);
    assert_eq!(
        parse_stream(&mut c),
        Err(ParseError::UnknownSection(b"XXXX".to_vec()))
    );
    assert_eq!(c.position(), 4);
}

#[test]
fn malformed_tag() {
    let data = stream(&[&[0xFF, 0x80, 0x41, 0x41], b"ENDF"]);
    let mut c = ByteCursor::new(data);
    assert_eq!(parse_stream(&mut c), Err(ParseError::MalformedTag));
}

#[test]
fn generic_section_is_captured() {
    let data = stream(&[b"STUP", &[3, 0, 0, 0], b"abc", b"ENDF"]);
    let mut c = ByteCursor::new(data);
    let sections = parse_stream(&mut c).unwrap();
    assert_eq!(sections, vec![Section::Generic(Tag::Stup, b"abc".to_vec())]);
}

#[test]
fn tile_section_is_opaque() {
    let data = stream(&[b"TILE", &[2, 0, 0, 0], &[9, 9], b"ENDF"]);
    let mut c = ByteCursor::new(data);
    let sections = parse_stream(&mut c).unwrap();
    assert_eq!(sections, vec![Section::Generic(Tag::Tile, vec![9, 9])]);
}

#[test]
fn sound_section_roundtrip() {
    // Declared size 8: 2 reserved bytes, a length field of 4, then "abc"
    // and its delimiter. The budget lands on exactly 0.
    let data = stream(&[
        b"SNDS",
        &[8, 0, 0, 0],
        &[0, 0],
        &[4, 0],
        b"abc\0",
        b"ENDF",
    ]);
    let mut c = ByteCursor::new(data);
    let sections = parse_stream(&mut c).unwrap();
    assert_eq!(
        sections,
        vec![Section::Sounds(vec![SoundEntry {
            filename: b"abc".to_vec()
        }])]
    );
    assert_eq!(c.remaining(), 0);
}

#[test]
fn sound_section_two_entries() {
    // 2 reserved + (2 + 3) + (2 + 5) = 14 bytes of declared size.
    let data = stream(&[
        b"SNDS",
        &[14, 0, 0, 0],
        &[0xAA, 0xBB],
        &[3, 0],
        b"hi\0",
        &[5, 0],
        b"bye\x20\0",
        b"ENDF",
    ]);
    let mut c = ByteCursor::new(data);
    let sections = parse_stream(&mut c).unwrap();
    assert_eq!(
        sections,
        vec![Section::Sounds(vec![
            SoundEntry {
                filename: b"hi".to_vec()
            },
            SoundEntry {
                filename: b"bye\x20".to_vec()
            },
        ])]
    );
}

#[test]
fn sound_entry_with_zero_length() {
    // One length field of 0 spends the 2 remaining budget bytes on itself
    // and yields an empty name.
    let data = stream(&[b"SNDS", &[4, 0, 0, 0], &[0, 0], &[0, 0], b"ENDF"]);
    let mut c = ByteCursor::new(data);
    let sections = parse_stream(&mut c).unwrap();
    assert_eq!(
        sections,
        vec![Section::Sounds(vec![SoundEntry {
            filename: Vec::new()
        }])]
    );
}

#[test]
fn sound_section_off_by_one_underflows() {
    // Budget after the reserved field is 6; the entry needs 2 + 5 = 7.
    let data = stream(&[b"SNDS", &[8, 0, 0, 0], &[0, 0], &[5, 0], b"abcd\0"]);
    let mut c = ByteCursor::new(data);
    assert_eq!(parse_stream(&mut c), Err(ParseError::BudgetUnderflow));
}

#[test]
fn sound_section_size_below_reserved_underflows() {
    let data = stream(&[b"SNDS", &[1, 0, 0, 0], &[0]]);
    let mut c = ByteCursor::new(data);
    assert_eq!(parse_stream(&mut c), Err(ParseError::BudgetUnderflow));
}

#[test]
fn sound_section_odd_budget_underflows() {
    // Budget 1 after the reserved field: a length field needs 2.
    let data = stream(&[b"SNDS", &[3, 0, 0, 0], &[0, 0], &[9]]);
    let mut c = ByteCursor::new(data);
    assert_eq!(parse_stream(&mut c), Err(ParseError::BudgetUnderflow));
}

#[test]
fn sound_filename_with_high_byte_is_invalid_text() {
    let data = stream(&[b"SNDS", &[7, 0, 0, 0], &[0, 0], &[3, 0], &[0x80, 0x41, 0x00]]);
    let mut c = ByteCursor::new(data);
    assert_eq!(parse_stream(&mut c), Err(ParseError::InvalidText));
}

#[test]
fn sound_section_truncated_record() {
    // The declared size promises more bytes than the stream holds.
    let data = stream(&[b"SNDS", &[8, 0, 0, 0], &[0, 0], &[4, 0], b"ab"]);
    let mut c = ByteCursor::new(data);
    assert_eq!(parse_stream(&mut c), Err(ParseError::TruncatedInput));
}

#[test]
fn zone_section_two_entries() {
    // Count 2, then 2 + (2 + 4 + 3) + (2 + 4 + 0) = 17 bytes in all.
    let data = stream(&[
        b"ZONE",
        &[2, 0],
        &[1, 2],
        &[3, 0, 0, 0],
        b"xyz",
        &[0, 0],
        &[0, 0, 0, 0],
        b"ENDF",
    ]);
    let mut c = ByteCursor::new(data);
    let sections = parse_stream(&mut c).unwrap();
    assert_eq!(
        sections,
        vec![Section::Zones(vec![
            ZoneEntry {
                flags: vec![1, 2],
                payload: b"xyz".to_vec()
            },
            ZoneEntry {
                flags: vec![0, 0],
                payload: Vec::new()
            },
        ])]
    );
    assert_eq!(c.position(), 4 + 17 + 4);
}

#[test]
fn zone_section_zero_count() {
    let data = stream(&[b"ZONE", &[0, 0], b"ENDF"]);
    let mut c = ByteCursor::new(data);
    let sections = parse_stream(&mut c).unwrap();
    assert_eq!(sections, vec![Section::Zones(vec![])]);
    assert_eq!(c.position(), 10);
}

#[test]
fn zone_section_truncated_payload() {
    let data = stream(&[b"ZONE", &[1, 0], &[0, 0], &[9, 0, 0, 0], b"abc"]);
    let mut c = ByteCursor::new(data);
    assert_eq!(parse_stream(&mut c), Err(ParseError::TruncatedInput));
}

#[test]
fn several_sections_in_order() {
    let data = stream(&[
        b"VERS",
        &[0x00, 0x00, 0x02, 0x00],
        b"TNAM",
        &[1, 0, 0, 0],
        &[7],
        b"ZONE",
        &[0, 0],
        b"ENDF",
    ]);
    let mut c = ByteCursor::new(data);
    let sections = parse_stream(&mut c).unwrap();
    assert_eq!(
        sections,
        vec![
            Section::Version(0x200),
            Section::Generic(Tag::Tnam, vec![7]),
            Section::Zones(vec![]),
        ]
    );
}

#[test]
fn section_readers_standalone() {
    let mut c = ByteCursor::new(stream(&[&[2, 0, 0, 0], &[10, 20]]));
    assert_eq!(generic_section_reader(&mut c), Ok(vec![10, 20]));

    let mut c = ByteCursor::new(vec![0x00, 0x00, 0x01, 0x00]);
    assert_eq!(version_reader(&mut c), Ok(0x100));

    let mut c = ByteCursor::new(vec![0x10, 0x00, 0x00, 0x00]);
    assert_eq!(section_size_reader(&mut c), Ok(16));
    assert_eq!(version_reader(&mut c), Err(ParseError::TruncatedInput));

    let mut c = ByteCursor::new(vec![0x10, 0x00, 0x00, 0x00]);
    assert_eq!(zone_size_reader(&mut c), Ok(16));

    let mut c = ByteCursor::new(vec![0x05, 0x00]);
    assert_eq!(sound_filename_size_reader(&mut c), Ok(5));

    let mut c = ByteCursor::new(stream(&[&[8, 0, 0, 0], &[0, 0], &[4, 0], b"abc\0"]));
    assert_eq!(
        sound_section_reader(&mut c),
        Ok(vec![SoundEntry {
            filename: b"abc".to_vec()
        }])
    );

    let mut c = ByteCursor::new(stream(&[&[1, 0], &[9, 9], &[1, 0, 0, 0], &[5]]));
    assert_eq!(
        zone_reader(&mut c),
        Ok(vec![ZoneEntry {
            flags: vec![9, 9],
            payload: vec![5]
        }])
    );
}
