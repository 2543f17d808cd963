//! Executable section readers and the top-level dispatcher.
//!
//! Each reader consumes exactly the bytes its section declares, through the
//! shared [`ByteCursor`], and is proved to return what the spec-level
//! parsers in [`crate::format`] say for the same window of the stream.

use vstd::prelude::*;

use crate::cursor::ByteCursor;
use crate::error::{ErrKind, ParseError};
use crate::format::{
    generic_body, is_text, section_step, snds_body, snds_section, stream_sections, tag_of, tag_seq,
    zone_section, zones_body, SectionView, Tag, ZoneView,
};
use crate::local_types::{be_val, le_val, to_u16le, to_u32, to_u32le};

verus! {

/// One sound record of an `SNDS` section: a filename with its trailing
/// delimiter byte already stripped.
#[derive(Debug, PartialEq, Eq)]
pub struct SoundEntry {
    pub filename: Vec<u8>,
}

impl View for SoundEntry {
    type V = Seq<u8>;

    open spec fn view(&self) -> Seq<u8> {
        self.filename@
    }
}

/// One zone record of a `ZONE` section: two uninterpreted flag bytes kept
/// verbatim, and an opaque payload of the declared length.
#[derive(Debug, PartialEq, Eq)]
pub struct ZoneEntry {
    pub flags: Vec<u8>,
    pub payload: Vec<u8>,
}

impl View for ZoneEntry {
    type V = ZoneView;

    open spec fn view(&self) -> ZoneView {
        ZoneView { flags: self.flags@, payload: self.payload@ }
    }
}

/// One decoded section, as the dispatcher reports it.
#[derive(Debug, PartialEq, Eq)]
pub enum Section {
    /// `VERS`: the 4-byte big-endian version number.
    Version(u32),
    /// A size-prefixed opaque section: its tag and its captured payload.
    Generic(Tag, Vec<u8>),
    /// `SNDS`: the sound records, in read order.
    Sounds(Vec<SoundEntry>),
    /// `ZONE`: the zone records, in read order.
    Zones(Vec<ZoneEntry>),
}

impl View for Section {
    type V = SectionView;

    open spec fn view(&self) -> SectionView {
        match self {
            Section::Version(v) => SectionView::Version(*v as int),
            Section::Generic(t, p) => SectionView::Generic(*t, p@),
            Section::Sounds(es) => SectionView::Sounds(es@.map_values(|e: SoundEntry| e@)),
            Section::Zones(zs) => SectionView::Zones(zs@.map_values(|z: ZoneEntry| z@)),
        }
    }
}

/// The sections of a whole stream, abstracted one by one.
pub open spec fn sections_view(v: Seq<Section>) -> Seq<SectionView> {
    v.map_values(|s: Section| s@)
}

/// Whether every byte of `bytes` is in the 7-bit text range.
fn check_text(bytes: &Vec<u8>) -> (r: bool)
    ensures
        r == is_text(bytes@),
{
    let mut i: usize = 0;
    while i < bytes.len()
        invariant
            i <= bytes@.len(),
            forall|j: int| 0 <= j < i ==> bytes@[j] < 0x80,
        decreases bytes@.len() - i,
    {
        if bytes[i] >= 0x80 {
            return false;
        }
        i = i + 1;
    }
    true
}

/// Whether a 4-byte tag equals the given ASCII codes.
fn tag_eq(t: &Vec<u8>, a: u8, b: u8, c: u8, d: u8) -> (r: bool)
    requires
        t@.len() == 4,
    ensures
        r <==> t@ == seq![a, b, c, d],
{
    let r = t[0] == a && t[1] == b && t[2] == c && t[3] == d;
    proof {
        if r {
            assert(t@ =~= seq![a, b, c, d]);
        }
    }
    r
}

/// Which section kind, if any, a 4-byte tag names.
fn classify_tag(t: &Vec<u8>) -> (r: Option<Tag>)
    requires
        t@.len() == 4,
    ensures
        r == tag_of(t@),
{
    if tag_eq(t, 0x56, 0x45, 0x52, 0x53) {
        Some(Tag::Vers)
    } else if tag_eq(t, 0x53, 0x54, 0x55, 0x50) {
        Some(Tag::Stup)
    } else if tag_eq(t, 0x53, 0x4E, 0x44, 0x53) {
        Some(Tag::Snds)
    } else if tag_eq(t, 0x50, 0x55, 0x5A, 0x32) {
        Some(Tag::Puz2)
    } else if tag_eq(t, 0x43, 0x48, 0x41, 0x52) {
        Some(Tag::Char)
    } else if tag_eq(t, 0x43, 0x48, 0x57, 0x50) {
        Some(Tag::Chwp)
    } else if tag_eq(t, 0x43, 0x41, 0x55, 0x58) {
        Some(Tag::Caux)
    } else if tag_eq(t, 0x54, 0x4E, 0x41, 0x4D) {
        Some(Tag::Tnam)
    } else if tag_eq(t, 0x54, 0x49, 0x4C, 0x45) {
        Some(Tag::Tile)
    } else if tag_eq(t, 0x5A, 0x4F, 0x4E, 0x45) {
        Some(Tag::Zone)
    } else if tag_eq(t, 0x45, 0x4E, 0x44, 0x46) {
        Some(Tag::Endf)
    } else {
        None
    }
}

/// Reads the 4-byte big-endian version field of a `VERS` section.
pub fn version_reader(cursor: &mut ByteCursor) -> (r: Result<u32, ParseError>)
    requires
        old(cursor).wf(),
    ensures
        final(cursor).wf(),
        final(cursor)@.data == old(cursor)@.data,
        match r {
            Ok(v) => old(cursor)@.pos + 4 <= old(cursor)@.data.len() && v == be_val(
                old(cursor)@.data.subrange(old(cursor)@.pos, old(cursor)@.pos + 4),
            ) && final(cursor)@.pos == old(cursor)@.pos + 4,
            Err(e) => old(cursor)@.pos + 4 > old(cursor)@.data.len() && (e@ matches
                ErrKind::TruncatedInput) && final(cursor)@.pos == old(cursor)@.pos,
        },
{
    let bytes = match cursor.read_n(4) {
        Ok(b) => b,
        Err(e) => {
            return Err(e);
        },
    };
    Ok(to_u32(&bytes))
}

/// Reads a 4-byte little-endian section-size field.
pub fn section_size_reader(cursor: &mut ByteCursor) -> (r: Result<u32, ParseError>)
    requires
        old(cursor).wf(),
    ensures
        final(cursor).wf(),
        final(cursor)@.data == old(cursor)@.data,
        match r {
            Ok(v) => old(cursor)@.pos + 4 <= old(cursor)@.data.len() && v == le_val(
                old(cursor)@.data.subrange(old(cursor)@.pos, old(cursor)@.pos + 4),
            ) && final(cursor)@.pos == old(cursor)@.pos + 4,
            Err(e) => old(cursor)@.pos + 4 > old(cursor)@.data.len() && (e@ matches
                ErrKind::TruncatedInput) && final(cursor)@.pos == old(cursor)@.pos,
        },
{
    let bytes = match cursor.read_n(4) {
        Ok(b) => b,
        Err(e) => {
            return Err(e);
        },
    };
    Ok(to_u32le(&bytes))
}

/// Reads a 4-byte little-endian zone-size field.
pub fn zone_size_reader(cursor: &mut ByteCursor) -> (r: Result<u32, ParseError>)
    requires
        old(cursor).wf(),
    ensures
        final(cursor).wf(),
        final(cursor)@.data == old(cursor)@.data,
        match r {
            Ok(v) => old(cursor)@.pos + 4 <= old(cursor)@.data.len() && v == le_val(
                old(cursor)@.data.subrange(old(cursor)@.pos, old(cursor)@.pos + 4),
            ) && final(cursor)@.pos == old(cursor)@.pos + 4,
            Err(e) => old(cursor)@.pos + 4 > old(cursor)@.data.len() && (e@ matches
                ErrKind::TruncatedInput) && final(cursor)@.pos == old(cursor)@.pos,
        },
{
    section_size_reader(cursor)
}

/// Reads a 2-byte little-endian sound filename-length field.
pub fn sound_filename_size_reader(cursor: &mut ByteCursor) -> (r: Result<u32, ParseError>)
    requires
        old(cursor).wf(),
    ensures
        final(cursor).wf(),
        final(cursor)@.data == old(cursor)@.data,
        match r {
            Ok(v) => old(cursor)@.pos + 2 <= old(cursor)@.data.len() && v == le_val(
                old(cursor)@.data.subrange(old(cursor)@.pos, old(cursor)@.pos + 2),
            ) && final(cursor)@.pos == old(cursor)@.pos + 2,
            Err(e) => old(cursor)@.pos + 2 > old(cursor)@.data.len() && (e@ matches
                ErrKind::TruncatedInput) && final(cursor)@.pos == old(cursor)@.pos,
        },
{
    let bytes = match cursor.read_n(2) {
        Ok(b) => b,
        Err(e) => {
            return Err(e);
        },
    };
    Ok(to_u16le(&bytes) as u32)
}

/// Reads a generic opaque section: a 4-byte little-endian size, then
/// exactly that many captured payload bytes.
pub fn generic_section_reader(cursor: &mut ByteCursor) -> (r: Result<Vec<u8>, ParseError>)
    requires
        old(cursor).wf(),
    ensures
        final(cursor).wf(),
        final(cursor)@.data == old(cursor)@.data,
        match r {
            Ok(v) => generic_body(old(cursor)@.data, old(cursor)@.pos) == Ok::<
                (Seq<u8>, int),
                ErrKind,
            >((v@, final(cursor)@.pos)),
            Err(e) => generic_body(old(cursor)@.data, old(cursor)@.pos) == Err::<
                (Seq<u8>, int),
                ErrKind,
            >(e@),
        },
{
    let size = match section_size_reader(cursor) {
        Ok(s) => s,
        Err(e) => {
            return Err(e);
        },
    };
    match cursor.read_n(size as usize) {
        Ok(payload) => Ok(payload),
        Err(e) => Err(e),
    }
}

/// Reads a whole `SNDS` section, starting at its 4-byte little-endian size
/// field: the size, a 2-byte reserved field, then length-prefixed filename
/// records until the byte budget reaches exactly 0. Each record's declared
/// length includes a trailing delimiter byte, stripped before the name is
/// checked as text. A budget that would go negative fails with
/// `BudgetUnderflow` instead of reading out of the section.
#[verifier::loop_isolation(false)]
pub fn sound_section_reader(cursor: &mut ByteCursor) -> (r: Result<Vec<SoundEntry>, ParseError>)
    requires
        old(cursor).wf(),
    ensures
        final(cursor).wf(),
        final(cursor)@.data == old(cursor)@.data,
        match r {
            Ok(v) => snds_section(old(cursor)@.data, old(cursor)@.pos) == Ok::<
                (Seq<Seq<u8>>, int),
                ErrKind,
            >((v@.map_values(|e: SoundEntry| e@), final(cursor)@.pos)),
            Err(e) => snds_section(old(cursor)@.data, old(cursor)@.pos) == Err::<
                (Seq<Seq<u8>>, int),
                ErrKind,
            >(e@),
        },
{
    let ghost d = old(cursor)@.data;
    let ghost p0 = old(cursor)@.pos;
    let size = match section_size_reader(cursor) {
        Ok(s) => s,
        Err(e) => {
            return Err(e);
        },
    };
    if size < 2 {
        return Err(ParseError::BudgetUnderflow);
    }
    match cursor.read_n(2) {
        Ok(_) => (),
        Err(e) => {
            return Err(e);
        },
    };
    let ghost pstart = cursor@.pos;
    let mut budget: u32 = size - 2;
    let mut sounds: Vec<SoundEntry> = Vec::new();
    proof {
        assert(snds_section(d, p0) == snds_body(d, pstart, (size - 2) as int));
        assert(sounds@.map_values(|e: SoundEntry| e@) =~= Seq::<Seq<u8>>::empty());
        if snds_body(d, pstart, (size - 2) as int) is Ok {
            let rest = snds_body(d, pstart, (size - 2) as int)->Ok_0.0;
            assert(sounds@.map_values(|e: SoundEntry| e@) + rest =~= rest);
        }
    }
    while budget > 0
        invariant
            cursor.wf(),
            cursor@.data == d,
            snds_section(d, p0) == snds_body(d, pstart, (size - 2) as int),
            match snds_body(d, cursor@.pos, budget as int) {
                Ok((rest, end)) => snds_body(d, pstart, (size - 2) as int) == Ok::<
                    (Seq<Seq<u8>>, int),
                    ErrKind,
                >((sounds@.map_values(|e: SoundEntry| e@) + rest, end)),
                Err(e) => snds_body(d, pstart, (size - 2) as int) == Err::<
                    (Seq<Seq<u8>>, int),
                    ErrKind,
                >(e),
            },
        decreases budget,
    {
        let ghost pos_it = cursor@.pos;
        let ghost budget_it = budget as int;
        if budget < 2 {
            return Err(ParseError::BudgetUnderflow);
        }
        let len = match sound_filename_size_reader(cursor) {
            Ok(l) => l,
            Err(e) => {
                return Err(e);
            },
        };
        if budget - 2 < len {
            return Err(ParseError::BudgetUnderflow);
        }
        let mut record = match cursor.read_n(len as usize) {
            Ok(rc) => rc,
            Err(e) => {
                return Err(e);
            },
        };
        let _delimiter = record.pop();
        if !check_text(&record) {
            return Err(ParseError::InvalidText);
        }
        let ghost sounds_before = sounds@;
        sounds.push(SoundEntry { filename: record });
        budget = budget - 2 - len;
        proof {
            let f = |e: SoundEntry| e@;
            let name = record@;
            assert(sounds@.map_values(f) =~= sounds_before.map_values(f).push(name));
            match snds_body(d, cursor@.pos, budget as int) {
                Ok((rest2, end2)) => {
                    assert(snds_body(d, pos_it, budget_it) == Ok::<
                        (Seq<Seq<u8>>, int),
                        ErrKind,
                    >((seq![name] + rest2, end2)));
                    assert(sounds_before.map_values(f) + (seq![name] + rest2)
                        =~= sounds@.map_values(f) + rest2);
                },
                Err(_) => {},
            }
        }
    }
    proof {
        let f = |e: SoundEntry| e@;
        assert(snds_body(d, cursor@.pos, 0int) == Ok::<(Seq<Seq<u8>>, int), ErrKind>(
            (Seq::empty(), cursor@.pos),
        ));
        assert(sounds@.map_values(f) + Seq::<Seq<u8>>::empty() =~= sounds@.map_values(f));
    }
    Ok(sounds)
}

/// Reads a whole `ZONE` section, starting at its 2-byte little-endian zone
/// count: for each of `count` records, 2 flag bytes kept verbatim, a 4-byte
/// little-endian size, then exactly that many opaque payload bytes. No
/// overall byte budget bounds the loop — the count alone is trusted.
#[verifier::loop_isolation(false)]
pub fn zone_reader(cursor: &mut ByteCursor) -> (r: Result<Vec<ZoneEntry>, ParseError>)
    requires
        old(cursor).wf(),
    ensures
        final(cursor).wf(),
        final(cursor)@.data == old(cursor)@.data,
        match r {
            Ok(v) => zone_section(old(cursor)@.data, old(cursor)@.pos) == Ok::<
                (Seq<ZoneView>, int),
                ErrKind,
            >((v@.map_values(|z: ZoneEntry| z@), final(cursor)@.pos)),
            Err(e) => zone_section(old(cursor)@.data, old(cursor)@.pos) == Err::<
                (Seq<ZoneView>, int),
                ErrKind,
            >(e@),
        },
{
    let ghost d = old(cursor)@.data;
    let ghost p0 = old(cursor)@.pos;
    let count_bytes = match cursor.read_n(2) {
        Ok(b) => b,
        Err(e) => {
            return Err(e);
        },
    };
    let count = to_u16le(&count_bytes);
    let ghost pstart = cursor@.pos;
    let mut zones: Vec<ZoneEntry> = Vec::new();
    let mut i: u16 = 0;
    proof {
        assert(zone_section(d, p0) == zones_body(d, pstart, count as int));
        assert(zones@.map_values(|z: ZoneEntry| z@) =~= Seq::<ZoneView>::empty());
        if zones_body(d, pstart, count as int) is Ok {
            let rest = zones_body(d, pstart, count as int)->Ok_0.0;
            assert(zones@.map_values(|z: ZoneEntry| z@) + rest =~= rest);
        }
    }
    while i < count
        invariant
            cursor.wf(),
            cursor@.data == d,
            i <= count,
            match zones_body(d, cursor@.pos, count - i) {
                Ok((rest, end)) => zones_body(d, pstart, count as int) == Ok::<
                    (Seq<ZoneView>, int),
                    ErrKind,
                >((zones@.map_values(|z: ZoneEntry| z@) + rest, end)),
                Err(e) => zones_body(d, pstart, count as int) == Err::<
                    (Seq<ZoneView>, int),
                    ErrKind,
                >(e),
            },
        decreases count - i,
    {
        let ghost pos_it = cursor@.pos;
        let ghost left_it = count - i;
        let zone_flags = match cursor.read_n(2) {
            Ok(b) => b,
            Err(e) => {
                return Err(e);
            },
        };
        let zone_size = match zone_size_reader(cursor) {
            Ok(s) => s,
            Err(e) => {
                return Err(e);
            },
        };
        let zone_data = match cursor.read_n(zone_size as usize) {
            Ok(b) => b,
            Err(e) => {
                return Err(e);
            },
        };
        let ghost zones_before = zones@;
        zones.push(ZoneEntry { flags: zone_flags, payload: zone_data });
        i = i + 1;
        proof {
            let f = |z: ZoneEntry| z@;
            let entry = ZoneView {
                flags: d.subrange(pos_it, pos_it + 2),
                payload: d.subrange(pos_it + 6, pos_it + 6 + zone_size),
            };
            assert(zones@.map_values(f) =~= zones_before.map_values(f).push(entry));
            match zones_body(d, cursor@.pos, count - i) {
                Ok((rest2, end2)) => {
                    assert(zones_body(d, pos_it, left_it) == Ok::<(Seq<ZoneView>, int), ErrKind>(
                        (seq![entry] + rest2, end2),
                    ));
                    assert(zones_before.map_values(f) + (seq![entry] + rest2) =~= zones@.map_values(
                        f,
                    ) + rest2);
                },
                Err(_) => {},
            }
        }
    }
    proof {
        let f = |z: ZoneEntry| z@;
        assert(zones_body(d, cursor@.pos, 0int) == Ok::<(Seq<ZoneView>, int), ErrKind>(
            (Seq::empty(), cursor@.pos),
        ));
        assert(zones@.map_values(f) + Seq::<ZoneView>::empty() =~= zones@.map_values(f));
    }
    Ok(zones)
}

/// Reads one 4-byte tag and, unless the tag is `ENDF`, the section it
/// opens. Returns `Ok(None)` on the terminal tag. An unrecognised tag fails
/// with `UnknownSection` after consuming exactly the 4 tag bytes and
/// nothing further.
pub fn read_section(cursor: &mut ByteCursor) -> (r: Result<Option<Section>, ParseError>)
    requires
        old(cursor).wf(),
    ensures
        final(cursor).wf(),
        final(cursor)@.data == old(cursor)@.data,
        match r {
            Ok(s) => section_step(old(cursor)@.data, old(cursor)@.pos) == Ok::<
                (Option<SectionView>, int),
                ErrKind,
            >((
                match s {
                    Some(sec) => Some(sec@),
                    None => None,
                },
                final(cursor)@.pos,
            )),
            Err(e) => section_step(old(cursor)@.data, old(cursor)@.pos) == Err::<
                (Option<SectionView>, int),
                ErrKind,
            >(e@),
        },
        (r matches Err(e) && e@ matches ErrKind::UnknownSection(_)) ==> final(cursor)@.pos == old(
            cursor,
        )@.pos + 4,
{
    let tag_bytes = match cursor.read_n(4) {
        Ok(b) => b,
        Err(e) => {
            return Err(e);
        },
    };
    if !check_text(&tag_bytes) {
        return Err(ParseError::MalformedTag);
    }
    let tag = match classify_tag(&tag_bytes) {
        Some(t) => t,
        None => {
            return Err(ParseError::UnknownSection(tag_bytes));
        },
    };
    match tag {
        Tag::Endf => Ok(None),
        Tag::Vers => match version_reader(cursor) {
            Ok(v) => Ok(Some(Section::Version(v))),
            Err(e) => Err(e),
        },
        Tag::Snds => match sound_section_reader(cursor) {
            Ok(es) => Ok(Some(Section::Sounds(es))),
            Err(e) => {
                proof {
                    crate::format::lemma_snds_body_err_kinds(
                        old(cursor)@.data,
                        old(cursor)@.pos + 10,
                        le_val(
                            old(cursor)@.data.subrange(old(cursor)@.pos + 4, old(cursor)@.pos + 8),
                        ) - 2,
                    );
                }
                Err(e)
            },
        },
        Tag::Zone => match zone_reader(cursor) {
            Ok(zs) => Ok(Some(Section::Zones(zs))),
            Err(e) => {
                proof {
                    crate::format::lemma_zones_body_err_kinds(
                        old(cursor)@.data,
                        old(cursor)@.pos + 6,
                        le_val(
                            old(cursor)@.data.subrange(old(cursor)@.pos + 4, old(cursor)@.pos + 6),
                        ),
                    );
                }
                Err(e)
            },
        },
        g => match generic_section_reader(cursor) {
            Ok(payload) => Ok(Some(Section::Generic(g, payload))),
            Err(e) => Err(e),
        },
    }
}

/// Runs the dispatch loop: reads tagged sections until the terminal `ENDF`
/// tag, failing on the first malformed, unknown or truncated section. On
/// success the cursor stands just past the `ENDF` tag and nothing after it
/// has been read.
#[verifier::loop_isolation(false)]
pub fn parse_stream(cursor: &mut ByteCursor) -> (r: Result<Vec<Section>, ParseError>)
    requires
        old(cursor).wf(),
    ensures
        final(cursor).wf(),
        final(cursor)@.data == old(cursor)@.data,
        match r {
            Ok(v) => stream_sections(old(cursor)@.data, old(cursor)@.pos) == Ok::<
                (Seq<SectionView>, int),
                ErrKind,
            >((sections_view(v@), final(cursor)@.pos)),
            Err(e) => stream_sections(old(cursor)@.data, old(cursor)@.pos) == Err::<
                (Seq<SectionView>, int),
                ErrKind,
            >(e@),
        },
{
    let ghost d = old(cursor)@.data;
    let ghost p0 = old(cursor)@.pos;
    let mut out: Vec<Section> = Vec::new();
    proof {
        assert(sections_view(out@) =~= Seq::<SectionView>::empty());
        if stream_sections(d, p0) is Ok {
            let rest = stream_sections(d, p0)->Ok_0.0;
            assert(sections_view(out@) + rest =~= rest);
        }
    }
    loop
        invariant
            cursor.wf(),
            cursor@.data == d,
            match stream_sections(d, cursor@.pos) {
                Ok((rest, end)) => stream_sections(d, p0) == Ok::<
                    (Seq<SectionView>, int),
                    ErrKind,
                >((sections_view(out@) + rest, end)),
                Err(e) => stream_sections(d, p0) == Err::<(Seq<SectionView>, int), ErrKind>(e),
            },
        decreases d.len() - cursor@.pos,
    {
        let ghost pos_it = cursor@.pos;
        let section = match read_section(cursor) {
            Ok(s) => s,
            Err(e) => {
                proof {
                    assert(stream_sections(d, pos_it) == Err::<(Seq<SectionView>, int), ErrKind>(
                        e@,
                    ));
                }
                return Err(e);
            },
        };
        proof {
            crate::format::lemma_section_step_advances(d, pos_it);
        }
        match section {
            None => {
                proof {
                    assert(stream_sections(d, pos_it) == Ok::<(Seq<SectionView>, int), ErrKind>(
                        (Seq::empty(), cursor@.pos),
                    ));
                    assert(sections_view(out@) + Seq::<SectionView>::empty() =~= sections_view(
                        out@,
                    ));
                }
                return Ok(out);
            },
            Some(sec) => {
                let ghost out_before = out@;
                out.push(sec);
                proof {
                    assert(sections_view(out@) =~= sections_view(out_before).push(sec@));
                    match stream_sections(d, cursor@.pos) {
                        Ok((rest2, end2)) => {
                            assert(stream_sections(d, pos_it) == Ok::<
                                (Seq<SectionView>, int),
                                ErrKind,
                            >((seq![sec@] + rest2, end2)));
                            assert(sections_view(out_before) + (seq![sec@] + rest2)
                                =~= sections_view(out@) + rest2);
                        },
                        Err(_) => {},
                    }
                }
            },
        }
    }
}

} // verus!
