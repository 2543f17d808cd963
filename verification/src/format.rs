//! Mathematical model of the container format.
//!
//! The functions here parse a byte sequence `data` from a position `pos`,
//! returning either the decoded structure together with the position just
//! past the bytes it occupies, or the error the executable parser raises on
//! the same input. The executable readers in [`crate::parser`] are proved to
//! return exactly what these functions say.

use vstd::prelude::*;

use crate::error::ErrKind;
use crate::local_types::{be_val, le_val};

verus! {

/// The closed enumeration of section tags.
#[derive(Clone, Copy, Debug, PartialEq, Eq, Structural)]
pub enum Tag {
    Vers,
    Stup,
    Snds,
    Puz2,
    Char,
    Chwp,
    Caux,
    Tnam,
    Tile,
    Zone,
    Endf,
}

/// The 4 tag bytes of each section kind, as ASCII codes.
pub open spec fn tag_seq(t: Tag) -> Seq<u8> {
    match t {
        Tag::Vers => seq![0x56u8, 0x45u8, 0x52u8, 0x53u8],
        Tag::Stup => seq![0x53u8, 0x54u8, 0x55u8, 0x50u8],
        Tag::Snds => seq![0x53u8, 0x4Eu8, 0x44u8, 0x53u8],
        Tag::Puz2 => seq![0x50u8, 0x55u8, 0x5Au8, 0x32u8],
        Tag::Char => seq![0x43u8, 0x48u8, 0x41u8, 0x52u8],
        Tag::Chwp => seq![0x43u8, 0x48u8, 0x57u8, 0x50u8],
        Tag::Caux => seq![0x43u8, 0x41u8, 0x55u8, 0x58u8],
        Tag::Tnam => seq![0x54u8, 0x4Eu8, 0x41u8, 0x4Du8],
        Tag::Tile => seq![0x54u8, 0x49u8, 0x4Cu8, 0x45u8],
        Tag::Zone => seq![0x5Au8, 0x4Fu8, 0x4Eu8, 0x45u8],
        Tag::Endf => seq![0x45u8, 0x4Eu8, 0x44u8, 0x46u8],
    }
}

/// Which section kind, if any, a 4-byte tag names.
pub open spec fn tag_of(s: Seq<u8>) -> Option<Tag> {
    if s == tag_seq(Tag::Vers) {
        Some(Tag::Vers)
    } else if s == tag_seq(Tag::Stup) {
        Some(Tag::Stup)
    } else if s == tag_seq(Tag::Snds) {
        Some(Tag::Snds)
    } else if s == tag_seq(Tag::Puz2) {
        Some(Tag::Puz2)
    } else if s == tag_seq(Tag::Char) {
        Some(Tag::Char)
    } else if s == tag_seq(Tag::Chwp) {
        Some(Tag::Chwp)
    } else if s == tag_seq(Tag::Caux) {
        Some(Tag::Caux)
    } else if s == tag_seq(Tag::Tnam) {
        Some(Tag::Tnam)
    } else if s == tag_seq(Tag::Tile) {
        Some(Tag::Tile)
    } else if s == tag_seq(Tag::Zone) {
        Some(Tag::Zone)
    } else if s == tag_seq(Tag::Endf) {
        Some(Tag::Endf)
    } else {
        None
    }
}

/// Bytes that count as text: the 7-bit range.
pub open spec fn is_text(s: Seq<u8>) -> bool {
    forall|i: int| 0 <= i < s.len() ==> s[i] < 0x80
}

/// One zone record: two uninterpreted flag bytes and an opaque payload of
/// the declared length.
pub struct ZoneView {
    pub flags: Seq<u8>,
    pub payload: Seq<u8>,
}

/// One decoded section, as the dispatcher reports it.
pub enum SectionView {
    /// `VERS`: the 4-byte big-endian version number.
    Version(int),
    /// A size-prefixed opaque section (`STUP`, `PUZ2`, `CHAR`, `CHWP`,
    /// `CAUX`, `TNAM`, `TILE`): its tag and its captured payload.
    Generic(Tag, Seq<u8>),
    /// `SNDS`: the sound filenames, delimiters stripped, in read order.
    Sounds(Seq<Seq<u8>>),
    /// `ZONE`: the zone records, in read order.
    Zones(Seq<ZoneView>),
}

/// Parses the entry list of an `SNDS` section: length-prefixed filename
/// records until the byte budget runs out. Each record's declared length
/// includes a trailing delimiter byte, stripped before the name is checked
/// as text. Returns the names and the position just past the last record.
///
/// The budget is checked before every decrement, so it lands on exactly 0 or
/// the parse fails with `BudgetUnderflow`.
pub open spec fn snds_body(data: Seq<u8>, pos: int, budget: int) -> Result<
    (Seq<Seq<u8>>, int),
    ErrKind,
>
    decreases budget,
{
    if budget <= 0 {
        Ok((Seq::empty(), pos))
    } else if budget < 2 {
        Err(ErrKind::BudgetUnderflow)
    } else if pos + 2 > data.len() {
        Err(ErrKind::TruncatedInput)
    } else {
        let len = le_val(data.subrange(pos, pos + 2));
        if budget - 2 - len < 0 {
            Err(ErrKind::BudgetUnderflow)
        } else if pos + 2 + len > data.len() {
            Err(ErrKind::TruncatedInput)
        } else {
            let record = data.subrange(pos + 2, pos + 2 + len);
            let name = if len == 0 {
                record
            } else {
                record.drop_last()
            };
            if !is_text(name) {
                Err(ErrKind::InvalidText)
            } else {
                proof {
                    crate::local_types::lemma_le_val_bound(data.subrange(pos, pos + 2));
                }
                match snds_body(data, pos + 2 + len, budget - 2 - len) {
                    Ok((rest, end)) => Ok((seq![name] + rest, end)),
                    Err(e) => Err(e),
                }
            }
        }
    }
}

/// Parses a whole `SNDS` section body, starting at its 4-byte little-endian
/// size field: the size, a 2-byte reserved field, then the entry list under
/// a budget of `size - 2`.
pub open spec fn snds_section(data: Seq<u8>, pos: int) -> Result<(Seq<Seq<u8>>, int), ErrKind> {
    if pos + 4 > data.len() {
        Err(ErrKind::TruncatedInput)
    } else {
        let size = le_val(data.subrange(pos, pos + 4));
        if size < 2 {
            Err(ErrKind::BudgetUnderflow)
        } else if pos + 6 > data.len() {
            Err(ErrKind::TruncatedInput)
        } else {
            snds_body(data, pos + 6, size - 2)
        }
    }
}

/// Parses `n` zone records: 2 flag bytes, a 4-byte little-endian size, then
/// that many payload bytes each. Nothing bounds the records but the count.
pub open spec fn zones_body(data: Seq<u8>, pos: int, n: int) -> Result<
    (Seq<ZoneView>, int),
    ErrKind,
>
    decreases n,
{
    if n <= 0 {
        Ok((Seq::empty(), pos))
    } else if pos + 2 > data.len() {
        Err(ErrKind::TruncatedInput)
    } else if pos + 6 > data.len() {
        Err(ErrKind::TruncatedInput)
    } else {
        let size = le_val(data.subrange(pos + 2, pos + 6));
        if pos + 6 + size > data.len() {
            Err(ErrKind::TruncatedInput)
        } else {
            let entry = ZoneView {
                flags: data.subrange(pos, pos + 2),
                payload: data.subrange(pos + 6, pos + 6 + size),
            };
            match zones_body(data, pos + 6 + size, n - 1) {
                Ok((rest, end)) => Ok((seq![entry] + rest, end)),
                Err(e) => Err(e),
            }
        }
    }
}

/// Parses a whole `ZONE` section body, starting at its 2-byte little-endian
/// zone count. The section carries no total-size field: the count alone
/// delimits it.
pub open spec fn zone_section(data: Seq<u8>, pos: int) -> Result<(Seq<ZoneView>, int), ErrKind> {
    if pos + 2 > data.len() {
        Err(ErrKind::TruncatedInput)
    } else {
        zones_body(data, pos + 2, le_val(data.subrange(pos, pos + 2)))
    }
}

/// Parses a generic opaque section body: a 4-byte little-endian size, then
/// exactly that many captured payload bytes.
pub open spec fn generic_body(data: Seq<u8>, pos: int) -> Result<(Seq<u8>, int), ErrKind> {
    if pos + 4 > data.len() {
        Err(ErrKind::TruncatedInput)
    } else {
        let size = le_val(data.subrange(pos, pos + 4));
        if pos + 4 + size > data.len() {
            Err(ErrKind::TruncatedInput)
        } else {
            Ok((data.subrange(pos + 4, pos + 4 + size), pos + 4 + size))
        }
    }
}

/// Parses one tag and, unless the tag is `ENDF`, the section it opens.
/// `Ok((None, end))` marks the terminal tag. The position returned is just
/// past everything the section consumed.
pub open spec fn section_step(data: Seq<u8>, pos: int) -> Result<
    (Option<SectionView>, int),
    ErrKind,
> {
    if pos < 0 || pos + 4 > data.len() {
        Err(ErrKind::TruncatedInput)
    } else {
        let t = data.subrange(pos, pos + 4);
        if !is_text(t) {
            Err(ErrKind::MalformedTag)
        } else {
            match tag_of(t) {
                None => Err(ErrKind::UnknownSection(t)),
                Some(Tag::Endf) => Ok((None, pos + 4)),
                Some(Tag::Vers) => {
                    if pos + 8 > data.len() {
                        Err(ErrKind::TruncatedInput)
                    } else {
                        Ok(
                            (
                                Some(SectionView::Version(be_val(data.subrange(pos + 4, pos + 8)))),
                                pos + 8,
                            ),
                        )
                    }
                },
                Some(Tag::Snds) => match snds_section(data, pos + 4) {
                    Ok((names, end)) => Ok((Some(SectionView::Sounds(names)), end)),
                    Err(e) => Err(e),
                },
                Some(Tag::Zone) => match zone_section(data, pos + 4) {
                    Ok((zones, end)) => Ok((Some(SectionView::Zones(zones)), end)),
                    Err(e) => Err(e),
                },
                Some(g) => match generic_body(data, pos + 4) {
                    Ok((payload, end)) => Ok((Some(SectionView::Generic(g, payload)), end)),
                    Err(e) => Err(e),
                },
            }
        }
    }
}

/// An `SNDS` entry list that parses consumes its byte budget exactly: the
/// position just past the last record is `pos + budget`, still inside the
/// data. This is the alignment invariant that keeps the dispatcher in step
/// with the next tag.
pub proof fn lemma_snds_body_consumes_budget(data: Seq<u8>, pos: int, budget: int)
    requires
        0 <= pos <= data.len(),
        0 <= budget,
    ensures
        snds_body(data, pos, budget) matches Ok((names, end)) ==> end == pos + budget && end
            <= data.len(),
    decreases budget,
{
    if budget == 0 {
    } else if budget < 2 || pos + 2 > data.len() {
    } else {
        let len = le_val(data.subrange(pos, pos + 2));
        crate::local_types::lemma_le_val_bound(data.subrange(pos, pos + 2));
        if budget - 2 - len >= 0 && pos + 2 + len <= data.len() {
            lemma_snds_body_consumes_budget(data, pos + 2 + len, budget - 2 - len);
        }
    }
}

/// Total bytes a parsed zone list occupies: 6 header bytes plus the payload
/// for each record.
pub open spec fn zones_size(zs: Seq<ZoneView>) -> int
    decreases zs.len(),
{
    if zs.len() == 0 {
        0
    } else {
        6 + zs[0].payload.len() + zones_size(zs.skip(1))
    }
}

/// A zone list that parses holds exactly the declared number of records and
/// consumes exactly `6 + size_i` bytes per record — the reader trusts the
/// count and checks no other boundary.
pub proof fn lemma_zones_body_consumes(data: Seq<u8>, pos: int, n: int)
    requires
        0 <= pos <= data.len(),
    ensures
        zones_body(data, pos, n) matches Ok((zs, end)) ==> zs.len() == (if n <= 0 {
            0
        } else {
            n
        }) && end == pos + zones_size(zs) && pos <= end <= data.len(),
    decreases n,
{
    if n <= 0 {
    } else if pos + 6 > data.len() {
    } else {
        let size = le_val(data.subrange(pos + 2, pos + 6));
        crate::local_types::lemma_le_val_bound(data.subrange(pos + 2, pos + 6));
        if pos + 6 + size <= data.len() {
            lemma_zones_body_consumes(data, pos + 6 + size, n - 1);
            let r = zones_body(data, pos + 6 + size, n - 1);
            if r is Ok {
                let rest = r->Ok_0.0;
                let entry = ZoneView {
                    flags: data.subrange(pos, pos + 2),
                    payload: data.subrange(pos + 6, pos + 6 + size),
                };
                assert((seq![entry] + rest).skip(1) =~= rest);
                assert((seq![entry] + rest)[0] == entry);
            }
        }
    }
}

/// Inside an `SNDS` entry list only truncation, budget and text errors can
/// arise: `UnknownSection` and `MalformedTag` come from the dispatcher
/// alone.
pub proof fn lemma_snds_body_err_kinds(data: Seq<u8>, pos: int, budget: int)
    ensures
        snds_body(data, pos, budget) matches Err(e) ==> !(e is UnknownSection) && !(e
            is MalformedTag),
    decreases budget,
{
    if budget > 0 && budget >= 2 && pos + 2 <= data.len() {
        let len = le_val(data.subrange(pos, pos + 2));
        crate::local_types::lemma_le_val_bound(data.subrange(pos, pos + 2));
        if budget - 2 - len >= 0 && pos + 2 + len <= data.len() {
            lemma_snds_body_err_kinds(data, pos + 2 + len, budget - 2 - len);
        }
    }
}

/// Inside a zone list only truncation errors can arise.
pub proof fn lemma_zones_body_err_kinds(data: Seq<u8>, pos: int, n: int)
    ensures
        zones_body(data, pos, n) matches Err(e) ==> e is TruncatedInput,
    decreases n,
{
    if n > 0 && pos + 6 <= data.len() {
        let size = le_val(data.subrange(pos + 2, pos + 6));
        if pos + 6 + size <= data.len() {
            lemma_zones_body_err_kinds(data, pos + 6 + size, n - 1);
        }
    }
}

/// A section that parses begins with its 4 tag bytes and ends inside the
/// data: the step advances the position by at least 4 and never past the
/// end.
pub proof fn lemma_section_step_advances(data: Seq<u8>, pos: int)
    ensures
        section_step(data, pos) matches Ok((s, end)) ==> pos + 4 <= end <= data.len(),
{
    if 0 <= pos && pos + 4 <= data.len() {
        let t = data.subrange(pos, pos + 4);
        if is_text(t) {
            match tag_of(t) {
                Some(Tag::Snds) => {
                    if pos + 8 <= data.len() {
                        let size = le_val(data.subrange(pos + 4, pos + 8));
                        crate::local_types::lemma_le_val_bound(data.subrange(pos + 4, pos + 8));
                        if size >= 2 && pos + 10 <= data.len() {
                            lemma_snds_body_consumes_budget(data, pos + 10, size - 2);
                        }
                    }
                },
                Some(Tag::Zone) => {
                    if pos + 6 <= data.len() {
                        let n = le_val(data.subrange(pos + 4, pos + 6));
                        crate::local_types::lemma_le_val_bound(data.subrange(pos + 4, pos + 6));
                        lemma_zones_body_consumes(data, pos + 6, n);
                    }
                },
                _ => {
                    if pos + 8 <= data.len() {
                        crate::local_types::lemma_le_val_bound(data.subrange(pos + 4, pos + 8));
                    }
                },
            }
        }
    }
}

/// An `SNDS` section that parses consumes exactly its 4-byte size field
/// plus the declared size: the 2 reserved bytes and the entry records
/// account for the size to the byte, so the dispatcher resumes aligned on
/// the next tag.
pub proof fn lemma_snds_section_consumes(data: Seq<u8>, pos: int)
    requires
        0 <= pos,
    ensures
        snds_section(data, pos) matches Ok((names, end)) ==> end == pos + 4 + le_val(
            data.subrange(pos, pos + 4),
        ) && end <= data.len(),
{
    if pos + 4 <= data.len() {
        let size = le_val(data.subrange(pos, pos + 4));
        if size >= 2 && pos + 6 <= data.len() {
            lemma_snds_body_consumes_budget(data, pos + 6, size - 2);
        }
    }
}

/// A `ZONE` section that parses holds exactly the declared number of
/// records and consumes exactly its 2-byte count field plus 6 header bytes
/// and the declared payload for each record. Nothing else bounds it: the
/// count is trusted.
pub proof fn lemma_zone_section_consumes(data: Seq<u8>, pos: int)
    requires
        0 <= pos,
    ensures
        zone_section(data, pos) matches Ok((zs, end)) ==> zs.len() == le_val(
            data.subrange(pos, pos + 2),
        ) && end == pos + 2 + zones_size(zs) && end <= data.len(),
{
    if pos + 2 <= data.len() {
        let n = le_val(data.subrange(pos, pos + 2));
        crate::local_types::lemma_le_val_bound(data.subrange(pos, pos + 2));
        lemma_zones_body_consumes(data, pos + 2, n);
    }
}

/// Parses the stream from `pos` to the terminal `ENDF` tag: the sections in
/// read order, and the position just past the `ENDF` tag.
pub open spec fn stream_sections(data: Seq<u8>, pos: int) -> Result<
    (Seq<SectionView>, int),
    ErrKind,
>
    decreases data.len() - pos,
{
    match section_step(data, pos) {
        Err(e) => Err(e),
        Ok((None, end)) => Ok((Seq::empty(), end)),
        Ok((Some(s), end)) => {
            proof {
                lemma_section_step_advances(data, pos);
            }
            match stream_sections(data, end) {
                Ok((rest, fin)) => Ok((seq![s] + rest, fin)),
                Err(e) => Err(e),
            }
        },
    }
}

/// A stream that parses ends on exactly one `ENDF` tag, and that tag is the
/// last thing read: the final 4 consumed bytes are the terminal tag, and
/// nothing past it is consumed.
pub proof fn lemma_stream_ends_with_endf(data: Seq<u8>, pos: int)
    ensures
        stream_sections(data, pos) matches Ok((secs, end)) ==> pos + 4 <= end <= data.len()
            && data.subrange(end - 4, end) == tag_seq(Tag::Endf),
    decreases data.len() - pos,
{
    lemma_section_step_advances(data, pos);
    match section_step(data, pos) {
        Err(_) => {},
        Ok((opt, mid)) => {
            if opt is Some {
                lemma_stream_ends_with_endf(data, mid);
            }
        },
    }
}

} // verus!
