//! Beats, cue points and their byte layouts.
use super::kind::{lemma_header_len, ContentKind, Header};
use crate::codec::{
    be16, be32, get_u16, get_u32, group_decode, in_bounds, lemma_matches_split, matches_at,
    push_u16, push_u32, u16_at,
    u32_at, Codec, ParseError,
};
use crate::util::{color_of_byte, ColorIndex};
use crate::wide::{
    enc_wide, lemma_parse_wide_wf, lemma_wide_roundtrip, no_zero_units, parse_wide, read_wide,
    write_wide, NullWideString,
};
use vstd::prelude::*;

verus! {

/// A single beat inside the beat grid.
#[derive(Debug, PartialEq, Eq, Clone, Copy)]
pub struct Beat {
    /// Beat number inside the bar (1-4).
    pub beat_number: u16,
    /// Current tempo in centi-BPM (= 1/100 BPM).
    pub tempo: u16,
    /// Time in milliseconds after which this beat would occur (at normal playback speed).
    pub time: u32,
}

impl Beat {
    /// Creates a beat with the given beat number, tempo, and time.
    pub fn new(beat_number: u16, tempo: u16, time: u32) -> (r: Beat)
        ensures
            r == (Beat { beat_number, tempo, time }),
    {
        Beat { beat_number, tempo, time }
    }
}

impl View for Beat {
    type V = Beat;

    open spec fn view(&self) -> Beat {
        *self
    }
}

impl Codec for Beat {
    open spec fn wf(m: Beat) -> bool {
        true
    }

    open spec fn writable(m: Beat) -> bool {
        true
    }

    open spec fn enc(m: Beat) -> Seq<u8> {
        be16(m.beat_number) + be16(m.tempo) + be32(m.time)
    }

    open spec fn parse(b: Seq<u8>, p: int) -> Option<(Beat, int)> {
        if in_bounds(b, p, 8) {
            Some(
                (
                    Beat { beat_number: u16_at(b, p), tempo: u16_at(b, p + 2), time: u32_at(b, p + 4) },
                    p + 8,
                ),
            )
        } else {
            None
        }
    }

    proof fn lemma_roundtrip(m: Beat, b: Seq<u8>, p: int) {
        broadcast use group_decode;

        assert(matches_at(b, p, Beat::enc(m)));
    }

    proof fn lemma_parse_wf(b: Seq<u8>, p: int) {
    }

    fn read(b: &[u8], p: usize) -> (r: Result<(Beat, usize), ParseError>) {
        if p < b.len() && b.len() - p >= 8 {
            Ok(
                (
                    Beat {
                        beat_number: get_u16(b, p),
                        tempo: get_u16(b, p + 2),
                        time: get_u32(b, p + 4),
                    },
                    p + 8,
                ),
            )
        } else {
            Err(ParseError)
        }
    }

    fn write(&self, out: &mut Vec<u8>) {
        push_u16(out, self.beat_number);
        push_u16(out, self.tempo);
        push_u32(out, self.time);
        assert(out@ =~= old(out)@ + Beat::enc(*self));
    }
}

/// The byte layout of a beat entry: the beat number in bytes 0 and 1, the tempo in bytes 2 and
/// 3, and the time in bytes 4 to 7, each most significant byte first; reading eight bytes
/// takes the fields from the same places.
pub proof fn lemma_beat_layout(m: Beat, b: Seq<u8>, p: int)
    ensures
        Beat::enc(m) == seq![
            (m.beat_number / 256) as u8,
            (m.beat_number % 256) as u8,
            (m.tempo / 256) as u8,
            (m.tempo % 256) as u8,
            (m.time / 0x100_0000) as u8,
            ((m.time / 0x1_0000) % 256) as u8,
            ((m.time / 256) % 256) as u8,
            (m.time % 256) as u8,
        ],
        0 <= p && p + 8 <= b.len() ==> Beat::parse(b, p) == Some(
            (
                Beat {
                    beat_number: (b[p] as int * 256 + b[p + 1] as int) as u16,
                    tempo: (b[p + 2] as int * 256 + b[p + 3] as int) as u16,
                    time: (b[p + 4] as int * 0x100_0000 + b[p + 5] as int * 0x1_0000 + b[p + 6] as int
                        * 256 + b[p + 7] as int) as u32,
                },
                p + 8,
            ),
        ),
{
    assert(Beat::enc(m) =~= seq![
        (m.beat_number / 256) as u8,
        (m.beat_number % 256) as u8,
        (m.tempo / 256) as u8,
        (m.tempo % 256) as u8,
        (m.time / 0x100_0000) as u8,
        ((m.time / 0x1_0000) % 256) as u8,
        ((m.time / 256) % 256) as u8,
        (m.time % 256) as u8,
    ]);
}

/// Describes the types of entries found in a Cue List section.
#[derive(Debug, PartialEq, Eq, Clone, Copy)]
pub enum CueListType {
    /// Memory cues or loops.
    MemoryCues,
    /// Hot cues or loops.
    HotCues,
}

impl CueListType {
    /// The number that encodes the list type.
    pub open spec fn spec_code(self) -> u32 {
        match self {
            CueListType::MemoryCues => 0,
            CueListType::HotCues => 1,
        }
    }

    /// The list type that a number encodes, if any.
    pub open spec fn of_code(c: u32) -> Option<CueListType> {
        if c == 0 {
            Some(CueListType::MemoryCues)
        } else if c == 1 {
            Some(CueListType::HotCues)
        } else {
            None
        }
    }

    /// The number that encodes the list type.
    pub fn code(&self) -> (r: u32)
        ensures
            r == self.spec_code(),
    {
        match self {
            CueListType::MemoryCues => 0,
            CueListType::HotCues => 1,
        }
    }

    /// The list type that a number encodes, if any.
    pub fn from_code(c: u32) -> (r: Option<CueListType>)
        ensures
            r == CueListType::of_code(c),
    {
        if c == 0 {
            Some(CueListType::MemoryCues)
        } else if c == 1 {
            Some(CueListType::HotCues)
        } else {
            None
        }
    }
}

/// Indicates if the cue is point or a loop.
#[derive(Debug, PartialEq, Eq, Clone, Copy)]
pub enum CueType {
    /// Cue is a single point.
    Point,
    /// Cue is a loop.
    Loop,
}

impl CueType {
    /// The byte that encodes the cue type.
    pub open spec fn spec_code(self) -> u8 {
        match self {
            CueType::Point => 1,
            CueType::Loop => 2,
        }
    }

    /// The cue type that a byte encodes, if any.
    pub open spec fn of_code(c: u8) -> Option<CueType> {
        if c == 1 {
            Some(CueType::Point)
        } else if c == 2 {
            Some(CueType::Loop)
        } else {
            None
        }
    }

    /// The byte that encodes the cue type.
    pub fn code(&self) -> (r: u8)
        ensures
            r == self.spec_code(),
    {
        match self {
            CueType::Point => 1,
            CueType::Loop => 2,
        }
    }

    /// The cue type that a byte encodes, if any.
    pub fn from_code(c: u8) -> (r: Option<CueType>)
        ensures
            r == CueType::of_code(c),
    {
        if c == 1 {
            Some(CueType::Point)
        } else if c == 2 {
            Some(CueType::Loop)
        } else {
            None
        }
    }
}

/// A memory or hot cue (or loop).
#[derive(Debug, PartialEq, Eq, Clone, Copy)]
pub struct Cue {
    /// Cue entry header.
    pub header: Header,
    /// Hot cue number (`0` if this is not a hot cue, `1` for A, `2` for B, ...).
    pub hot_cue: u32,
    /// Loop status. `4` if this cue is an active loop, `0` otherwise.
    pub status: u32,
    /// Unknown field. Seems to always have the value `0x00010000`.
    pub unknown1: u32,
    /// Somehow used for sorting cues (`0xFFFF` for the first cue).
    pub order_first: u16,
    /// Somehow used for sorting cues (`0xFFFF` for the last cue).
    pub order_last: u16,
    /// Type of this cue.
    pub cue_type: CueType,
    /// Unknown field. Seems always have the value `0`.
    pub unknown2: u8,
    /// Unknown field. Seems always have the value `0x03E8` (= decimal 1000).
    pub unknown3: u16,
    /// Time in milliseconds after which this cue would occur (at normal playback speed).
    pub time: u32,
    /// Time in milliseconds after which the loop would jump back to `time`.
    pub loop_time: u32,
    /// Unknown field.
    pub unknown4: u32,
    /// Unknown field.
    pub unknown5: u32,
    /// Unknown field.
    pub unknown6: u32,
    /// Unknown field.
    pub unknown7: u32,
}

impl Cue {
    /// The `order_first` value of the cue at 1-based position `order_index`.
    pub open spec fn spec_order_first(order_index: u32) -> u16 {
        if order_index <= 1 {
            0xFFFF
        } else {
            (order_index - 2) as u16
        }
    }

    /// Creates a cue point or loop entry.
    ///
    /// `order_index` is the 1-based position of this cue in its list:
    /// - `order_first`: `0xFFFF` for the first cue, or `order_index - 2` for others.
    /// - `order_last`: `0xFFFF` for the last cue, or `order_index` for others.
    pub fn new(
        hot_cue: u32,
        cue_type: CueType,
        time: u32,
        loop_time: u32,
        order_index: u32,
        is_last: bool,
    ) -> (r: Cue)
        ensures
            r.header == (Header { kind: ContentKind::Cue, size: 28, total_size: 56 }),
            r.hot_cue == hot_cue,
            r.status == (if cue_type == CueType::Loop { 4u32 } else { 0u32 }),
            r.order_first == Cue::spec_order_first(order_index),
            r.order_last == (if is_last { 0xFFFFu16 } else { order_index as u16 }),
            r.cue_type == cue_type,
            r.time == time,
            r.loop_time == loop_time,
            r.unknown1 == 0x0001_0000,
            r.unknown2 == 0,
            r.unknown3 == 0x03E8,
            r.unknown4 == 0 && r.unknown5 == 0 && r.unknown6 == 0 && r.unknown7 == 0,
    {
        let order_first: u16 = if order_index <= 1 {
            0xFFFF
        } else {
            (order_index - 2) as u16
        };
        let order_last: u16 = if is_last {
            0xFFFF
        } else {
            order_index as u16
        };
        let status: u32 = match cue_type {
            CueType::Loop => 4,
            CueType::Point => 0,
        };
        Cue {
            header: Header { kind: ContentKind::Cue, size: 28, total_size: 56 },
            hot_cue,
            status,
            unknown1: 0x0001_0000,
            order_first,
            order_last,
            cue_type,
            unknown2: 0,
            unknown3: 0x03E8,
            time,
            loop_time,
            unknown4: 0,
            unknown5: 0,
            unknown6: 0,
            unknown7: 0,
        }
    }
}

impl View for Cue {
    type V = Cue;

    open spec fn view(&self) -> Cue {
        *self
    }
}

impl Codec for Cue {
    open spec fn wf(m: Cue) -> bool {
        Header::wf(m.header)
    }

    open spec fn writable(m: Cue) -> bool {
        true
    }

    open spec fn enc(m: Cue) -> Seq<u8> {
        Header::enc(m.header) + cue_enc_a(m) + cue_enc_b(m) + cue_enc_c(m)
    }

    open spec fn parse(b: Seq<u8>, p: int) -> Option<(Cue, int)> {
        match Header::parse(b, p) {
            Some((h, q)) => if in_bounds(b, q, 44) {
                match CueType::of_code(b[q + 16]) {
                    Some(t) => Some(
                        (
                            Cue {
                                header: h,
                                hot_cue: u32_at(b, q),
                                status: u32_at(b, q + 4),
                                unknown1: u32_at(b, q + 8),
                                order_first: u16_at(b, q + 12),
                                order_last: u16_at(b, q + 14),
                                cue_type: t,
                                unknown2: b[q + 17],
                                unknown3: u16_at(b, q + 18),
                                time: u32_at(b, q + 20),
                                loop_time: u32_at(b, q + 24),
                                unknown4: u32_at(b, q + 28),
                                unknown5: u32_at(b, q + 32),
                                unknown6: u32_at(b, q + 36),
                                unknown7: u32_at(b, q + 40),
                            },
                            q + 44,
                        ),
                    ),
                    None => None,
                }
            } else {
                None
            },
            None => None,
        }
    }

    proof fn lemma_roundtrip(m: Cue, b: Seq<u8>, p: int) {
        lemma_header_len(m.header);
        let e1 = Header::enc(m.header) + cue_enc_a(m);
        let e2 = e1 + cue_enc_b(m);
        lemma_matches_split(b, p, e2, cue_enc_c(m));
        lemma_matches_split(b, p, e1, cue_enc_b(m));
        lemma_matches_split(b, p, Header::enc(m.header), cue_enc_a(m));
        Header::lemma_roundtrip(m.header, b, p);
        lemma_cue_groups(m, b, p + 12);
    }

    proof fn lemma_parse_wf(b: Seq<u8>, p: int) {
        Header::lemma_parse_wf(b, p);
    }

    fn read(b: &[u8], p: usize) -> (r: Result<(Cue, usize), ParseError>) {
        let (header, q) = match Header::read(b, p) {
            Ok(x) => x,
            Err(e) => return Err(e),
        };
        if q >= b.len() || b.len() - q < 44 {
            return Err(ParseError);
        }
        let cue_type = match CueType::from_code(b[q + 16]) {
            Some(t) => t,
            None => return Err(ParseError),
        };
        Ok(
            (
                Cue {
                    header,
                    hot_cue: get_u32(b, q),
                    status: get_u32(b, q + 4),
                    unknown1: get_u32(b, q + 8),
                    order_first: get_u16(b, q + 12),
                    order_last: get_u16(b, q + 14),
                    cue_type,
                    unknown2: b[q + 17],
                    unknown3: get_u16(b, q + 18),
                    time: get_u32(b, q + 20),
                    loop_time: get_u32(b, q + 24),
                    unknown4: get_u32(b, q + 28),
                    unknown5: get_u32(b, q + 32),
                    unknown6: get_u32(b, q + 36),
                    unknown7: get_u32(b, q + 40),
                },
                q + 44,
            ),
        )
    }

    fn write(&self, out: &mut Vec<u8>) {
        self.header.write(out);
        push_u32(out, self.hot_cue);
        push_u32(out, self.status);
        push_u32(out, self.unknown1);
        push_u16(out, self.order_first);
        push_u16(out, self.order_last);
        let ghost o1 = out@;
        assert(o1 =~= old(out)@ + Header::enc(self.header) + cue_enc_a(*self));
        out.push(self.cue_type.code());
        out.push(self.unknown2);
        push_u16(out, self.unknown3);
        push_u32(out, self.time);
        push_u32(out, self.loop_time);
        let ghost o2 = out@;
        assert(o2 =~= o1 + cue_enc_b(*self));
        push_u32(out, self.unknown4);
        push_u32(out, self.unknown5);
        push_u32(out, self.unknown6);
        push_u32(out, self.unknown7);
        assert(out@ =~= o2 + cue_enc_c(*self));
    }
}

/// Bytes 12 to 28 of a cue.
pub open spec fn cue_enc_a(m: Cue) -> Seq<u8> {
    be32(m.hot_cue) + be32(m.status) + be32(m.unknown1) + be16(m.order_first) + be16(m.order_last)
}

/// Bytes 28 to 40 of a cue.
pub open spec fn cue_enc_b(m: Cue) -> Seq<u8> {
    seq![m.cue_type.spec_code()] + seq![m.unknown2] + be16(m.unknown3) + be32(m.time) + be32(
        m.loop_time,
    )
}

/// Bytes 40 to 56 of a cue.
pub open spec fn cue_enc_c(m: Cue) -> Seq<u8> {
    be32(m.unknown4) + be32(m.unknown5) + be32(m.unknown6) + be32(m.unknown7)
}

proof fn lemma_cue_groups(m: Cue, b: Seq<u8>, q: int)
    requires
        matches_at(b, q, cue_enc_a(m)),
        matches_at(b, q + 16, cue_enc_b(m)),
        matches_at(b, q + 28, cue_enc_c(m)),
    ensures
        u32_at(b, q) == m.hot_cue,
        u32_at(b, q + 4) == m.status,
        u32_at(b, q + 8) == m.unknown1,
        u16_at(b, q + 12) == m.order_first,
        u16_at(b, q + 14) == m.order_last,
        b[q + 16] == m.cue_type.spec_code(),
        b[q + 17] == m.unknown2,
        u16_at(b, q + 18) == m.unknown3,
        u32_at(b, q + 20) == m.time,
        u32_at(b, q + 24) == m.loop_time,
        u32_at(b, q + 28) == m.unknown4,
        u32_at(b, q + 32) == m.unknown5,
        u32_at(b, q + 36) == m.unknown6,
        u32_at(b, q + 40) == m.unknown7,
{
    broadcast use group_decode;

}

/// The model of an extended cue: its fields with the comment as a sequence of code units.
pub struct ExtendedCueView {
    pub header: Header,
    pub hot_cue: u32,
    pub cue_type: CueType,
    pub unknown1: u8,
    pub unknown2: u16,
    pub time: u32,
    pub loop_time: u32,
    pub color: ColorIndex,
    pub unknown3: u8,
    pub unknown4: u16,
    pub unknown5: u32,
    pub loop_numerator: u16,
    pub loop_denominator: u16,
    pub comment: Seq<u16>,
    pub hot_cue_color_index: u8,
    pub hot_cue_color_rgb: (u8, u8, u8),
    pub unknown6: u32,
    pub unknown7: u32,
    pub unknown8: u32,
    pub unknown9: u32,
    pub unknown10: u32,
    pub unknown11: u32,
    pub unknown12: u32,
    pub unknown13: u32,
    pub unknown14: u32,
    pub unknown15: u32,
}

/// A memory or hot cue (or loop), extended version with comment and colors.
#[derive(Debug, PartialEq, Eq)]
pub struct ExtendedCue {
    /// Cue entry header.
    pub header: Header,
    /// Hot cue number (`0` if this is not a hot cue, `1` for A, `2` for B, ...).
    pub hot_cue: u32,
    /// Type of this cue.
    pub cue_type: CueType,
    /// Unknown field. Seems always have the value `0`.
    pub unknown1: u8,
    /// Unknown field. Seems always have the value `0x03E8` (= decimal 1000).
    pub unknown2: u16,
    /// Time in milliseconds after which this cue would occur (at normal playback speed).
    pub time: u32,
    /// Time in milliseconds after which the loop would jump back to `time`.
    pub loop_time: u32,
    /// Color assigned to this cue (used by memory cues).
    pub color: ColorIndex,
    /// Unknown field.
    pub unknown3: u8,
    /// Unknown field.
    pub unknown4: u16,
    /// Unknown field.
    pub unknown5: u32,
    /// Represents the loop size numerator (if this is a quantized loop).
    pub loop_numerator: u16,
    /// Represents the loop size denominator (if this is a quantized loop).
    pub loop_denominator: u16,
    /// The comment, stored as UTF-16BE code units followed by a trailing `0x0000`.
    pub comment: NullWideString,
    /// Rekordbox hotcue color index.
    pub hot_cue_color_index: u8,
    /// Rekordbox hot cue color RGB value (`(0, 0, 0)` if no color is associated).
    pub hot_cue_color_rgb: (u8, u8, u8),
    /// Unknown field.
    pub unknown6: u32,
    /// Unknown field.
    pub unknown7: u32,
    /// Unknown field.
    pub unknown8: u32,
    /// Unknown field.
    pub unknown9: u32,
    /// Unknown field.
    pub unknown10: u32,
    /// Unknown field.
    pub unknown11: u32,
    /// Unknown field.
    pub unknown12: u32,
    /// Unknown field.
    pub unknown13: u32,
    /// Unknown field.
    pub unknown14: u32,
    /// Unknown field.
    pub unknown15: u32,
}

impl View for ExtendedCue {
    type V = ExtendedCueView;

    open spec fn view(&self) -> ExtendedCueView {
        ExtendedCueView {
            header: self.header,
            hot_cue: self.hot_cue,
            cue_type: self.cue_type,
            unknown1: self.unknown1,
            unknown2: self.unknown2,
            time: self.time,
            loop_time: self.loop_time,
            color: self.color,
            unknown3: self.unknown3,
            unknown4: self.unknown4,
            unknown5: self.unknown5,
            loop_numerator: self.loop_numerator,
            loop_denominator: self.loop_denominator,
            comment: self.comment@,
            hot_cue_color_index: self.hot_cue_color_index,
            hot_cue_color_rgb: self.hot_cue_color_rgb,
            unknown6: self.unknown6,
            unknown7: self.unknown7,
            unknown8: self.unknown8,
            unknown9: self.unknown9,
            unknown10: self.unknown10,
            unknown11: self.unknown11,
            unknown12: self.unknown12,
            unknown13: self.unknown13,
            unknown14: self.unknown14,
            unknown15: self.unknown15,
        }
    }
}

/// The stored length in bytes of a comment: zero for an empty comment, else the units and the
/// terminator.
pub open spec fn comment_storage_len(c: Seq<u16>) -> int {
    if c.len() == 0 {
        0
    } else {
        ((c.len() + 1) * 2) as int
    }
}

/// The bytes of a comment: nothing for an empty comment, else the terminated string.
pub open spec fn enc_comment(c: Seq<u16>) -> Seq<u8> {
    if c.len() == 0 {
        Seq::empty()
    } else {
        enc_wide(c)
    }
}

/// Reads a comment whose stored length is `len`. A non-empty comment must have exactly that
/// length.
pub open spec fn parse_comment(b: Seq<u8>, p: int, len: u32) -> Option<(Seq<u16>, int)> {
    if len == 0 {
        Some((Seq::empty(), p))
    } else {
        match parse_wide(b, p) {
            Some((s, q)) => if (s.len() + 1) * 2 == len {
                Some((s, q))
            } else {
                None
            },
            None => None,
        }
    }
}

/// The bytes after the comment.
pub open spec fn enc_extended_cue_tail(m: ExtendedCueView) -> Seq<u8> {
    xcue_enc_d(m) + xcue_enc_e(m) + xcue_enc_f(m)
}

/// The bytes before the comment, including the stored comment length.
pub open spec fn enc_extended_cue_head(m: ExtendedCueView) -> Seq<u8> {
    Header::enc(m.header) + xcue_enc_a(m) + xcue_enc_b(m)
}

proof fn lemma_xcue_from(m: ExtendedCueView, b: Seq<u8>, q: int, r: int)
    requires
        u32_at(b, q) == m.hot_cue,
        b[q + 5] == m.unknown1,
        u16_at(b, q + 6) == m.unknown2,
        u32_at(b, q + 8) == m.time,
        u32_at(b, q + 12) == m.loop_time,
        b[q + 17] == m.unknown3,
        u16_at(b, q + 18) == m.unknown4,
        u32_at(b, q + 20) == m.unknown5,
        u16_at(b, q + 24) == m.loop_numerator,
        u16_at(b, q + 26) == m.loop_denominator,
        b[r] == m.hot_cue_color_index,
        (b[r + 1], b[r + 2], b[r + 3]) == m.hot_cue_color_rgb,
        u32_at(b, r + 4) == m.unknown6,
        u32_at(b, r + 8) == m.unknown7,
        u32_at(b, r + 12) == m.unknown8,
        u32_at(b, r + 16) == m.unknown9,
        u32_at(b, r + 20) == m.unknown10,
        u32_at(b, r + 24) == m.unknown11,
        u32_at(b, r + 28) == m.unknown12,
        u32_at(b, r + 32) == m.unknown13,
        u32_at(b, r + 36) == m.unknown14,
        u32_at(b, r + 40) == m.unknown15,
    ensures
        extended_cue_from(b, m.header, q, m.cue_type, m.color, m.comment, r) == m,
{
}

/// Bytes 12 to 28 of an extended cue.
pub open spec fn xcue_enc_a(m: ExtendedCueView) -> Seq<u8> {
    be32(m.hot_cue) + seq![m.cue_type.spec_code()] + seq![m.unknown1] + be16(m.unknown2) + be32(
        m.time,
    ) + be32(m.loop_time)
}

/// Bytes 28 to 44 of an extended cue.
pub open spec fn xcue_enc_b(m: ExtendedCueView) -> Seq<u8> {
    seq![m.color.spec_byte()] + seq![m.unknown3] + be16(m.unknown4) + be32(m.unknown5) + be16(
        m.loop_numerator,
    ) + be16(m.loop_denominator) + be32(comment_storage_len(m.comment) as u32)
}

/// The first twelve bytes after the comment.
pub open spec fn xcue_enc_d(m: ExtendedCueView) -> Seq<u8> {
    seq![m.hot_cue_color_index] + seq![m.hot_cue_color_rgb.0] + seq![m.hot_cue_color_rgb.1]
        + seq![m.hot_cue_color_rgb.2] + be32(m.unknown6) + be32(m.unknown7)
}

/// The next sixteen bytes after the comment.
pub open spec fn xcue_enc_e(m: ExtendedCueView) -> Seq<u8> {
    be32(m.unknown8) + be32(m.unknown9) + be32(m.unknown10) + be32(m.unknown11)
}

/// The last sixteen bytes of an extended cue.
pub open spec fn xcue_enc_f(m: ExtendedCueView) -> Seq<u8> {
    be32(m.unknown12) + be32(m.unknown13) + be32(m.unknown14) + be32(m.unknown15)
}

proof fn lemma_xcue_head(m: ExtendedCueView, b: Seq<u8>, q: int)
    requires
        matches_at(b, q, xcue_enc_a(m)),
        matches_at(b, q + 16, xcue_enc_b(m)),
    ensures
        u32_at(b, q) == m.hot_cue,
        b[q + 4] == m.cue_type.spec_code(),
        b[q + 5] == m.unknown1,
        u16_at(b, q + 6) == m.unknown2,
        u32_at(b, q + 8) == m.time,
        u32_at(b, q + 12) == m.loop_time,
        b[q + 16] == m.color.spec_byte(),
        b[q + 17] == m.unknown3,
        u16_at(b, q + 18) == m.unknown4,
        u32_at(b, q + 20) == m.unknown5,
        u16_at(b, q + 24) == m.loop_numerator,
        u16_at(b, q + 26) == m.loop_denominator,
        u32_at(b, q + 28) == comment_storage_len(m.comment) as u32,
{
    broadcast use group_decode;

}

proof fn lemma_xcue_tail_d(m: ExtendedCueView, b: Seq<u8>, r: int)
    requires
        matches_at(b, r, xcue_enc_d(m)),
    ensures
        b[r] == m.hot_cue_color_index,
        (b[r + 1], b[r + 2], b[r + 3]) == m.hot_cue_color_rgb,
        u32_at(b, r + 4) == m.unknown6,
        u32_at(b, r + 8) == m.unknown7,
{
    broadcast use group_decode;

}

proof fn lemma_xcue_tail_e(m: ExtendedCueView, b: Seq<u8>, r: int)
    requires
        matches_at(b, r, xcue_enc_e(m)),
    ensures
        u32_at(b, r) == m.unknown8,
        u32_at(b, r + 4) == m.unknown9,
        u32_at(b, r + 8) == m.unknown10,
        u32_at(b, r + 12) == m.unknown11,
{
    broadcast use group_decode;

}

proof fn lemma_xcue_tail_f(m: ExtendedCueView, b: Seq<u8>, r: int)
    requires
        matches_at(b, r, xcue_enc_f(m)),
    ensures
        u32_at(b, r) == m.unknown12,
        u32_at(b, r + 4) == m.unknown13,
        u32_at(b, r + 8) == m.unknown14,
        u32_at(b, r + 12) == m.unknown15,
{
    broadcast use group_decode;

}

proof fn lemma_xcue_tail(m: ExtendedCueView, b: Seq<u8>, r: int)
    requires
        matches_at(b, r, xcue_enc_d(m)),
        matches_at(b, r + 12, xcue_enc_e(m)),
        matches_at(b, r + 28, xcue_enc_f(m)),
    ensures
        b[r] == m.hot_cue_color_index,
        (b[r + 1], b[r + 2], b[r + 3]) == m.hot_cue_color_rgb,
        u32_at(b, r + 4) == m.unknown6,
        u32_at(b, r + 8) == m.unknown7,
        u32_at(b, r + 12) == m.unknown8,
        u32_at(b, r + 16) == m.unknown9,
        u32_at(b, r + 20) == m.unknown10,
        u32_at(b, r + 24) == m.unknown11,
        u32_at(b, r + 28) == m.unknown12,
        u32_at(b, r + 32) == m.unknown13,
        u32_at(b, r + 36) == m.unknown14,
        u32_at(b, r + 40) == m.unknown15,
{
    lemma_xcue_tail_d(m, b, r);
    lemma_xcue_tail_e(m, b, r + 12);
    lemma_xcue_tail_f(m, b, r + 28);
}

/// Decodes an extended cue from the fields before the comment, the comment and the fields
/// after it.
pub open spec fn extended_cue_from(b: Seq<u8>, h: Header, q: int, t: CueType, c: ColorIndex, comment: Seq<u16>, r: int) -> ExtendedCueView {
    ExtendedCueView {
        header: h,
        hot_cue: u32_at(b, q),
        cue_type: t,
        unknown1: b[q + 5],
        unknown2: u16_at(b, q + 6),
        time: u32_at(b, q + 8),
        loop_time: u32_at(b, q + 12),
        color: c,
        unknown3: b[q + 17],
        unknown4: u16_at(b, q + 18),
        unknown5: u32_at(b, q + 20),
        loop_numerator: u16_at(b, q + 24),
        loop_denominator: u16_at(b, q + 26),
        comment,
        hot_cue_color_index: b[r],
        hot_cue_color_rgb: (b[r + 1], b[r + 2], b[r + 3]),
        unknown6: u32_at(b, r + 4),
        unknown7: u32_at(b, r + 8),
        unknown8: u32_at(b, r + 12),
        unknown9: u32_at(b, r + 16),
        unknown10: u32_at(b, r + 20),
        unknown11: u32_at(b, r + 24),
        unknown12: u32_at(b, r + 28),
        unknown13: u32_at(b, r + 32),
        unknown14: u32_at(b, r + 36),
        unknown15: u32_at(b, r + 40),
    }
}

impl Codec for ExtendedCue {
    /// The header is well-formed, the comment has no zero units and its stored length fits.
    open spec fn wf(m: ExtendedCueView) -> bool {
        &&& Header::wf(m.header)
        &&& no_zero_units(m.comment)
        &&& comment_storage_len(m.comment) <= u32::MAX
    }

    open spec fn writable(m: ExtendedCueView) -> bool {
        comment_storage_len(m.comment) <= u32::MAX
    }

    open spec fn enc(m: ExtendedCueView) -> Seq<u8> {
        enc_extended_cue_head(m) + enc_comment(m.comment) + enc_extended_cue_tail(m)
    }

    open spec fn parse(b: Seq<u8>, p: int) -> Option<(ExtendedCueView, int)> {
        match Header::parse(b, p) {
            Some((h, q)) => if in_bounds(b, q, 32) {
                match (CueType::of_code(b[q + 4]), color_of_byte(b[q + 16])) {
                    (Some(t), Some(c)) => match parse_comment(b, q + 32, u32_at(b, q + 28)) {
                        Some((comment, r)) => if in_bounds(b, r, 44) {
                            Some((extended_cue_from(b, h, q, t, c, comment, r), r + 44))
                        } else {
                            None
                        },
                        None => None,
                    },
                    _ => None,
                }
            } else {
                None
            },
            None => None,
        }
    }

    #[verifier::rlimit(80)]
    proof fn lemma_roundtrip(m: ExtendedCueView, b: Seq<u8>, p: int) {
        lemma_header_len(m.header);
        let head = enc_extended_cue_head(m);
        let com = enc_comment(m.comment);
        let tail = enc_extended_cue_tail(m);
        lemma_matches_split(b, p, head + com, tail);
        lemma_matches_split(b, p, head, com);
        lemma_matches_split(b, p, Header::enc(m.header) + xcue_enc_a(m), xcue_enc_b(m));
        lemma_matches_split(b, p, Header::enc(m.header), xcue_enc_a(m));
        Header::lemma_roundtrip(m.header, b, p);
        let q = p + 12;
        lemma_xcue_head(m, b, q);
        let r = q + 32 + com.len();
        if m.comment.len() > 0 {
            lemma_wide_roundtrip(m.comment, b, q + 32);
        }
        assert(parse_comment(b, q + 32, u32_at(b, q + 28)) == Some((m.comment, r)));
        lemma_matches_split(b, r, xcue_enc_d(m) + xcue_enc_e(m), xcue_enc_f(m));
        lemma_matches_split(b, r, xcue_enc_d(m), xcue_enc_e(m));
        lemma_xcue_tail(m, b, r);
        assert(head.len() == 44);
        assert(tail.len() == 44);
        assert(ExtendedCue::enc(m).len() == 88 + com.len());
        assert(Header::parse(b, p) == Some((m.header, q)));
        assert(in_bounds(b, q, 32));
        assert(CueType::of_code(b[q + 4]) == Some(m.cue_type));
        assert(color_of_byte(b[q + 16]) == Some(m.color));
        assert(in_bounds(b, r, 44));
        lemma_xcue_from(m, b, q, r);
    }

    proof fn lemma_parse_wf(b: Seq<u8>, p: int) {
        Header::lemma_parse_wf(b, p);
        if let Some((h, q)) = Header::parse(b, p) {
            lemma_parse_wide_wf(b, q + 32);
        }
    }

    fn read(b: &[u8], p: usize) -> (r: Result<(ExtendedCue, usize), ParseError>) {
        let (header, q) = match Header::read(b, p) {
            Ok(x) => x,
            Err(e) => return Err(e),
        };
        if q >= b.len() || b.len() - q < 32 {
            return Err(ParseError);
        }
        let cue_type = match CueType::from_code(b[q + 4]) {
            Some(t) => t,
            None => return Err(ParseError),
        };
        let color = match ColorIndex::from_byte(b[q + 16]) {
            Some(c) => c,
            None => return Err(ParseError),
        };
        let len_comment = get_u32(b, q + 28);
        let (comment, r) = if len_comment == 0 {
            (Vec::new(), q + 32)
        } else {
            match read_wide(b, q + 32) {
                Some((s, e)) => {
                    proof {
                        lemma_parse_wide_wf(b@, q + 32);
                    }
                    if s.len() < 0x7fff_ffff && (s.len() as u32 + 1) * 2 == len_comment {
                        (s, e)
                    } else {
                        return Err(ParseError);
                    }
                },
                None => return Err(ParseError),
            }
        };
        if r >= b.len() || b.len() - r < 44 {
            return Err(ParseError);
        }
        let v = ExtendedCue {
            header,
            hot_cue: get_u32(b, q),
            cue_type,
            unknown1: b[q + 5],
            unknown2: get_u16(b, q + 6),
            time: get_u32(b, q + 8),
            loop_time: get_u32(b, q + 12),
            color,
            unknown3: b[q + 17],
            unknown4: get_u16(b, q + 18),
            unknown5: get_u32(b, q + 20),
            loop_numerator: get_u16(b, q + 24),
            loop_denominator: get_u16(b, q + 26),
            comment: NullWideString(comment),
            hot_cue_color_index: b[r],
            hot_cue_color_rgb: (b[r + 1], b[r + 2], b[r + 3]),
            unknown6: get_u32(b, r + 4),
            unknown7: get_u32(b, r + 8),
            unknown8: get_u32(b, r + 12),
            unknown9: get_u32(b, r + 16),
            unknown10: get_u32(b, r + 20),
            unknown11: get_u32(b, r + 24),
            unknown12: get_u32(b, r + 28),
            unknown13: get_u32(b, r + 32),
            unknown14: get_u32(b, r + 36),
            unknown15: get_u32(b, r + 40),
        };
        proof {
            assert(v@ == extended_cue_from(b@, header, q as int, cue_type, color, comment@, r as int));
        }
        Ok((v, r + 44))
    }

    fn write(&self, out: &mut Vec<u8>) {
        self.header.write(out);
        let ghost o0 = out@;
        self.write_part_a(out);
        let ghost o1 = out@;
        self.write_part_b(out);
        let ghost head = out@;
        assert(head =~= old(out)@ + enc_extended_cue_head(self@));
        if self.comment.0.len() > 0 {
            write_wide(&self.comment.0, out);
        }
        assert(out@ =~= head + enc_comment(self@.comment));
        let ghost mid = out@;
        self.write_part_d(out);
        let ghost t1 = out@;
        self.write_part_e(out);
        let ghost t2 = out@;
        self.write_part_f(out);
        assert(out@ =~= mid + enc_extended_cue_tail(self@));
        assert(out@ =~= old(out)@ + ExtendedCue::enc(self@));
    }
}

impl ExtendedCue {
    fn write_part_a(&self, out: &mut Vec<u8>)
        ensures
            final(out)@ == old(out)@ + xcue_enc_a(self@),
    {
        push_u32(out, self.hot_cue);
        out.push(self.cue_type.code());
        out.push(self.unknown1);
        push_u16(out, self.unknown2);
        push_u32(out, self.time);
        push_u32(out, self.loop_time);
        assert(out@ =~= old(out)@ + xcue_enc_a(self@));
    }

    fn write_part_b(&self, out: &mut Vec<u8>)
        requires
            ExtendedCue::writable(self@),
        ensures
            final(out)@ == old(out)@ + xcue_enc_b(self@),
    {
        out.push(self.color.to_byte());
        out.push(self.unknown3);
        push_u16(out, self.unknown4);
        push_u32(out, self.unknown5);
        push_u16(out, self.loop_numerator);
        push_u16(out, self.loop_denominator);
        let n = self.comment.0.len();
        let len_comment: u32 = if n == 0 {
            0
        } else {
            ((n + 1) * 2) as u32
        };
        push_u32(out, len_comment);
        assert(out@ =~= old(out)@ + xcue_enc_b(self@));
    }

    fn write_part_d(&self, out: &mut Vec<u8>)
        ensures
            final(out)@ == old(out)@ + xcue_enc_d(self@),
    {
        out.push(self.hot_cue_color_index);
        out.push(self.hot_cue_color_rgb.0);
        out.push(self.hot_cue_color_rgb.1);
        out.push(self.hot_cue_color_rgb.2);
        push_u32(out, self.unknown6);
        push_u32(out, self.unknown7);
        assert(out@ =~= old(out)@ + xcue_enc_d(self@));
    }

    fn write_part_e(&self, out: &mut Vec<u8>)
        ensures
            final(out)@ == old(out)@ + xcue_enc_e(self@),
    {
        push_u32(out, self.unknown8);
        push_u32(out, self.unknown9);
        push_u32(out, self.unknown10);
        push_u32(out, self.unknown11);
        assert(out@ =~= old(out)@ + xcue_enc_e(self@));
    }

    fn write_part_f(&self, out: &mut Vec<u8>)
        ensures
            final(out)@ == old(out)@ + xcue_enc_f(self@),
    {
        push_u32(out, self.unknown12);
        push_u32(out, self.unknown13);
        push_u32(out, self.unknown14);
        push_u32(out, self.unknown15);
        assert(out@ =~= old(out)@ + xcue_enc_f(self@));
    }
}

} // verus!
