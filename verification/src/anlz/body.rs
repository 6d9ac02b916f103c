//! Section contents and their byte layouts.
//!
//! A section body is everything after the twelve header bytes `kind`, `size` and
//! `total_size`. Some bodies are checked against their header while reading: the
//! `content_size` of a header is `total_size - size`.
use super::columns::{
    TinyWaveformPreviewColumn, WaveformColorDetailColumn, WaveformColorPreviewColumn,
    WaveformPreviewColumn,
};
use super::cue::{Beat, Cue, CueListType, ExtendedCue, ExtendedCueView};
use super::kind::{ContentKind, Header};
use crate::codec::{
    all_wf, be16, be32, enc_seq, get_u16, get_u32, group_decode, in_bounds,
    lemma_matches_split, lemma_parse_seq_wf, lemma_seq_roundtrip, matches_at, parse_seq,
    push_u16, push_u32, read_vec, res_ok, seq_view, u16_at, u32_at, write_vec, Codec,
    ParseError,
};
use crate::wide::{
    enc_wide, lemma_parse_wide_wf, lemma_wide_roundtrip, no_zero_units, parse_wide, read_wide,
    write_wide, NullWideString,
};
use vstd::prelude::*;

verus! {

/// The header leaves room for its own twelve bytes and gives a content size.
pub open spec fn sizes_ok(h: Header) -> bool {
    12 <= h.size <= h.total_size
}

/// Content bytes after the header, by the header.
pub open spec fn content_size(h: Header) -> int {
    h.total_size - h.size
}

/// The content of a section, read in the context of its header.
pub trait SectionBody: View + Sized {
    /// The values that reading produces in the context of header `h`.
    spec fn body_wf(m: Self::V, h: Header) -> bool;

    /// The values that can be written without overflowing a stored length.
    spec fn body_writable(m: Self::V) -> bool;

    /// The bytes of the body.
    spec fn body_enc(m: Self::V) -> Seq<u8>;

    /// Decodes a body starting at `p` in the context of header `h`.
    spec fn body_parse(b: Seq<u8>, p: int, h: Header) -> Option<(Self::V, int)>;

    /// Decoding the bytes of a well-formed body gives it back.
    proof fn lemma_body_roundtrip(m: Self::V, b: Seq<u8>, p: int, h: Header)
        requires
            Self::body_wf(m, h),
            matches_at(b, p, Self::body_enc(m)),
        ensures
            Self::body_parse(b, p, h) == Some((m, p + Self::body_enc(m).len())),
    ;

    /// Whatever is decoded is well-formed and lies inside the bytes.
    proof fn lemma_body_parse_wf(b: Seq<u8>, p: int, h: Header)
        ensures
            Self::body_parse(b, p, h) matches Some((m, q)) ==> Self::body_wf(m, h) && p <= q
                <= b.len(),
    ;

    /// Reads a body starting at `p` in the context of header `h`.
    fn read_body(b: &[u8], p: usize, h: &Header) -> (r: Result<(Self, usize), ParseError>)
        ensures
            res_ok(r, Self::body_parse(b@, p as int, *h)),
    ;

    /// Appends the bytes of the body.
    fn write_body(&self, out: &mut Vec<u8>)
        requires
            Self::body_writable(self@),
        ensures
            final(out)@ == old(out)@ + Self::body_enc(self@),
    ;
}

/// Reads `n` items after a bounds-free prefix, with the facts callers need.
proof fn lemma_items<T: Codec>(ms: Seq<T::V>, b: Seq<u8>, p: int)
    requires
        all_wf::<T>(ms),
        matches_at(b, p, enc_seq::<T>(ms)),
    ensures
        parse_seq::<T>(b, p, ms.len()) == Some((ms, p + enc_seq::<T>(ms).len())),
{
    lemma_seq_roundtrip::<T>(ms, b, p);
}

/// All beats in the track.
#[derive(Debug, PartialEq, Eq)]
pub struct BeatGrid {
    /// Unknown field.
    pub unknown1: u32,
    /// Unknown field (always `00800000`).
    pub unknown2: u32,
    /// Beats in this beatgrid.
    pub beats: Vec<Beat>,
}

/// The model of a beat grid.
pub struct BeatGridView {
    pub unknown1: u32,
    pub unknown2: u32,
    pub beats: Seq<Beat>,
}

impl View for BeatGrid {
    type V = BeatGridView;

    open spec fn view(&self) -> BeatGridView {
        BeatGridView {
            unknown1: self.unknown1,
            unknown2: self.unknown2,
            beats: seq_view(self.beats@),
        }
    }
}

impl BeatGrid {
    /// Creates a beat grid with the given beats.
    pub fn new(beats: Vec<Beat>) -> (r: Self)
        ensures
            r@ == (BeatGridView { unknown1: 0, unknown2: 0x0080_0000, beats: seq_view(beats@) }),
    {
        BeatGrid { unknown1: 0, unknown2: 0x0080_0000, beats }
    }
}

impl SectionBody for BeatGrid {
    open spec fn body_wf(m: BeatGridView, h: Header) -> bool {
        m.beats.len() <= u32::MAX
    }

    open spec fn body_writable(m: BeatGridView) -> bool {
        true
    }

    open spec fn body_enc(m: BeatGridView) -> Seq<u8> {
        be32(m.unknown1) + be32(m.unknown2) + be32(m.beats.len() as u32) + enc_seq::<Beat>(m.beats)
    }

    open spec fn body_parse(b: Seq<u8>, p: int, h: Header) -> Option<(BeatGridView, int)> {
        if in_bounds(b, p, 12) {
            match parse_seq::<Beat>(b, p + 12, u32_at(b, p + 8) as nat) {
                Some((beats, q)) => Some(
                    (
                        BeatGridView {
                            unknown1: u32_at(b, p),
                            unknown2: u32_at(b, p + 4),
                            beats,
                        },
                        q,
                    ),
                ),
                None => None,
            }
        } else {
            None
        }
    }

    proof fn lemma_body_roundtrip(m: BeatGridView, b: Seq<u8>, p: int, h: Header) {
        let head = be32(m.unknown1) + be32(m.unknown2) + be32(m.beats.len() as u32);
        lemma_matches_split(b, p, head, enc_seq::<Beat>(m.beats));
        lemma_head3(m.unknown1, m.unknown2, m.beats.len() as u32, b, p);
        lemma_items::<Beat>(m.beats, b, p + 12);
    }

    proof fn lemma_body_parse_wf(b: Seq<u8>, p: int, h: Header) {
        if in_bounds(b, p, 12) {
            lemma_parse_seq_wf::<Beat>(b, p + 12, u32_at(b, p + 8) as nat);
        }
    }

    fn read_body(b: &[u8], p: usize, h: &Header) -> (r: Result<(Self, usize), ParseError>) {
        if p >= b.len() || b.len() - p < 12 {
            return Err(ParseError);
        }
        let unknown1 = get_u32(b, p);
        let unknown2 = get_u32(b, p + 4);
        let n = get_u32(b, p + 8);
        match read_vec::<Beat>(b, p + 12, n as usize) {
            Ok((beats, q)) => Ok((BeatGrid { unknown1, unknown2, beats }, q)),
            Err(e) => Err(e),
        }
    }

    fn write_body(&self, out: &mut Vec<u8>) {
        push_u32(out, self.unknown1);
        push_u32(out, self.unknown2);
        push_u32(out, self.beats.len() as u32);
        write_vec(&self.beats, out);
        assert(out@ =~= old(out)@ + Self::body_enc(self@));
    }
}

/// Three big-endian numbers read back from their bytes.
proof fn lemma_head3(x: u32, y: u32, z: u32, b: Seq<u8>, p: int)
    requires
        matches_at(b, p, be32(x) + be32(y) + be32(z)),
    ensures
        u32_at(b, p) == x,
        u32_at(b, p + 4) == y,
        u32_at(b, p + 8) == z,
        in_bounds(b, p, 12),
{
    broadcast use group_decode;

}

/// List of cue points or loops (either hot cues or memory cues).
#[derive(Debug, PartialEq, Eq)]
pub struct CueList {
    /// The types of cues (memory or hot) that this list contains.
    pub list_type: CueListType,
    /// Unknown field.
    pub unknown: u16,
    /// Unknown field (`0xFFFFFFFF` in observed non-empty lists, `0` when empty).
    pub memory_count: u32,
    /// Cues.
    pub cues: Vec<Cue>,
}

/// The model of a cue list.
pub struct CueListView {
    pub list_type: CueListType,
    pub unknown: u16,
    pub memory_count: u32,
    pub cues: Seq<Cue>,
}

impl View for CueList {
    type V = CueListView;

    open spec fn view(&self) -> CueListView {
        CueListView {
            list_type: self.list_type,
            unknown: self.unknown,
            memory_count: self.memory_count,
            cues: seq_view(self.cues@),
        }
    }
}

impl CueList {
    /// Creates a cue list of the given type.
    pub fn new(list_type: CueListType, cues: Vec<Cue>) -> (r: Self)
        ensures
            r@ == (CueListView {
                list_type,
                unknown: 0,
                memory_count: if cues@.len() == 0 { 0u32 } else { 0xFFFF_FFFFu32 },
                cues: seq_view(cues@),
            }),
    {
        let memory_count: u32 = if cues.len() == 0 {
            0
        } else {
            0xFFFF_FFFF
        };
        CueList { list_type, unknown: 0, memory_count, cues }
    }
}

impl SectionBody for CueList {
    open spec fn body_wf(m: CueListView, h: Header) -> bool {
        m.cues.len() <= u16::MAX && all_wf::<Cue>(m.cues)
    }

    open spec fn body_writable(m: CueListView) -> bool {
        true
    }

    open spec fn body_enc(m: CueListView) -> Seq<u8> {
        be32(m.list_type.spec_code()) + be16(m.unknown) + be16(m.cues.len() as u16) + be32(
            m.memory_count,
        ) + enc_seq::<Cue>(m.cues)
    }

    open spec fn body_parse(b: Seq<u8>, p: int, h: Header) -> Option<(CueListView, int)> {
        if in_bounds(b, p, 12) {
            match CueListType::of_code(u32_at(b, p)) {
                Some(t) => match parse_seq::<Cue>(b, p + 12, u16_at(b, p + 6) as nat) {
                    Some((cues, q)) => Some(
                        (
                            CueListView {
                                list_type: t,
                                unknown: u16_at(b, p + 4),
                                memory_count: u32_at(b, p + 8),
                                cues,
                            },
                            q,
                        ),
                    ),
                    None => None,
                },
                None => None,
            }
        } else {
            None
        }
    }

    proof fn lemma_body_roundtrip(m: CueListView, b: Seq<u8>, p: int, h: Header) {
        let head = be32(m.list_type.spec_code()) + be16(m.unknown) + be16(m.cues.len() as u16)
            + be32(m.memory_count);
        lemma_matches_split(b, p, head, enc_seq::<Cue>(m.cues));
        lemma_list_head(m.list_type.spec_code(), m.unknown, m.cues.len() as u16, m.memory_count, b, p);
        lemma_items::<Cue>(m.cues, b, p + 12);
    }

    proof fn lemma_body_parse_wf(b: Seq<u8>, p: int, h: Header) {
        if in_bounds(b, p, 12) {
            lemma_parse_seq_wf::<Cue>(b, p + 12, u16_at(b, p + 6) as nat);
        }
    }

    fn read_body(b: &[u8], p: usize, h: &Header) -> (r: Result<(Self, usize), ParseError>) {
        if p >= b.len() || b.len() - p < 12 {
            return Err(ParseError);
        }
        let list_type = match CueListType::from_code(get_u32(b, p)) {
            Some(t) => t,
            None => return Err(ParseError),
        };
        let unknown = get_u16(b, p + 4);
        let n = get_u16(b, p + 6);
        let memory_count = get_u32(b, p + 8);
        match read_vec::<Cue>(b, p + 12, n as usize) {
            Ok((cues, q)) => Ok((CueList { list_type, unknown, memory_count, cues }, q)),
            Err(e) => Err(e),
        }
    }

    fn write_body(&self, out: &mut Vec<u8>) {
        push_u32(out, self.list_type.code());
        push_u16(out, self.unknown);
        push_u16(out, self.cues.len() as u16);
        push_u32(out, self.memory_count);
        write_vec(&self.cues, out);
        assert(out@ =~= old(out)@ + Self::body_enc(self@));
    }
}

/// The twelve bytes before the cues of a cue list.
proof fn lemma_list_head(t: u32, x: u16, n: u16, c: u32, b: Seq<u8>, p: int)
    requires
        matches_at(b, p, be32(t) + be16(x) + be16(n) + be32(c)),
    ensures
        u32_at(b, p) == t,
        u16_at(b, p + 4) == x,
        u16_at(b, p + 6) == n,
        u32_at(b, p + 8) == c,
        in_bounds(b, p, 12),
{
    broadcast use group_decode;

}

/// List of cue points or loops, extended version with comments and colors.
#[derive(Debug, PartialEq, Eq)]
pub struct ExtendedCueList {
    /// The types of cues (memory or hot) that this list contains.
    pub list_type: CueListType,
    /// Unknown field (always `0`).
    pub unknown: u16,
    /// Cues.
    pub cues: Vec<ExtendedCue>,
}

/// The model of an extended cue list.
pub struct ExtendedCueListView {
    pub list_type: CueListType,
    pub unknown: u16,
    pub cues: Seq<ExtendedCueView>,
}

impl View for ExtendedCueList {
    type V = ExtendedCueListView;

    open spec fn view(&self) -> ExtendedCueListView {
        ExtendedCueListView {
            list_type: self.list_type,
            unknown: self.unknown,
            cues: seq_view(self.cues@),
        }
    }
}

impl ExtendedCueList {
    /// Creates an empty extended cue list of the given type.
    pub fn empty(list_type: CueListType) -> (r: Self)
        ensures
            r@ == (ExtendedCueListView { list_type, unknown: 0, cues: Seq::empty() }),
    {
        let r = ExtendedCueList { list_type, unknown: 0, cues: Vec::new() };
        assert(r@.cues =~= Seq::<ExtendedCueView>::empty());
        r
    }
}

impl SectionBody for ExtendedCueList {
    open spec fn body_wf(m: ExtendedCueListView, h: Header) -> bool {
        m.unknown == 0 && m.cues.len() <= u16::MAX && all_wf::<ExtendedCue>(m.cues)
    }

    open spec fn body_writable(m: ExtendedCueListView) -> bool {
        forall|i: int| 0 <= i < m.cues.len() ==> ExtendedCue::writable(#[trigger] m.cues[i])
    }

    open spec fn body_enc(m: ExtendedCueListView) -> Seq<u8> {
        be32(m.list_type.spec_code()) + be16(m.cues.len() as u16) + be16(m.unknown) + enc_seq::<
            ExtendedCue,
        >(m.cues)
    }

    open spec fn body_parse(b: Seq<u8>, p: int, h: Header) -> Option<(ExtendedCueListView, int)> {
        if in_bounds(b, p, 8) && u16_at(b, p + 6) == 0 {
            match CueListType::of_code(u32_at(b, p)) {
                Some(t) => match parse_seq::<ExtendedCue>(b, p + 8, u16_at(b, p + 4) as nat) {
                    Some((cues, q)) => Some(
                        (ExtendedCueListView { list_type: t, unknown: 0, cues }, q),
                    ),
                    None => None,
                },
                None => None,
            }
        } else {
            None
        }
    }

    proof fn lemma_body_roundtrip(m: ExtendedCueListView, b: Seq<u8>, p: int, h: Header) {
        let head = be32(m.list_type.spec_code()) + be16(m.cues.len() as u16) + be16(m.unknown);
        lemma_matches_split(b, p, head, enc_seq::<ExtendedCue>(m.cues));
        lemma_xlist_head(m.list_type.spec_code(), m.cues.len() as u16, m.unknown, b, p);
        lemma_items::<ExtendedCue>(m.cues, b, p + 8);
    }

    proof fn lemma_body_parse_wf(b: Seq<u8>, p: int, h: Header) {
        if in_bounds(b, p, 8) {
            lemma_parse_seq_wf::<ExtendedCue>(b, p + 8, u16_at(b, p + 4) as nat);
        }
    }

    fn read_body(b: &[u8], p: usize, h: &Header) -> (r: Result<(Self, usize), ParseError>) {
        if p >= b.len() || b.len() - p < 8 {
            return Err(ParseError);
        }
        if get_u16(b, p + 6) != 0 {
            return Err(ParseError);
        }
        let list_type = match CueListType::from_code(get_u32(b, p)) {
            Some(t) => t,
            None => return Err(ParseError),
        };
        let n = get_u16(b, p + 4);
        match read_vec::<ExtendedCue>(b, p + 8, n as usize) {
            Ok((cues, q)) => Ok((ExtendedCueList { list_type, unknown: 0, cues }, q)),
            Err(e) => Err(e),
        }
    }

    fn write_body(&self, out: &mut Vec<u8>) {
        proof {
            assert forall|i: int| 0 <= i < self.cues@.len() implies ExtendedCue::writable(
                #[trigger] self.cues@[i]@,
            ) by {
                assert(self@.cues[i] == self.cues@[i]@);
            }
        }
        let ghost o0 = out@;
        push_u32(out, self.list_type.code());
        push_u16(out, self.cues.len() as u16);
        push_u16(out, self.unknown);
        let ghost o1 = out@;
        assert(o1 =~= o0 + be32(self@.list_type.spec_code()) + be16(self@.cues.len() as u16)
            + be16(self@.unknown));
        write_vec(&self.cues, out);
    }
}

/// The eight bytes before the cues of an extended cue list.
proof fn lemma_xlist_head(t: u32, n: u16, x: u16, b: Seq<u8>, p: int)
    requires
        matches_at(b, p, be32(t) + be16(n) + be16(x)),
    ensures
        u32_at(b, p) == t,
        u16_at(b, p + 4) == n,
        u16_at(b, p + 6) == x,
        in_bounds(b, p, 8),
{
    broadcast use group_decode;

}

/// Path of the audio file that this analysis belongs to.
#[derive(Debug, PartialEq, Eq)]
pub struct Path {
    /// Path of the audio file.
    pub path: NullWideString,
}

impl View for Path {
    type V = Seq<u16>;

    open spec fn view(&self) -> Seq<u16> {
        self.path@
    }
}

impl Path {
    /// Creates a path section from a file path string.
    pub fn new(path: NullWideString) -> (r: Self)
        ensures
            r@ == path@,
    {
        Path { path }
    }
}

/// Stored length in bytes of a terminated string.
pub open spec fn wide_storage_len(s: Seq<u16>) -> int {
    ((s.len() + 1) * 2) as int
}

impl SectionBody for Path {
    /// The path has no zero units and its stored length is the content size.
    open spec fn body_wf(m: Seq<u16>, h: Header) -> bool {
        &&& no_zero_units(m)
        &&& h.size <= h.total_size
        &&& wide_storage_len(m) == content_size(h)
    }

    open spec fn body_writable(m: Seq<u16>) -> bool {
        wide_storage_len(m) <= u32::MAX
    }

    open spec fn body_enc(m: Seq<u16>) -> Seq<u8> {
        be32(wide_storage_len(m) as u32) + enc_wide(m)
    }

    open spec fn body_parse(b: Seq<u8>, p: int, h: Header) -> Option<(Seq<u16>, int)> {
        if in_bounds(b, p, 4) && h.size <= h.total_size && u32_at(b, p) == content_size(h) {
            match parse_wide(b, p + 4) {
                Some((s, q)) => if wide_storage_len(s) == u32_at(b, p) {
                    Some((s, q))
                } else {
                    None
                },
                None => None,
            }
        } else {
            None
        }
    }

    proof fn lemma_body_roundtrip(m: Seq<u16>, b: Seq<u8>, p: int, h: Header) {
        broadcast use group_decode;

        lemma_matches_split(b, p, be32(wide_storage_len(m) as u32), enc_wide(m));
        lemma_wide_roundtrip(m, b, p + 4);
    }

    proof fn lemma_body_parse_wf(b: Seq<u8>, p: int, h: Header) {
        lemma_parse_wide_wf(b, p + 4);
    }

    fn read_body(b: &[u8], p: usize, h: &Header) -> (r: Result<(Self, usize), ParseError>) {
        if p >= b.len() || b.len() - p < 4 || h.size > h.total_size {
            return Err(ParseError);
        }
        let len_path = get_u32(b, p);
        if len_path != h.total_size - h.size {
            return Err(ParseError);
        }
        match read_wide(b, p + 4) {
            Some((s, q)) => {
                proof {
                    lemma_parse_wide_wf(b@, p + 4);
                }
                if s.len() < 0x7fff_ffff && (s.len() as u32 + 1) * 2 == len_path {
                    Ok((Path { path: NullWideString(s) }, q))
                } else {
                    Err(ParseError)
                }
            },
            None => Err(ParseError),
        }
    }

    fn write_body(&self, out: &mut Vec<u8>) {
        let n = self.path.0.len();
        push_u32(out, ((n + 1) * 2) as u32);
        write_wide(&self.path.0, out);
        assert(out@ =~= old(out)@ + Self::body_enc(self@));
    }
}

/// Seek information for variable bitrate files (probably).
#[derive(Debug, PartialEq, Eq)]
pub struct VBR {
    /// Unknown field.
    pub unknown1: u32,
    /// Unknown data.
    pub unknown2: Vec<u8>,
}

/// The model of a `VBR` section.
pub struct VBRView {
    pub unknown1: u32,
    pub unknown2: Seq<u8>,
}

impl View for VBR {
    type V = VBRView;

    open spec fn view(&self) -> VBRView {
        VBRView { unknown1: self.unknown1, unknown2: self.unknown2@ }
    }
}

impl VBR {
    /// Creates a blank `VBR` section whose content is `content_len` zero bytes.
    pub fn new_blank(content_len: usize) -> (r: Self)
        ensures
            r@ == (VBRView { unknown1: 0, unknown2: Seq::new(content_len as nat, |i: int| 0u8) }),
    {
        let mut data: Vec<u8> = Vec::new();
        let mut i: usize = 0;
        while i < content_len
            invariant
                i <= content_len,
                data@ == Seq::new(i as nat, |j: int| 0u8),
            decreases content_len - i,
        {
            data.push(0);
            i = i + 1;
            assert(data@ =~= Seq::new(i as nat, |j: int| 0u8));
        }
        VBR { unknown1: 0, unknown2: data }
    }
}

impl SectionBody for VBR {
    open spec fn body_wf(m: VBRView, h: Header) -> bool {
        h.size <= h.total_size && m.unknown2.len() == content_size(h)
    }

    open spec fn body_writable(m: VBRView) -> bool {
        true
    }

    open spec fn body_enc(m: VBRView) -> Seq<u8> {
        be32(m.unknown1) + m.unknown2
    }

    open spec fn body_parse(b: Seq<u8>, p: int, h: Header) -> Option<(VBRView, int)> {
        if in_bounds(b, p, 4) && h.size <= h.total_size && in_bounds(b, p + 4, content_size(h)) {
            Some(
                (
                    VBRView {
                        unknown1: u32_at(b, p),
                        unknown2: b.subrange(p + 4, p + 4 + content_size(h)),
                    },
                    p + 4 + content_size(h),
                ),
            )
        } else {
            None
        }
    }

    proof fn lemma_body_roundtrip(m: VBRView, b: Seq<u8>, p: int, h: Header) {
        broadcast use group_decode;

        lemma_matches_split(b, p, be32(m.unknown1), m.unknown2);
    }

    proof fn lemma_body_parse_wf(b: Seq<u8>, p: int, h: Header) {
    }

    fn read_body(b: &[u8], p: usize, h: &Header) -> (r: Result<(Self, usize), ParseError>) {
        if p >= b.len() || b.len() - p < 4 || h.size > h.total_size {
            return Err(ParseError);
        }
        let n = (h.total_size - h.size) as usize;
        if b.len() - p - 4 < n {
            return Err(ParseError);
        }
        let unknown1 = get_u32(b, p);
        let unknown2 = crate::codec::copy_bytes(b, p + 4, n);
        Ok((VBR { unknown1, unknown2 }, p + 4 + n))
    }

    fn write_body(&self, out: &mut Vec<u8>) {
        push_u32(out, self.unknown1);
        crate::codec::append_bytes(out, self.unknown2.as_slice());
        assert(out@ =~= old(out)@ + Self::body_enc(self@));
    }
}

} // verus!
