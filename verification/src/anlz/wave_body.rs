//! Waveform section contents, the color calibration and unknown sections.
use super::body::{content_size, sizes_ok, SectionBody};
use super::columns::{
    TinyWaveformPreviewColumn, WaveformColorDetailColumn, WaveformColorPreviewColumn,
    WaveformPreviewColumn,
};
use super::kind::{ContentKind, Header};
use crate::codec::{
    all_wf, append_bytes, be16, be32, copy_bytes, enc_seq, get_u16, get_u32, group_decode,
    in_bounds, lemma_matches_split, lemma_parse_seq_wf, lemma_seq_roundtrip, matches_at,
    parse_seq, push_u16, push_u32, read_vec, res_ok, seq_view, u16_at, u32_at, write_vec, Codec,
    ParseError,
};
use vstd::prelude::*;

verus! {

/// Two big-endian numbers read back from their bytes.
proof fn lemma_head2(x: u32, y: u32, b: Seq<u8>, p: int)
    requires
        matches_at(b, p, be32(x) + be32(y)),
    ensures
        u32_at(b, p) == x,
        u32_at(b, p + 4) == y,
        in_bounds(b, p, 8),
{
    broadcast use group_decode;

}

/// Three big-endian numbers read back from their bytes.
proof fn lemma_head3(x: u32, y: u32, z: u32, b: Seq<u8>, p: int)
    requires
        matches_at(b, p, be32(x) + be32(y) + be32(z)),
    ensures
        u32_at(b, p) == x,
        u32_at(b, p + 4) == y,
        u32_at(b, p + 8) == z,
        in_bounds(b, p, 12),
{
    broadcast use group_decode;

}

/// Fixed-width monochrome preview of the track waveform.
#[derive(Debug, PartialEq, Eq)]
pub struct WaveformPreview {
    /// Unknown field (apparently always `0x00100000`).
    pub unknown: u32,
    /// Waveform preview column data.
    pub data: Vec<WaveformPreviewColumn>,
}

/// The model of a waveform preview: its unknown field and the column bytes.
pub struct WaveformPreviewView {
    pub unknown: u32,
    pub data: Seq<u8>,
}

impl View for WaveformPreview {
    type V = WaveformPreviewView;

    open spec fn view(&self) -> WaveformPreviewView {
        WaveformPreviewView { unknown: self.unknown, data: seq_view(self.data@) }
    }
}

impl WaveformPreview {
    /// Creates a waveform preview from the given column data.
    pub fn new(data: Vec<WaveformPreviewColumn>) -> (r: Self)
        ensures
            r@ == (WaveformPreviewView { unknown: 0x0010_0000, data: seq_view(data@) }),
    {
        WaveformPreview { unknown: 0x0010_0000, data }
    }
}

impl SectionBody for WaveformPreview {
    /// The number of columns is the content size.
    open spec fn body_wf(m: WaveformPreviewView, h: Header) -> bool {
        h.size <= h.total_size && m.data.len() == content_size(h)
    }

    open spec fn body_writable(m: WaveformPreviewView) -> bool {
        true
    }

    open spec fn body_enc(m: WaveformPreviewView) -> Seq<u8> {
        be32(m.data.len() as u32) + be32(m.unknown) + enc_seq::<WaveformPreviewColumn>(m.data)
    }

    open spec fn body_parse(b: Seq<u8>, p: int, h: Header) -> Option<(WaveformPreviewView, int)> {
        if in_bounds(b, p, 8) && h.size <= h.total_size && u32_at(b, p) == content_size(h) {
            match parse_seq::<WaveformPreviewColumn>(b, p + 8, u32_at(b, p) as nat) {
                Some((data, q)) => Some((WaveformPreviewView { unknown: u32_at(b, p + 4), data }, q)),
                None => None,
            }
        } else {
            None
        }
    }

    proof fn lemma_body_roundtrip(m: WaveformPreviewView, b: Seq<u8>, p: int, h: Header) {
        let head = be32(m.data.len() as u32) + be32(m.unknown);
        lemma_matches_split(b, p, head, enc_seq::<WaveformPreviewColumn>(m.data));
        lemma_head2(m.data.len() as u32, m.unknown, b, p);
        lemma_seq_roundtrip::<WaveformPreviewColumn>(m.data, b, p + 8);
    }

    proof fn lemma_body_parse_wf(b: Seq<u8>, p: int, h: Header) {
        if in_bounds(b, p, 8) {
            lemma_parse_seq_wf::<WaveformPreviewColumn>(b, p + 8, u32_at(b, p) as nat);
        }
    }

    fn read_body(b: &[u8], p: usize, h: &Header) -> (r: Result<(Self, usize), ParseError>) {
        if p >= b.len() || b.len() - p < 8 || h.size > h.total_size {
            return Err(ParseError);
        }
        let n = get_u32(b, p);
        if n != h.total_size - h.size {
            return Err(ParseError);
        }
        let unknown = get_u32(b, p + 4);
        match read_vec::<WaveformPreviewColumn>(b, p + 8, n as usize) {
            Ok((data, q)) => Ok((WaveformPreview { unknown, data }, q)),
            Err(e) => Err(e),
        }
    }

    fn write_body(&self, out: &mut Vec<u8>) {
        push_u32(out, self.data.len() as u32);
        push_u32(out, self.unknown);
        write_vec(&self.data, out);
        assert(out@ =~= old(out)@ + Self::body_enc(self@));
    }
}

/// Smaller version of the fixed-width monochrome preview of the track waveform.
#[derive(Debug, PartialEq, Eq)]
pub struct TinyWaveformPreview {
    /// Unknown field (apparently always `0x00100000`).
    pub unknown: u32,
    /// Waveform preview column data.
    pub data: Vec<TinyWaveformPreviewColumn>,
}

/// The model of a tiny waveform preview: its unknown field and the column bytes.
pub struct TinyWaveformPreviewView {
    pub unknown: u32,
    pub data: Seq<u8>,
}

impl View for TinyWaveformPreview {
    type V = TinyWaveformPreviewView;

    open spec fn view(&self) -> TinyWaveformPreviewView {
        TinyWaveformPreviewView { unknown: self.unknown, data: seq_view(self.data@) }
    }
}

impl TinyWaveformPreview {
    /// Creates a tiny waveform preview from the given column data.
    pub fn new(data: Vec<TinyWaveformPreviewColumn>) -> (r: Self)
        ensures
            r@ == (TinyWaveformPreviewView { unknown: 0x0010_0000, data: seq_view(data@) }),
    {
        TinyWaveformPreview { unknown: 0x0010_0000, data }
    }
}

impl SectionBody for TinyWaveformPreview {
    /// The number of columns is the content size.
    open spec fn body_wf(m: TinyWaveformPreviewView, h: Header) -> bool {
        h.size <= h.total_size && m.data.len() == content_size(h)
    }

    open spec fn body_writable(m: TinyWaveformPreviewView) -> bool {
        true
    }

    open spec fn body_enc(m: TinyWaveformPreviewView) -> Seq<u8> {
        be32(m.data.len() as u32) + be32(m.unknown) + enc_seq::<TinyWaveformPreviewColumn>(m.data)
    }

    open spec fn body_parse(b: Seq<u8>, p: int, h: Header) -> Option<(TinyWaveformPreviewView, int)> {
        if in_bounds(b, p, 8) && h.size <= h.total_size && u32_at(b, p) == content_size(h) {
            match parse_seq::<TinyWaveformPreviewColumn>(b, p + 8, u32_at(b, p) as nat) {
                Some((data, q)) => Some(
                    (TinyWaveformPreviewView { unknown: u32_at(b, p + 4), data }, q),
                ),
                None => None,
            }
        } else {
            None
        }
    }

    proof fn lemma_body_roundtrip(m: TinyWaveformPreviewView, b: Seq<u8>, p: int, h: Header) {
        let head = be32(m.data.len() as u32) + be32(m.unknown);
        lemma_matches_split(b, p, head, enc_seq::<TinyWaveformPreviewColumn>(m.data));
        lemma_head2(m.data.len() as u32, m.unknown, b, p);
        lemma_seq_roundtrip::<TinyWaveformPreviewColumn>(m.data, b, p + 8);
    }

    proof fn lemma_body_parse_wf(b: Seq<u8>, p: int, h: Header) {
        if in_bounds(b, p, 8) {
            lemma_parse_seq_wf::<TinyWaveformPreviewColumn>(b, p + 8, u32_at(b, p) as nat);
        }
    }

    fn read_body(b: &[u8], p: usize, h: &Header) -> (r: Result<(Self, usize), ParseError>) {
        if p >= b.len() || b.len() - p < 8 || h.size > h.total_size {
            return Err(ParseError);
        }
        let n = get_u32(b, p);
        if n != h.total_size - h.size {
            return Err(ParseError);
        }
        let unknown = get_u32(b, p + 4);
        match read_vec::<TinyWaveformPreviewColumn>(b, p + 8, n as usize) {
            Ok((data, q)) => Ok((TinyWaveformPreview { unknown, data }, q)),
            Err(e) => Err(e),
        }
    }

    fn write_body(&self, out: &mut Vec<u8>) {
        push_u32(out, self.data.len() as u32);
        push_u32(out, self.unknown);
        write_vec(&self.data, out);
        assert(out@ =~= old(out)@ + Self::body_enc(self@));
    }
}

/// Variable-width large monochrome version of the track waveform (one byte per entry).
#[derive(Debug, PartialEq, Eq)]
pub struct WaveformDetail {
    /// Unknown field (always `0x00960000`).
    pub unknown: u32,
    /// Waveform detail column data, 150 entries per second of audio.
    pub data: Vec<WaveformPreviewColumn>,
}

/// The model of a waveform detail: its unknown field and the column bytes.
pub struct WaveformDetailView {
    pub unknown: u32,
    pub data: Seq<u8>,
}

impl View for WaveformDetail {
    type V = WaveformDetailView;

    open spec fn view(&self) -> WaveformDetailView {
        WaveformDetailView { unknown: self.unknown, data: seq_view(self.data@) }
    }
}

impl WaveformDetail {
    /// Creates a waveform detail from the given column data.
    pub fn new(data: Vec<WaveformPreviewColumn>) -> (r: Self)
        ensures
            r@ == (WaveformDetailView { unknown: 0x0096_0000, data: seq_view(data@) }),
    {
        WaveformDetail { unknown: 0x0096_0000, data }
    }
}

impl SectionBody for WaveformDetail {
    /// The unknown field is `0x00960000` and the number of entries is the content size.
    open spec fn body_wf(m: WaveformDetailView, h: Header) -> bool {
        m.unknown == 0x0096_0000 && h.size <= h.total_size && m.data.len() == content_size(h)
    }

    open spec fn body_writable(m: WaveformDetailView) -> bool {
        true
    }

    open spec fn body_enc(m: WaveformDetailView) -> Seq<u8> {
        be32(1) + be32(m.data.len() as u32) + be32(m.unknown) + enc_seq::<WaveformPreviewColumn>(
            m.data,
        )
    }

    open spec fn body_parse(b: Seq<u8>, p: int, h: Header) -> Option<(WaveformDetailView, int)> {
        if in_bounds(b, p, 12) && u32_at(b, p) == 1 && h.size <= h.total_size && u32_at(b, p + 4)
            == content_size(h) && u32_at(b, p + 8) == 0x0096_0000 {
            match parse_seq::<WaveformPreviewColumn>(b, p + 12, u32_at(b, p + 4) as nat) {
                Some((data, q)) => Some((WaveformDetailView { unknown: 0x0096_0000, data }, q)),
                None => None,
            }
        } else {
            None
        }
    }

    proof fn lemma_body_roundtrip(m: WaveformDetailView, b: Seq<u8>, p: int, h: Header) {
        let head = be32(1) + be32(m.data.len() as u32) + be32(m.unknown);
        lemma_matches_split(b, p, head, enc_seq::<WaveformPreviewColumn>(m.data));
        lemma_head3(1, m.data.len() as u32, m.unknown, b, p);
        lemma_seq_roundtrip::<WaveformPreviewColumn>(m.data, b, p + 12);
    }

    proof fn lemma_body_parse_wf(b: Seq<u8>, p: int, h: Header) {
        if in_bounds(b, p, 12) {
            lemma_parse_seq_wf::<WaveformPreviewColumn>(b, p + 12, u32_at(b, p + 4) as nat);
        }
    }

    fn read_body(b: &[u8], p: usize, h: &Header) -> (r: Result<(Self, usize), ParseError>) {
        if p >= b.len() || b.len() - p < 12 || h.size > h.total_size {
            return Err(ParseError);
        }
        let n = get_u32(b, p + 4);
        if get_u32(b, p) != 1 || n != h.total_size - h.size || get_u32(b, p + 8) != 0x0096_0000 {
            return Err(ParseError);
        }
        match read_vec::<WaveformPreviewColumn>(b, p + 12, n as usize) {
            Ok((data, q)) => Ok((WaveformDetail { unknown: 0x0096_0000, data }, q)),
            Err(e) => Err(e),
        }
    }

    fn write_body(&self, out: &mut Vec<u8>) {
        push_u32(out, 1);
        push_u32(out, self.data.len() as u32);
        push_u32(out, self.unknown);
        write_vec(&self.data, out);
        assert(out@ =~= old(out)@ + Self::body_enc(self@));
    }
}

/// Fixed-width colored version of the track waveform (six bytes per entry).
#[derive(Debug, PartialEq, Eq)]
pub struct WaveformColorPreview {
    /// Unknown field.
    pub unknown: u32,
    /// Waveform preview column data.
    pub data: Vec<WaveformColorPreviewColumn>,
}

/// The model of a waveform color preview.
pub struct WaveformColorPreviewView {
    pub unknown: u32,
    pub data: Seq<WaveformColorPreviewColumn>,
}

impl View for WaveformColorPreview {
    type V = WaveformColorPreviewView;

    open spec fn view(&self) -> WaveformColorPreviewView {
        WaveformColorPreviewView { unknown: self.unknown, data: seq_view(self.data@) }
    }
}

impl WaveformColorPreview {
    /// Creates a waveform color preview from the given column data.
    pub fn new(data: Vec<WaveformColorPreviewColumn>, unknown: u32) -> (r: Self)
        ensures
            r@ == (WaveformColorPreviewView { unknown, data: seq_view(data@) }),
    {
        WaveformColorPreview { unknown, data }
    }
}

impl SectionBody for WaveformColorPreview {
    /// Six bytes per entry make up the content size.
    open spec fn body_wf(m: WaveformColorPreviewView, h: Header) -> bool {
        h.size <= h.total_size && 6 * m.data.len() == content_size(h)
    }

    open spec fn body_writable(m: WaveformColorPreviewView) -> bool {
        true
    }

    open spec fn body_enc(m: WaveformColorPreviewView) -> Seq<u8> {
        be32(6) + be32(m.data.len() as u32) + be32(m.unknown) + enc_seq::<
            WaveformColorPreviewColumn,
        >(m.data)
    }

    open spec fn body_parse(b: Seq<u8>, p: int, h: Header) -> Option<
        (WaveformColorPreviewView, int),
    > {
        if in_bounds(b, p, 12) && u32_at(b, p) == 6 && h.size <= h.total_size && 6 * u32_at(b, p + 4)
            == content_size(h) {
            match parse_seq::<WaveformColorPreviewColumn>(b, p + 12, u32_at(b, p + 4) as nat) {
                Some((data, q)) => Some(
                    (WaveformColorPreviewView { unknown: u32_at(b, p + 8), data }, q),
                ),
                None => None,
            }
        } else {
            None
        }
    }

    proof fn lemma_body_roundtrip(m: WaveformColorPreviewView, b: Seq<u8>, p: int, h: Header) {
        let head = be32(6) + be32(m.data.len() as u32) + be32(m.unknown);
        lemma_matches_split(b, p, head, enc_seq::<WaveformColorPreviewColumn>(m.data));
        lemma_head3(6, m.data.len() as u32, m.unknown, b, p);
        lemma_seq_roundtrip::<WaveformColorPreviewColumn>(m.data, b, p + 12);
    }

    proof fn lemma_body_parse_wf(b: Seq<u8>, p: int, h: Header) {
        if in_bounds(b, p, 12) {
            lemma_parse_seq_wf::<WaveformColorPreviewColumn>(b, p + 12, u32_at(b, p + 4) as nat);
        }
    }

    fn read_body(b: &[u8], p: usize, h: &Header) -> (r: Result<(Self, usize), ParseError>) {
        if p >= b.len() || b.len() - p < 12 || h.size > h.total_size {
            return Err(ParseError);
        }
        let n = get_u32(b, p + 4);
        if get_u32(b, p) != 6 || 6 * (n as u64) != (h.total_size - h.size) as u64 {
            return Err(ParseError);
        }
        let unknown = get_u32(b, p + 8);
        match read_vec::<WaveformColorPreviewColumn>(b, p + 12, n as usize) {
            Ok((data, q)) => Ok((WaveformColorPreview { unknown, data }, q)),
            Err(e) => Err(e),
        }
    }

    fn write_body(&self, out: &mut Vec<u8>) {
        push_u32(out, 6);
        push_u32(out, self.data.len() as u32);
        push_u32(out, self.unknown);
        write_vec(&self.data, out);
        assert(out@ =~= old(out)@ + Self::body_enc(self@));
    }
}

/// Variable-width large colored version of the track waveform (two bytes per entry).
#[derive(Debug, PartialEq, Eq)]
pub struct WaveformColorDetail {
    /// Unknown field.
    pub unknown: u32,
    /// Waveform detail column data.
    pub data: Vec<WaveformColorDetailColumn>,
}

/// The model of a waveform color detail: its unknown field and the two bytes of each column.
pub struct WaveformColorDetailView {
    pub unknown: u32,
    pub data: Seq<Seq<u8>>,
}

impl View for WaveformColorDetail {
    type V = WaveformColorDetailView;

    open spec fn view(&self) -> WaveformColorDetailView {
        WaveformColorDetailView { unknown: self.unknown, data: seq_view(self.data@) }
    }
}

impl WaveformColorDetail {
    /// Creates a waveform color detail from the given column data.
    pub fn new(data: Vec<WaveformColorDetailColumn>, unknown: u32) -> (r: Self)
        ensures
            r@ == (WaveformColorDetailView { unknown, data: seq_view(data@) }),
    {
        WaveformColorDetail { unknown, data }
    }
}

impl SectionBody for WaveformColorDetail {
    /// Two bytes per entry make up the content size.
    open spec fn body_wf(m: WaveformColorDetailView, h: Header) -> bool {
        &&& h.size <= h.total_size
        &&& 2 * m.data.len() == content_size(h)
        &&& all_wf::<WaveformColorDetailColumn>(m.data)
    }

    open spec fn body_writable(m: WaveformColorDetailView) -> bool {
        true
    }

    open spec fn body_enc(m: WaveformColorDetailView) -> Seq<u8> {
        be32(2) + be32(m.data.len() as u32) + be32(m.unknown) + enc_seq::<WaveformColorDetailColumn>(
            m.data,
        )
    }

    open spec fn body_parse(b: Seq<u8>, p: int, h: Header) -> Option<
        (WaveformColorDetailView, int),
    > {
        if in_bounds(b, p, 12) && u32_at(b, p) == 2 && h.size <= h.total_size && 2 * u32_at(b, p + 4)
            == content_size(h) {
            match parse_seq::<WaveformColorDetailColumn>(b, p + 12, u32_at(b, p + 4) as nat) {
                Some((data, q)) => Some(
                    (WaveformColorDetailView { unknown: u32_at(b, p + 8), data }, q),
                ),
                None => None,
            }
        } else {
            None
        }
    }

    proof fn lemma_body_roundtrip(m: WaveformColorDetailView, b: Seq<u8>, p: int, h: Header) {
        let head = be32(2) + be32(m.data.len() as u32) + be32(m.unknown);
        lemma_matches_split(b, p, head, enc_seq::<WaveformColorDetailColumn>(m.data));
        lemma_head3(2, m.data.len() as u32, m.unknown, b, p);
        lemma_seq_roundtrip::<WaveformColorDetailColumn>(m.data, b, p + 12);
    }

    proof fn lemma_body_parse_wf(b: Seq<u8>, p: int, h: Header) {
        if in_bounds(b, p, 12) {
            lemma_parse_seq_wf::<WaveformColorDetailColumn>(b, p + 12, u32_at(b, p + 4) as nat);
        }
    }

    fn read_body(b: &[u8], p: usize, h: &Header) -> (r: Result<(Self, usize), ParseError>) {
        if p >= b.len() || b.len() - p < 12 || h.size > h.total_size {
            return Err(ParseError);
        }
        let n = get_u32(b, p + 4);
        if get_u32(b, p) != 2 || 2 * (n as u64) != (h.total_size - h.size) as u64 {
            return Err(ParseError);
        }
        let unknown = get_u32(b, p + 8);
        match read_vec::<WaveformColorDetailColumn>(b, p + 12, n as usize) {
            Ok((data, q)) => Ok((WaveformColorDetail { unknown, data }, q)),
            Err(e) => Err(e),
        }
    }

    fn write_body(&self, out: &mut Vec<u8>) {
        push_u32(out, 2);
        push_u32(out, self.data.len() as u32);
        push_u32(out, self.unknown);
        write_vec(&self.data, out);
        assert(out@ =~= old(out)@ + Self::body_enc(self@));
    }
}

/// Fixed-width 3-byte whole-track waveform payload.
#[derive(Debug, PartialEq, Eq)]
pub struct WaveformHighResolutionPreview {
    /// Raw 3-byte entry data.
    pub data: Vec<[u8; 3]>,
}

impl View for WaveformHighResolutionPreview {
    type V = Seq<Seq<u8>>;

    open spec fn view(&self) -> Seq<Seq<u8>> {
        seq_view(self.data@)
    }
}

impl WaveformHighResolutionPreview {
    /// Creates a section from raw 3-byte entries.
    pub fn new(data: Vec<[u8; 3]>) -> (r: Self)
        ensures
            r@ == seq_view(data@),
    {
        WaveformHighResolutionPreview { data }
    }
}

impl SectionBody for WaveformHighResolutionPreview {
    /// Three bytes per entry make up the content size.
    open spec fn body_wf(m: Seq<Seq<u8>>, h: Header) -> bool {
        h.size <= h.total_size && 3 * m.len() == content_size(h) && all_wf::<[u8; 3]>(m)
    }

    open spec fn body_writable(m: Seq<Seq<u8>>) -> bool {
        true
    }

    open spec fn body_enc(m: Seq<Seq<u8>>) -> Seq<u8> {
        be32(3) + be32(m.len() as u32) + enc_seq::<[u8; 3]>(m)
    }

    open spec fn body_parse(b: Seq<u8>, p: int, h: Header) -> Option<(Seq<Seq<u8>>, int)> {
        if in_bounds(b, p, 8) && u32_at(b, p) == 3 && h.size <= h.total_size && 3 * u32_at(b, p + 4)
            == content_size(h) {
            parse_seq::<[u8; 3]>(b, p + 8, u32_at(b, p + 4) as nat)
        } else {
            None
        }
    }

    proof fn lemma_body_roundtrip(m: Seq<Seq<u8>>, b: Seq<u8>, p: int, h: Header) {
        let head = be32(3) + be32(m.len() as u32);
        lemma_matches_split(b, p, head, enc_seq::<[u8; 3]>(m));
        lemma_head2(3, m.len() as u32, b, p);
        lemma_seq_roundtrip::<[u8; 3]>(m, b, p + 8);
    }

    proof fn lemma_body_parse_wf(b: Seq<u8>, p: int, h: Header) {
        if in_bounds(b, p, 8) {
            lemma_parse_seq_wf::<[u8; 3]>(b, p + 8, u32_at(b, p + 4) as nat);
        }
    }

    fn read_body(b: &[u8], p: usize, h: &Header) -> (r: Result<(Self, usize), ParseError>) {
        if p >= b.len() || b.len() - p < 8 || h.size > h.total_size {
            return Err(ParseError);
        }
        let n = get_u32(b, p + 4);
        if get_u32(b, p) != 3 || 3 * (n as u64) != (h.total_size - h.size) as u64 {
            return Err(ParseError);
        }
        match read_vec::<[u8; 3]>(b, p + 8, n as usize) {
            Ok((data, q)) => Ok((WaveformHighResolutionPreview { data }, q)),
            Err(e) => Err(e),
        }
    }

    fn write_body(&self, out: &mut Vec<u8>) {
        push_u32(out, 3);
        push_u32(out, self.data.len() as u32);
        write_vec(&self.data, out);
        assert(out@ =~= old(out)@ + Self::body_enc(self@));
    }
}

/// Variable-width 3-byte waveform payload.
#[derive(Debug, PartialEq, Eq)]
pub struct WaveformHighResolutionDetail {
    /// Raw 3-byte entry data.
    pub data: Vec<[u8; 3]>,
}

impl View for WaveformHighResolutionDetail {
    type V = Seq<Seq<u8>>;

    open spec fn view(&self) -> Seq<Seq<u8>> {
        seq_view(self.data@)
    }
}

impl WaveformHighResolutionDetail {
    /// Creates a section from raw 3-byte entries.
    pub fn new(data: Vec<[u8; 3]>) -> (r: Self)
        ensures
            r@ == seq_view(data@),
    {
        WaveformHighResolutionDetail { data }
    }
}

impl SectionBody for WaveformHighResolutionDetail {
    /// Three bytes per entry make up the content size.
    open spec fn body_wf(m: Seq<Seq<u8>>, h: Header) -> bool {
        h.size <= h.total_size && 3 * m.len() == content_size(h) && all_wf::<[u8; 3]>(m)
    }

    open spec fn body_writable(m: Seq<Seq<u8>>) -> bool {
        true
    }

    open spec fn body_enc(m: Seq<Seq<u8>>) -> Seq<u8> {
        be32(3) + be32(m.len() as u32) + be32(0x0096_0000) + enc_seq::<[u8; 3]>(m)
    }

    open spec fn body_parse(b: Seq<u8>, p: int, h: Header) -> Option<(Seq<Seq<u8>>, int)> {
        if in_bounds(b, p, 12) && u32_at(b, p) == 3 && h.size <= h.total_size && 3 * u32_at(b, p + 4)
            == content_size(h) && u32_at(b, p + 8) == 0x0096_0000 {
            parse_seq::<[u8; 3]>(b, p + 12, u32_at(b, p + 4) as nat)
        } else {
            None
        }
    }

    proof fn lemma_body_roundtrip(m: Seq<Seq<u8>>, b: Seq<u8>, p: int, h: Header) {
        let head = be32(3) + be32(m.len() as u32) + be32(0x0096_0000);
        lemma_matches_split(b, p, head, enc_seq::<[u8; 3]>(m));
        lemma_head3(3, m.len() as u32, 0x0096_0000, b, p);
        lemma_seq_roundtrip::<[u8; 3]>(m, b, p + 12);
    }

    proof fn lemma_body_parse_wf(b: Seq<u8>, p: int, h: Header) {
        if in_bounds(b, p, 12) {
            lemma_parse_seq_wf::<[u8; 3]>(b, p + 12, u32_at(b, p + 4) as nat);
        }
    }

    fn read_body(b: &[u8], p: usize, h: &Header) -> (r: Result<(Self, usize), ParseError>) {
        if p >= b.len() || b.len() - p < 12 || h.size > h.total_size {
            return Err(ParseError);
        }
        let n = get_u32(b, p + 4);
        if get_u32(b, p) != 3 || 3 * (n as u64) != (h.total_size - h.size) as u64 || get_u32(
            b,
            p + 8,
        ) != 0x0096_0000 {
            return Err(ParseError);
        }
        match read_vec::<[u8; 3]>(b, p + 12, n as usize) {
            Ok((data, q)) => Ok((WaveformHighResolutionDetail { data }, q)),
            Err(e) => Err(e),
        }
    }

    fn write_body(&self, out: &mut Vec<u8>) {
        push_u32(out, 3);
        push_u32(out, self.data.len() as u32);
        push_u32(out, 0x0096_0000);
        write_vec(&self.data, out);
        assert(out@ =~= old(out)@ + Self::body_enc(self@));
    }
}

/// Per-band gain calibration for the high-resolution player waveform.
#[derive(Debug, PartialEq, Eq, Clone, Copy)]
pub struct WaveformColorCalibration {
    /// Gain applied to the low / blue waveform band.
    pub low_gain: u16,
    /// Gain applied to the mid / yellow waveform band.
    pub mid_gain: u16,
    /// Gain applied to the high / white waveform band.
    pub high_gain: u16,
}

impl View for WaveformColorCalibration {
    type V = WaveformColorCalibration;

    open spec fn view(&self) -> WaveformColorCalibration {
        *self
    }
}

impl WaveformColorCalibration {
    /// Creates a calibration section from per-band gains.
    pub fn new(low_gain: u16, mid_gain: u16, high_gain: u16) -> (r: Self)
        ensures
            r == (WaveformColorCalibration { low_gain, mid_gain, high_gain }),
    {
        WaveformColorCalibration { low_gain, mid_gain, high_gain }
    }
}

impl SectionBody for WaveformColorCalibration {
    /// The header holds two reserved bytes after its first twelve, and six content bytes follow.
    open spec fn body_wf(m: WaveformColorCalibration, h: Header) -> bool {
        h.size == 14 && h.total_size == 20
    }

    open spec fn body_writable(m: WaveformColorCalibration) -> bool {
        true
    }

    open spec fn body_enc(m: WaveformColorCalibration) -> Seq<u8> {
        be16(0) + be16(m.low_gain) + be16(m.mid_gain) + be16(m.high_gain)
    }

    open spec fn body_parse(b: Seq<u8>, p: int, h: Header) -> Option<(WaveformColorCalibration, int)> {
        if in_bounds(b, p, 8) && h.size == 14 && h.total_size == 20 && u16_at(b, p) == 0 {
            Some(
                (
                    WaveformColorCalibration {
                        low_gain: u16_at(b, p + 2),
                        mid_gain: u16_at(b, p + 4),
                        high_gain: u16_at(b, p + 6),
                    },
                    p + 8,
                ),
            )
        } else {
            None
        }
    }

    proof fn lemma_body_roundtrip(m: WaveformColorCalibration, b: Seq<u8>, p: int, h: Header) {
        broadcast use group_decode;

        assert(matches_at(b, p, Self::body_enc(m)));
    }

    proof fn lemma_body_parse_wf(b: Seq<u8>, p: int, h: Header) {
    }

    fn read_body(b: &[u8], p: usize, h: &Header) -> (r: Result<(Self, usize), ParseError>) {
        if p >= b.len() || b.len() - p < 8 || h.size != 14 || h.total_size != 20 || get_u16(b, p)
            != 0 {
            return Err(ParseError);
        }
        Ok(
            (
                WaveformColorCalibration {
                    low_gain: get_u16(b, p + 2),
                    mid_gain: get_u16(b, p + 4),
                    high_gain: get_u16(b, p + 6),
                },
                p + 8,
            ),
        )
    }

    fn write_body(&self, out: &mut Vec<u8>) {
        push_u16(out, 0);
        push_u16(out, self.low_gain);
        push_u16(out, self.mid_gain);
        push_u16(out, self.high_gain);
        assert(out@ =~= old(out)@ + Self::body_enc(self@));
    }
}

/// Content of a section whose kind is not recognized, kept as raw bytes.
#[derive(Debug, PartialEq, Eq)]
pub struct Unknown {
    /// The four-byte section kind tag that identified this section.
    pub kind: ContentKind,
    /// Extra header bytes following the standard `kind`/`size`/`total_size` triplet.
    pub header_data: Vec<u8>,
    /// Content bytes.
    pub content_data: Vec<u8>,
}

/// The model of an unknown section content.
pub struct UnknownView {
    pub kind: ContentKind,
    pub header_data: Seq<u8>,
    pub content_data: Seq<u8>,
}

impl View for Unknown {
    type V = UnknownView;

    open spec fn view(&self) -> UnknownView {
        UnknownView {
            kind: self.kind,
            header_data: self.header_data@,
            content_data: self.content_data@,
        }
    }
}

impl SectionBody for Unknown {
    /// The kind is the header's, and the byte counts are the ones the header gives.
    open spec fn body_wf(m: UnknownView, h: Header) -> bool {
        &&& m.kind == h.kind
        &&& m.kind is Unknown
        &&& sizes_ok(h)
        &&& m.header_data.len() == h.size - 12
        &&& m.content_data.len() == content_size(h)
    }

    open spec fn body_writable(m: UnknownView) -> bool {
        true
    }

    open spec fn body_enc(m: UnknownView) -> Seq<u8> {
        m.header_data + m.content_data
    }

    open spec fn body_parse(b: Seq<u8>, p: int, h: Header) -> Option<(UnknownView, int)> {
        if h.kind is Unknown && sizes_ok(h) && in_bounds(b, p, h.size - 12 + content_size(h)) {
            let q = p + h.size - 12;
            Some(
                (
                    UnknownView {
                        kind: h.kind,
                        header_data: b.subrange(p, q),
                        content_data: b.subrange(q, q + content_size(h)),
                    },
                    q + content_size(h),
                ),
            )
        } else {
            None
        }
    }

    proof fn lemma_body_roundtrip(m: UnknownView, b: Seq<u8>, p: int, h: Header) {
        broadcast use group_decode;

    }

    proof fn lemma_body_parse_wf(b: Seq<u8>, p: int, h: Header) {
    }

    fn read_body(b: &[u8], p: usize, h: &Header) -> (r: Result<(Self, usize), ParseError>) {
        if !matches!(h.kind, ContentKind::Unknown(_)) || h.size < 12 || h.size > h.total_size
            || p > b.len() {
            return Err(ParseError);
        }
        let n1 = (h.size - 12) as usize;
        let n2 = (h.total_size - h.size) as usize;
        if b.len() - p < n1 || b.len() - p - n1 < n2 {
            return Err(ParseError);
        }
        let header_data = copy_bytes(b, p, n1);
        let content_data = copy_bytes(b, p + n1, n2);
        Ok((Unknown { kind: h.kind, header_data, content_data }, p + n1 + n2))
    }

    fn write_body(&self, out: &mut Vec<u8>) {
        append_bytes(out, self.header_data.as_slice());
        append_bytes(out, self.content_data.as_slice());
        assert(out@ =~= old(out)@ + Self::body_enc(self@));
    }
}

} // verus!
