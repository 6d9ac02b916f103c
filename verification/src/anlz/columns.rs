//! Single columns of waveform data.
//!
//! Bit-packed columns store their fields from the least significant bit of the first byte
//! upwards.
use crate::codec::{group_decode, in_bounds, matches_at, Codec, ParseError};
use vstd::prelude::*;

verus! {

/// Single column value in a waveform preview: height in the low five bits, whiteness in the
/// high three bits.
#[derive(Debug, PartialEq, Eq, Clone, Copy)]
pub struct WaveformPreviewColumn {
    bits: u8,
}

impl View for WaveformPreviewColumn {
    type V = u8;

    closed spec fn view(&self) -> u8 {
        self.bits
    }
}

impl WaveformPreviewColumn {
    /// A column with all bits cleared.
    pub fn new() -> (r: Self)
        ensures
            r@ == 0,
    {
        WaveformPreviewColumn { bits: 0 }
    }

    /// The column stored in the given byte.
    pub fn from_bytes(bytes: [u8; 1]) -> (r: Self)
        ensures
            r@ == bytes[0],
    {
        WaveformPreviewColumn { bits: bytes[0] }
    }

    /// The byte that stores the column.
    pub fn into_bytes(self) -> (r: [u8; 1])
        ensures
            r[0] == self@,
    {
        [self.bits]
    }

    /// Height of the column in pixels (0 to 31).
    pub fn height(&self) -> (r: u8)
        ensures
            r == self@ % 32,
    {
        self.bits % 32
    }

    /// Shade of white (0 to 7).
    pub fn whiteness(&self) -> (r: u8)
        ensures
            r == self@ / 32,
    {
        self.bits / 32
    }

    /// The column with the given height and the same whiteness.
    pub fn with_height(self, height: u8) -> (r: Self)
        requires
            height < 32,
        ensures
            r.height_spec() == height,
            r.whiteness_spec() == self.whiteness_spec(),
    {
        WaveformPreviewColumn { bits: (self.bits / 32) * 32 + height }
    }

    /// The column with the given whiteness and the same height.
    pub fn with_whiteness(self, whiteness: u8) -> (r: Self)
        requires
            whiteness < 8,
        ensures
            r.whiteness_spec() == whiteness,
            r.height_spec() == self.height_spec(),
    {
        WaveformPreviewColumn { bits: whiteness * 32 + self.bits % 32 }
    }

    /// Height of the column in pixels.
    pub open spec fn height_spec(self) -> u8 {
        self@ % 32
    }

    /// Shade of white.
    pub open spec fn whiteness_spec(self) -> u8 {
        self@ / 32
    }
}

impl Default for WaveformPreviewColumn {
    fn default() -> (r: Self)
        ensures
            r@ == 0,
    {
        Self::new()
    }
}

/// A monochrome preview column is one byte holding the height in its low five bits and the
/// whiteness in its high three bits: the byte is `height + 32 * whiteness`.
pub proof fn lemma_preview_column_bits(c: WaveformPreviewColumn)
    ensures
        c.height_spec() < 32,
        c.whiteness_spec() < 8,
        c@ == c.height_spec() as int + 32 * c.whiteness_spec() as int,
        WaveformPreviewColumn::enc(c@) == seq![(c.height_spec() as int + 32 * c.whiteness_spec() as int) as u8],
{
}

/// A colored preview column is six bytes: `unknown1`, `unknown2`, the bottom-half energy, then
/// the bottom-, mid- and top-third energies; reading six bytes takes the fields from the same
/// places.
pub proof fn lemma_color_column_layout(m: WaveformColorPreviewColumn, b: Seq<u8>, p: int)
    ensures
        ({
            let e = WaveformColorPreviewColumn::enc(m);
            &&& e.len() == 6
            &&& e[0] == m.unknown1
            &&& e[1] == m.unknown2
            &&& e[2] == m.energy_bottom_half_freq
            &&& e[3] == m.energy_bottom_third_freq
            &&& e[4] == m.energy_mid_third_freq
            &&& e[5] == m.energy_top_third_freq
        }),
        0 <= p && p + 6 <= b.len() ==> WaveformColorPreviewColumn::parse(b, p) == Some(
            (
                WaveformColorPreviewColumn {
                    unknown1: b[p],
                    unknown2: b[p + 1],
                    energy_bottom_half_freq: b[p + 2],
                    energy_bottom_third_freq: b[p + 3],
                    energy_mid_third_freq: b[p + 4],
                    energy_top_third_freq: b[p + 5],
                },
                p + 6,
            ),
        ),
{
}

impl Codec for WaveformPreviewColumn {
    open spec fn wf(m: u8) -> bool {
        true
    }

    open spec fn writable(m: u8) -> bool {
        true
    }

    open spec fn enc(m: u8) -> Seq<u8> {
        seq![m]
    }

    open spec fn parse(b: Seq<u8>, p: int) -> Option<(u8, int)> {
        if in_bounds(b, p, 1) {
            Some((b[p], p + 1))
        } else {
            None
        }
    }

    proof fn lemma_roundtrip(m: u8, b: Seq<u8>, p: int) {
        broadcast use group_decode;

    }

    proof fn lemma_parse_wf(b: Seq<u8>, p: int) {
    }

    fn read(b: &[u8], p: usize) -> (r: Result<(Self, usize), ParseError>) {
        if p < b.len() {
            Ok((WaveformPreviewColumn { bits: b[p] }, p + 1))
        } else {
            Err(ParseError)
        }
    }

    fn write(&self, out: &mut Vec<u8>) {
        out.push(self.bits);
        assert(out@ =~= old(out)@ + seq![self.bits]);
    }
}

/// Single column value in a tiny waveform preview: the height is in the high four bits.
#[derive(Debug, PartialEq, Eq, Clone, Copy)]
pub struct TinyWaveformPreviewColumn {
    bits: u8,
}

impl View for TinyWaveformPreviewColumn {
    type V = u8;

    closed spec fn view(&self) -> u8 {
        self.bits
    }
}

impl TinyWaveformPreviewColumn {
    /// A column with all bits cleared.
    pub fn new() -> (r: Self)
        ensures
            r@ == 0,
    {
        TinyWaveformPreviewColumn { bits: 0 }
    }

    /// The column stored in the given byte.
    pub fn from_bytes(bytes: [u8; 1]) -> (r: Self)
        ensures
            r@ == bytes[0],
    {
        TinyWaveformPreviewColumn { bits: bytes[0] }
    }

    /// The byte that stores the column.
    pub fn into_bytes(self) -> (r: [u8; 1])
        ensures
            r[0] == self@,
    {
        [self.bits]
    }

    /// Height of the column in pixels (0 to 15).
    pub fn height(&self) -> (r: u8)
        ensures
            r == self@ / 16,
    {
        self.bits / 16
    }

    /// The column with the given height and the same low four bits.
    pub fn with_height(self, height: u8) -> (r: Self)
        requires
            height < 16,
        ensures
            r@ / 16 == height,
            r@ % 16 == self@ % 16,
    {
        TinyWaveformPreviewColumn { bits: height * 16 + self.bits % 16 }
    }
}

impl Default for TinyWaveformPreviewColumn {
    fn default() -> (r: Self)
        ensures
            r@ == 0,
    {
        Self::new()
    }
}

impl Codec for TinyWaveformPreviewColumn {
    open spec fn wf(m: u8) -> bool {
        true
    }

    open spec fn writable(m: u8) -> bool {
        true
    }

    open spec fn enc(m: u8) -> Seq<u8> {
        seq![m]
    }

    open spec fn parse(b: Seq<u8>, p: int) -> Option<(u8, int)> {
        if in_bounds(b, p, 1) {
            Some((b[p], p + 1))
        } else {
            None
        }
    }

    proof fn lemma_roundtrip(m: u8, b: Seq<u8>, p: int) {
        broadcast use group_decode;

    }

    proof fn lemma_parse_wf(b: Seq<u8>, p: int) {
    }

    fn read(b: &[u8], p: usize) -> (r: Result<(Self, usize), ParseError>) {
        if p < b.len() {
            Ok((TinyWaveformPreviewColumn { bits: b[p] }, p + 1))
        } else {
            Err(ParseError)
        }
    }

    fn write(&self, out: &mut Vec<u8>) {
        out.push(self.bits);
        assert(out@ =~= old(out)@ + seq![self.bits]);
    }
}

/// Single column value in a waveform color preview.
#[derive(Debug, PartialEq, Eq, Clone, Copy)]
pub struct WaveformColorPreviewColumn {
    /// Unknown field (somehow encodes the "whiteness").
    pub unknown1: u8,
    /// Unknown field (somehow encodes the "whiteness").
    pub unknown2: u8,
    /// Sound energy in the bottom half of the frequency range (<10 KHz).
    pub energy_bottom_half_freq: u8,
    /// Sound energy in the bottom third of the frequency range.
    pub energy_bottom_third_freq: u8,
    /// Sound energy in the mid of the frequency range.
    pub energy_mid_third_freq: u8,
    /// Sound energy in the top of the frequency range.
    pub energy_top_third_freq: u8,
}

impl View for WaveformColorPreviewColumn {
    type V = WaveformColorPreviewColumn;

    open spec fn view(&self) -> WaveformColorPreviewColumn {
        *self
    }
}

impl Codec for WaveformColorPreviewColumn {
    open spec fn wf(m: Self) -> bool {
        true
    }

    open spec fn writable(m: Self) -> bool {
        true
    }

    open spec fn enc(m: Self) -> Seq<u8> {
        seq![
            m.unknown1,
            m.unknown2,
            m.energy_bottom_half_freq,
            m.energy_bottom_third_freq,
            m.energy_mid_third_freq,
            m.energy_top_third_freq,
        ]
    }

    open spec fn parse(b: Seq<u8>, p: int) -> Option<(Self, int)> {
        if in_bounds(b, p, 6) {
            Some(
                (
                    WaveformColorPreviewColumn {
                        unknown1: b[p],
                        unknown2: b[p + 1],
                        energy_bottom_half_freq: b[p + 2],
                        energy_bottom_third_freq: b[p + 3],
                        energy_mid_third_freq: b[p + 4],
                        energy_top_third_freq: b[p + 5],
                    },
                    p + 6,
                ),
            )
        } else {
            None
        }
    }

    proof fn lemma_roundtrip(m: Self, b: Seq<u8>, p: int) {
        let s = b.subrange(p, p + 6);
        assert(b[p] == s[0] && b[p + 1] == s[1] && b[p + 2] == s[2]);
        assert(b[p + 3] == s[3] && b[p + 4] == s[4] && b[p + 5] == s[5]);
    }

    proof fn lemma_parse_wf(b: Seq<u8>, p: int) {
    }

    fn read(b: &[u8], p: usize) -> (r: Result<(Self, usize), ParseError>) {
        if p < b.len() && b.len() - p >= 6 {
            Ok(
                (
                    WaveformColorPreviewColumn {
                        unknown1: b[p],
                        unknown2: b[p + 1],
                        energy_bottom_half_freq: b[p + 2],
                        energy_bottom_third_freq: b[p + 3],
                        energy_mid_third_freq: b[p + 4],
                        energy_top_third_freq: b[p + 5],
                    },
                    p + 6,
                ),
            )
        } else {
            Err(ParseError)
        }
    }

    fn write(&self, out: &mut Vec<u8>) {
        out.push(self.unknown1);
        out.push(self.unknown2);
        out.push(self.energy_bottom_half_freq);
        out.push(self.energy_bottom_third_freq);
        out.push(self.energy_mid_third_freq);
        out.push(self.energy_top_third_freq);
        assert(out@ =~= old(out)@ + Self::enc(*self));
    }
}

/// Single column value in a waveform color detail section.
///
/// The two bytes form a little-endian 16-bit value holding, from the least significant bit:
/// red (3 bits), green (3 bits), blue (3 bits), height (5 bits) and two unknown bits.
#[derive(Debug, PartialEq, Eq, Clone, Copy)]
pub struct WaveformColorDetailColumn {
    bytes: [u8; 2],
}

impl View for WaveformColorDetailColumn {
    type V = Seq<u8>;

    closed spec fn view(&self) -> Seq<u8> {
        self.bytes@
    }
}

/// The packed 16-bit value of a color detail column.
pub open spec fn color_detail_value(s: Seq<u8>) -> int {
    s[0] + 256 * s[1]
}

impl WaveformColorDetailColumn {
    /// A column with all bits cleared.
    pub fn new() -> (r: Self)
        ensures
            r@ == seq![0u8, 0u8],
    {
        let r = WaveformColorDetailColumn { bytes: [0, 0] };
        assert(r.bytes@ =~= seq![0u8, 0u8]);
        r
    }

    /// The column stored in the given bytes.
    pub fn from_bytes(bytes: [u8; 2]) -> (r: Self)
        ensures
            r@ == bytes@,
    {
        WaveformColorDetailColumn { bytes }
    }

    /// The bytes that store the column.
    pub fn into_bytes(self) -> (r: [u8; 2])
        ensures
            r@ == self@,
    {
        self.bytes
    }

    /// Red color component (0 to 7).
    pub fn red(&self) -> (r: u8)
        ensures
            r == color_detail_value(self@) % 8,
    {
        self.bytes[0] % 8
    }

    /// Green color component (0 to 7).
    pub fn green(&self) -> (r: u8)
        ensures
            r == (color_detail_value(self@) / 8) % 8,
    {
        let v: u16 = self.bytes[0] as u16 + 256 * self.bytes[1] as u16;
        ((v / 8) % 8) as u8
    }

    /// Blue color component (0 to 7).
    pub fn blue(&self) -> (r: u8)
        ensures
            r == (color_detail_value(self@) / 64) % 8,
    {
        let v: u16 = self.bytes[0] as u16 + 256 * self.bytes[1] as u16;
        ((v / 64) % 8) as u8
    }

    /// Height of the column (0 to 31).
    pub fn height(&self) -> (r: u8)
        ensures
            r == (color_detail_value(self@) / 512) % 32,
    {
        let v: u16 = self.bytes[0] as u16 + 256 * self.bytes[1] as u16;
        ((v / 512) % 32) as u8
    }
}

impl Default for WaveformColorDetailColumn {
    fn default() -> (r: Self)
        ensures
            r@ == seq![0u8, 0u8],
    {
        Self::new()
    }
}

impl Codec for WaveformColorDetailColumn {
    open spec fn wf(m: Seq<u8>) -> bool {
        m.len() == 2
    }

    open spec fn writable(m: Seq<u8>) -> bool {
        true
    }

    open spec fn enc(m: Seq<u8>) -> Seq<u8> {
        m
    }

    open spec fn parse(b: Seq<u8>, p: int) -> Option<(Seq<u8>, int)> {
        if in_bounds(b, p, 2) {
            Some((seq![b[p], b[p + 1]], p + 2))
        } else {
            None
        }
    }

    proof fn lemma_roundtrip(m: Seq<u8>, b: Seq<u8>, p: int) {
        assert(b.subrange(p, p + 2) =~= seq![b[p], b[p + 1]]);
    }

    proof fn lemma_parse_wf(b: Seq<u8>, p: int) {
    }

    fn read(b: &[u8], p: usize) -> (r: Result<(Self, usize), ParseError>) {
        if p < b.len() && b.len() - p >= 2 {
            let c = WaveformColorDetailColumn { bytes: [b[p], b[p + 1]] };
            assert(c.bytes@ =~= seq![b@[p as int], b@[p + 1]]);
            Ok((c, p + 2))
        } else {
            Err(ParseError)
        }
    }

    fn write(&self, out: &mut Vec<u8>) {
        out.push(self.bytes[0]);
        out.push(self.bytes[1]);
        assert(out@ =~= old(out)@ + self.bytes@);
    }
}

impl Codec for [u8; 3] {
    open spec fn wf(m: Seq<u8>) -> bool {
        m.len() == 3
    }

    open spec fn writable(m: Seq<u8>) -> bool {
        true
    }

    open spec fn enc(m: Seq<u8>) -> Seq<u8> {
        m
    }

    open spec fn parse(b: Seq<u8>, p: int) -> Option<(Seq<u8>, int)> {
        if in_bounds(b, p, 3) {
            Some((seq![b[p], b[p + 1], b[p + 2]], p + 3))
        } else {
            None
        }
    }

    proof fn lemma_roundtrip(m: Seq<u8>, b: Seq<u8>, p: int) {
        assert(b.subrange(p, p + 3) =~= seq![b[p], b[p + 1], b[p + 2]]);
    }

    proof fn lemma_parse_wf(b: Seq<u8>, p: int) {
    }

    fn read(b: &[u8], p: usize) -> (r: Result<([u8; 3], usize), ParseError>) {
        if p < b.len() && b.len() - p >= 3 {
            let a = [b[p], b[p + 1], b[p + 2]];
            assert(a@ =~= seq![b@[p as int], b@[p + 1], b@[p + 2]]);
            Ok((a, p + 3))
        } else {
            Err(ParseError)
        }
    }

    fn write(&self, out: &mut Vec<u8>) {
        out.push(self[0]);
        out.push(self[1]);
        out.push(self[2]);
        assert(out@ =~= old(out)@ + self@);
    }
}

} // verus!
