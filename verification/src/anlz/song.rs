//! Song structure (phrase analysis) sections, which may be stored XOR-encrypted.
use super::body::{content_size, SectionBody};
use super::kind::Header;
use crate::codec::{
    all_wf, append_bytes, be16, be32, enc_seq, get_u16, get_u32, group_decode, in_bounds,
    lemma_matches_self, lemma_matches_split, lemma_parse_seq_wf, lemma_seq_roundtrip, matches_at,
    parse_seq, push_u16, push_u32, read_vec, res_ok, seq_view, u16_at, u32_at, write_vec, Codec,
    ParseError,
};
use vstd::prelude::*;

verus! {

/// Music classification used for Lightning mode.
#[derive(Debug, PartialEq, Eq, Clone, Copy)]
pub enum Mood {
    /// Phrase types "Intro", "Up", "Down", "Chorus" and "Outro".
    High,
    /// Phrase types "Intro", "Verse 1" to "Verse 6", "Chorus", "Bridge" and "Outro".
    Mid,
    /// Phrase types "Intro", "Verse 1", "Verse 2", "Chorus", "Bridge" and "Outro".
    Low,
}

impl Mood {
    /// The number that encodes the mood.
    pub open spec fn spec_code(self) -> u16 {
        match self {
            Mood::High => 1,
            Mood::Mid => 2,
            Mood::Low => 3,
        }
    }

    /// The mood that a number encodes, if any.
    pub open spec fn of_code(c: u16) -> Option<Mood> {
        if c == 1 {
            Some(Mood::High)
        } else if c == 2 {
            Some(Mood::Mid)
        } else if c == 3 {
            Some(Mood::Low)
        } else {
            None
        }
    }

    /// The number that encodes the mood.
    pub fn code(&self) -> (r: u16)
        ensures
            r == self.spec_code(),
    {
        match self {
            Mood::High => 1,
            Mood::Mid => 2,
            Mood::Low => 3,
        }
    }

    /// The mood that a number encodes, if any.
    pub fn from_code(c: u16) -> (r: Option<Mood>)
        ensures
            r == Mood::of_code(c),
    {
        if c == 1 {
            Some(Mood::High)
        } else if c == 2 {
            Some(Mood::Mid)
        } else if c == 3 {
            Some(Mood::Low)
        } else {
            None
        }
    }
}

/// Stylistic track bank for Lightning mode.
#[derive(Debug, PartialEq, Eq, Clone, Copy)]
pub enum Bank {
    /// Default bank variant, treated as `Cool`.
    Default,
    /// "Cool" bank variant.
    Cool,
    /// "Natural" bank variant.
    Natural,
    /// "Hot" bank variant.
    Hot,
    /// "Subtle" bank variant.
    Subtle,
    /// "Warm" bank variant.
    Warm,
    /// "Vivid" bank variant.
    Vivid,
    /// "Club 1" bank variant.
    Club1,
    /// "Club 2" bank variant.
    Club2,
}

impl Bank {
    /// The byte that encodes the bank.
    pub open spec fn spec_code(self) -> u8 {
        match self {
            Bank::Default => 0,
            Bank::Cool => 1,
            Bank::Natural => 2,
            Bank::Hot => 3,
            Bank::Subtle => 4,
            Bank::Warm => 5,
            Bank::Vivid => 6,
            Bank::Club1 => 7,
            Bank::Club2 => 8,
        }
    }

    /// The bank that a byte encodes, if any.
    pub open spec fn of_code(c: u8) -> Option<Bank> {
        if c == 0 {
            Some(Bank::Default)
        } else if c == 1 {
            Some(Bank::Cool)
        } else if c == 2 {
            Some(Bank::Natural)
        } else if c == 3 {
            Some(Bank::Hot)
        } else if c == 4 {
            Some(Bank::Subtle)
        } else if c == 5 {
            Some(Bank::Warm)
        } else if c == 6 {
            Some(Bank::Vivid)
        } else if c == 7 {
            Some(Bank::Club1)
        } else if c == 8 {
            Some(Bank::Club2)
        } else {
            None
        }
    }

    /// The byte that encodes the bank.
    pub fn code(&self) -> (r: u8)
        ensures
            r == self.spec_code(),
    {
        match self {
            Bank::Default => 0,
            Bank::Cool => 1,
            Bank::Natural => 2,
            Bank::Hot => 3,
            Bank::Subtle => 4,
            Bank::Warm => 5,
            Bank::Vivid => 6,
            Bank::Club1 => 7,
            Bank::Club2 => 8,
        }
    }

    /// The bank that a byte encodes, if any.
    pub fn from_code(c: u8) -> (r: Option<Bank>)
        ensures
            r == Bank::of_code(c),
    {
        match c {
            0 => Some(Bank::Default),
            1 => Some(Bank::Cool),
            2 => Some(Bank::Natural),
            3 => Some(Bank::Hot),
            4 => Some(Bank::Subtle),
            5 => Some(Bank::Warm),
            6 => Some(Bank::Vivid),
            7 => Some(Bank::Club1),
            8 => Some(Bank::Club2),
            _ => None,
        }
    }
}

/// A song structure entry that represents a phrase in the track.
#[derive(Debug, PartialEq, Eq, Clone, Copy)]
pub struct Phrase {
    /// Phrase number (starting at 1).
    pub index: u16,
    /// Beat number where this phrase begins.
    pub beat: u16,
    /// Kind of phrase that rekordbox has identified.
    pub kind: u16,
    /// Unknown field.
    pub unknown1: u8,
    /// Flag byte used for numbered variations (in case of the `High` mood).
    pub k1: u8,
    /// Unknown field.
    pub unknown2: u8,
    /// Flag byte used for numbered variations (in case of the `High` mood).
    pub k2: u8,
    /// Unknown field.
    pub unknown3: u8,
    /// `0` if only `beat2` is used, `1` if `beat2`, `beat3` and `beat4` are used.
    pub b: u8,
    /// Beat number.
    pub beat2: u16,
    /// Beat number.
    pub beat3: u16,
    /// Beat number.
    pub beat4: u16,
    /// Unknown field.
    pub unknown4: u8,
    /// Flag byte used for numbered variations (in case of the `High` mood).
    pub k3: u8,
    /// Unknown field.
    pub unknown5: u8,
    /// Indicates if there are fill (non-phrase) beats at the end of the phrase.
    pub fill: u8,
    /// Beat number where the fill begins (if `fill` is non-zero).
    pub beat_fill: u16,
}

impl View for Phrase {
    type V = Phrase;

    open spec fn view(&self) -> Phrase {
        *self
    }
}

/// The first twelve bytes of a phrase.
pub open spec fn phrase_enc_a(m: Phrase) -> Seq<u8> {
    be16(m.index) + be16(m.beat) + be16(m.kind) + seq![m.unknown1] + seq![m.k1] + seq![m.unknown2]
        + seq![m.k2] + seq![m.unknown3] + seq![m.b]
}

/// The last twelve bytes of a phrase.
pub open spec fn phrase_enc_b(m: Phrase) -> Seq<u8> {
    be16(m.beat2) + be16(m.beat3) + be16(m.beat4) + seq![m.unknown4] + seq![m.k3] + seq![
        m.unknown5
    ] + seq![m.fill] + be16(m.beat_fill)
}

proof fn lemma_phrase_a(m: Phrase, b: Seq<u8>, p: int)
    requires
        matches_at(b, p, phrase_enc_a(m)),
    ensures
        u16_at(b, p) == m.index,
        u16_at(b, p + 2) == m.beat,
        u16_at(b, p + 4) == m.kind,
        b[p + 6] == m.unknown1,
        b[p + 7] == m.k1,
        b[p + 8] == m.unknown2,
        b[p + 9] == m.k2,
        b[p + 10] == m.unknown3,
        b[p + 11] == m.b,
{
    broadcast use group_decode;

}

proof fn lemma_phrase_b(m: Phrase, b: Seq<u8>, p: int)
    requires
        matches_at(b, p, phrase_enc_b(m)),
    ensures
        u16_at(b, p) == m.beat2,
        u16_at(b, p + 2) == m.beat3,
        u16_at(b, p + 4) == m.beat4,
        b[p + 6] == m.unknown4,
        b[p + 7] == m.k3,
        b[p + 8] == m.unknown5,
        b[p + 9] == m.fill,
        u16_at(b, p + 10) == m.beat_fill,
{
    broadcast use group_decode;

}

impl Codec for Phrase {
    open spec fn wf(m: Phrase) -> bool {
        true
    }

    open spec fn writable(m: Phrase) -> bool {
        true
    }

    open spec fn enc(m: Phrase) -> Seq<u8> {
        phrase_enc_a(m) + phrase_enc_b(m)
    }

    open spec fn parse(b: Seq<u8>, p: int) -> Option<(Phrase, int)> {
        if in_bounds(b, p, 24) {
            Some(
                (
                    Phrase {
                        index: u16_at(b, p),
                        beat: u16_at(b, p + 2),
                        kind: u16_at(b, p + 4),
                        unknown1: b[p + 6],
                        k1: b[p + 7],
                        unknown2: b[p + 8],
                        k2: b[p + 9],
                        unknown3: b[p + 10],
                        b: b[p + 11],
                        beat2: u16_at(b, p + 12),
                        beat3: u16_at(b, p + 14),
                        beat4: u16_at(b, p + 16),
                        unknown4: b[p + 18],
                        k3: b[p + 19],
                        unknown5: b[p + 20],
                        fill: b[p + 21],
                        beat_fill: u16_at(b, p + 22),
                    },
                    p + 24,
                ),
            )
        } else {
            None
        }
    }

    proof fn lemma_roundtrip(m: Phrase, b: Seq<u8>, p: int) {
        lemma_matches_split(b, p, phrase_enc_a(m), phrase_enc_b(m));
        lemma_phrase_a(m, b, p);
        lemma_phrase_b(m, b, p + 12);
    }

    proof fn lemma_parse_wf(b: Seq<u8>, p: int) {
    }

    fn read(b: &[u8], p: usize) -> (r: Result<(Phrase, usize), ParseError>) {
        if p >= b.len() || b.len() - p < 24 {
            return Err(ParseError);
        }
        Ok(
            (
                Phrase {
                    index: get_u16(b, p),
                    beat: get_u16(b, p + 2),
                    kind: get_u16(b, p + 4),
                    unknown1: b[p + 6],
                    k1: b[p + 7],
                    unknown2: b[p + 8],
                    k2: b[p + 9],
                    unknown3: b[p + 10],
                    b: b[p + 11],
                    beat2: get_u16(b, p + 12),
                    beat3: get_u16(b, p + 14),
                    beat4: get_u16(b, p + 16),
                    unknown4: b[p + 18],
                    k3: b[p + 19],
                    unknown5: b[p + 20],
                    fill: b[p + 21],
                    beat_fill: get_u16(b, p + 22),
                },
                p + 24,
            ),
        )
    }

    fn write(&self, out: &mut Vec<u8>) {
        push_u16(out, self.index);
        push_u16(out, self.beat);
        push_u16(out, self.kind);
        out.push(self.unknown1);
        out.push(self.k1);
        out.push(self.unknown2);
        out.push(self.k2);
        out.push(self.unknown3);
        out.push(self.b);
        let ghost mid = out@;
        assert(mid =~= old(out)@ + phrase_enc_a(*self));
        push_u16(out, self.beat2);
        push_u16(out, self.beat3);
        push_u16(out, self.beat4);
        out.push(self.unknown4);
        out.push(self.k3);
        out.push(self.unknown5);
        out.push(self.fill);
        push_u16(out, self.beat_fill);
        assert(out@ =~= mid + phrase_enc_b(*self));
    }
}

/// The data part of a song structure section, which may be stored encrypted.
#[derive(Debug, PartialEq, Eq)]
pub struct SongStructureData {
    /// Overall type of phrase structure.
    pub mood: Mood,
    /// Unknown field.
    pub unknown1: u32,
    /// Unknown field.
    pub unknown2: u16,
    /// Number of the beat at which the last recognized phrase ends.
    pub end_beat: u16,
    /// Unknown field.
    pub unknown3: u16,
    /// Stylistic bank assigned in Lightning Mode.
    pub bank: Bank,
    /// Unknown field.
    pub unknown4: u8,
    /// Phrase entry data.
    pub phrases: Vec<Phrase>,
}

/// The model of song structure data.
pub struct SongStructureDataView {
    pub mood: Mood,
    pub unknown1: u32,
    pub unknown2: u16,
    pub end_beat: u16,
    pub unknown3: u16,
    pub bank: Bank,
    pub unknown4: u8,
    pub phrases: Seq<Phrase>,
}

impl View for SongStructureData {
    type V = SongStructureDataView;

    open spec fn view(&self) -> SongStructureDataView {
        SongStructureDataView {
            mood: self.mood,
            unknown1: self.unknown1,
            unknown2: self.unknown2,
            end_beat: self.end_beat,
            unknown3: self.unknown3,
            bank: self.bank,
            unknown4: self.unknown4,
            phrases: seq_view(self.phrases@),
        }
    }
}

/// The fourteen bytes before the phrases, in plain form.
pub open spec fn data_head(m: SongStructureDataView) -> Seq<u8> {
    be16(m.mood.spec_code()) + be32(m.unknown1) + be16(m.unknown2) + be16(m.end_beat) + be16(
        m.unknown3,
    ) + seq![m.bank.spec_code()] + seq![m.unknown4]
}

/// The plain bytes of song structure data.
pub open spec fn enc_data(m: SongStructureDataView) -> Seq<u8> {
    data_head(m) + enc_seq::<Phrase>(m.phrases)
}

/// Decodes plain song structure data with `n` phrases.
pub open spec fn parse_data(b: Seq<u8>, p: int, n: u16) -> Option<(SongStructureDataView, int)> {
    if in_bounds(b, p, 14) {
        match (Mood::of_code(u16_at(b, p)), Bank::of_code(b[p + 12])) {
            (Some(mood), Some(bank)) => match parse_seq::<Phrase>(b, p + 14, n as nat) {
                Some((phrases, q)) => Some(
                    (
                        SongStructureDataView {
                            mood,
                            unknown1: u32_at(b, p + 2),
                            unknown2: u16_at(b, p + 6),
                            end_beat: u16_at(b, p + 8),
                            unknown3: u16_at(b, p + 10),
                            bank,
                            unknown4: b[p + 13],
                            phrases,
                        },
                        q,
                    ),
                ),
                None => None,
            },
            _ => None,
        }
    } else {
        None
    }
}

proof fn lemma_data_head(m: SongStructureDataView, b: Seq<u8>, p: int)
    requires
        matches_at(b, p, data_head(m)),
    ensures
        u16_at(b, p) == m.mood.spec_code(),
        u32_at(b, p + 2) == m.unknown1,
        u16_at(b, p + 6) == m.unknown2,
        u16_at(b, p + 8) == m.end_beat,
        u16_at(b, p + 10) == m.unknown3,
        b[p + 12] == m.bank.spec_code(),
        b[p + 13] == m.unknown4,
        in_bounds(b, p, 14),
{
    broadcast use group_decode;

}

/// Decoding the plain bytes of song structure data gives it back.
pub proof fn lemma_data_roundtrip(m: SongStructureDataView, b: Seq<u8>, p: int)
    requires
        m.phrases.len() <= u16::MAX,
        matches_at(b, p, enc_data(m)),
    ensures
        parse_data(b, p, m.phrases.len() as u16) == Some((m, p + enc_data(m).len())),
{
    lemma_matches_split(b, p, data_head(m), enc_seq::<Phrase>(m.phrases));
    lemma_data_head(m, b, p);
    lemma_seq_roundtrip::<Phrase>(m.phrases, b, p + 14);
}

/// The key bytes of the song structure encryption (RB6+).
pub open spec fn key_data() -> Seq<u8> {
    seq![
        0xCBu8, 0xE1, 0xEE, 0xFA, 0xE5, 0xEE, 0xAD, 0xEE, 0xE9, 0xD2, 0xE9, 0xEB, 0xE1, 0xE9,
        0xF3, 0xE8, 0xE9, 0xF4, 0xE1,
    ]
}

/// The key byte applied to byte `i` of data with `n` phrases: the key data byte plus `n`,
/// modulo 256, repeating every 19 bytes.
pub open spec fn key_byte(n: u16, i: int) -> u8 {
    ((key_data()[i % 19] as int + n as int) % 256) as u8
}

/// Bytes XOR-ed with the key stream for `n` phrases.
pub open spec fn xor_key(s: Seq<u8>, n: u16) -> Seq<u8> {
    Seq::new(s.len(), |i: int| s[i] ^ key_byte(n, i))
}

/// Applying the key stream twice gives the bytes back.
pub proof fn lemma_xor_involution(s: Seq<u8>, n: u16)
    ensures
        xor_key(xor_key(s, n), n) == s,
{
    assert forall|i: int| 0 <= i < s.len() implies #[trigger] xor_key(xor_key(s, n), n)[i]
        == s[i] by {
        let a = s[i];
        let k = key_byte(n, i);
        assert((a ^ k) ^ k == a) by (bit_vector);
    }
    assert(xor_key(xor_key(s, n), n) =~= s);
}

/// The byte layout of a phrase entry, 24 bytes: index, beat and kind as big-endian 16-bit
/// numbers in bytes 0 to 5; `unknown1`, `k1`, `unknown2`, `k2`, `unknown3` and `b` in bytes 6
/// to 11; `beat2`, `beat3` and `beat4` in bytes 12 to 17; `unknown4`, `k3`, `unknown5` and
/// `fill` in bytes 18 to 21; and `beat_fill` in bytes 22 and 23.
pub proof fn lemma_phrase_layout(m: Phrase)
    ensures
        ({
            let e = Phrase::enc(m);
            &&& e.len() == 24
            &&& e[0] as int * 256 + e[1] as int == m.index
            &&& e[2] as int * 256 + e[3] as int == m.beat
            &&& e[4] as int * 256 + e[5] as int == m.kind
            &&& e[6] == m.unknown1
            &&& e[7] == m.k1
            &&& e[8] == m.unknown2
            &&& e[9] == m.k2
            &&& e[10] == m.unknown3
            &&& e[11] == m.b
            &&& e[12] as int * 256 + e[13] as int == m.beat2
            &&& e[14] as int * 256 + e[15] as int == m.beat3
            &&& e[16] as int * 256 + e[17] as int == m.beat4
            &&& e[18] == m.unknown4
            &&& e[19] == m.k3
            &&& e[20] == m.unknown5
            &&& e[21] == m.fill
            &&& e[22] as int * 256 + e[23] as int == m.beat_fill
        }),
{
    let e = Phrase::enc(m);
    lemma_matches_self(e);
    lemma_matches_split(e, 0, phrase_enc_a(m), phrase_enc_b(m));
    lemma_phrase_a(m, e, 0);
    lemma_phrase_b(m, e, 12);
}

/// The byte layout of song structure data: the mood code (1 high, 2 mid, 3 low) in bytes 0
/// and 1, `unknown1` in bytes 2 to 5, `unknown2` in bytes 6 and 7, the end beat in bytes 8
/// and 9, `unknown3` in bytes 10 and 11, the bank code in byte 12 and `unknown4` in byte 13,
/// all big-endian, followed by the phrases, 24 bytes each.
pub proof fn lemma_song_data_layout(m: SongStructureDataView)
    ensures
        ({
            let e = enc_data(m);
            let mood: int = match m.mood {
                Mood::High => 1,
                Mood::Mid => 2,
                Mood::Low => 3,
            };
            &&& e.len() == 14 + 24 * m.phrases.len()
            &&& e[0] as int * 256 + e[1] as int == mood
            &&& e[2] as int * 0x100_0000 + e[3] as int * 0x1_0000 + e[4] as int * 256 + e[5] as int
                == m.unknown1
            &&& e[6] as int * 256 + e[7] as int == m.unknown2
            &&& e[8] as int * 256 + e[9] as int == m.end_beat
            &&& e[10] as int * 256 + e[11] as int == m.unknown3
            &&& e[12] == m.bank.spec_code()
            &&& e[13] == m.unknown4
            &&& forall|k: int| 0 <= k < m.phrases.len() ==> e.subrange(14 + 24 * k, 38 + 24 * k)
                == #[trigger] Phrase::enc(m.phrases[k])
        }),
{
    let e = enc_data(m);
    lemma_matches_self(e);
    lemma_matches_split(e, 0, data_head(m), enc_seq::<Phrase>(m.phrases));
    lemma_data_head(m, e, 0);
    lemma_phrases_len(m.phrases);
    assert(e.subrange(14, e.len() as int) =~= enc_seq::<Phrase>(m.phrases));
    assert forall|k: int| 0 <= k < m.phrases.len() implies e.subrange(14 + 24 * k, 38 + 24 * k)
        == #[trigger] Phrase::enc(m.phrases[k]) by {
        lemma_phrases_at(m.phrases, k);
        assert(e.subrange(14 + 24 * k, 38 + 24 * k) =~= enc_seq::<Phrase>(m.phrases).subrange(24 * k, 24 * k + 24));
    }
}

/// The encoding of phrase `k` lies at bytes `24k` to `24k + 24` of the phrase list.
proof fn lemma_phrases_at(ms: Seq<Phrase>, k: int)
    requires
        0 <= k < ms.len(),
    ensures
        enc_seq::<Phrase>(ms).subrange(24 * k, 24 * k + 24) == Phrase::enc(ms[k]),
    decreases ms.len(),
{
    lemma_phrases_len(ms);
    lemma_phrases_len(ms.drop_last());
    let init = ms.drop_last();
    assert(enc_seq::<Phrase>(ms) == enc_seq::<Phrase>(init) + Phrase::enc(ms.last()));
    lemma_phrase_layout(ms.last());
    if k == ms.len() - 1 {
        assert(enc_seq::<Phrase>(ms).subrange(24 * k, 24 * k + 24) =~= Phrase::enc(ms[k]));
    } else {
        lemma_phrases_at(init, k);
        assert(init[k] == ms[k]);
        assert(enc_seq::<Phrase>(ms).subrange(24 * k, 24 * k + 24) =~= enc_seq::<Phrase>(init).subrange(24 * k, 24 * k + 24));
    }
}

/// The RB6+ encryption of song structure data with `n` phrases: byte `i` of the data is
/// stored XOR-ed with `(K[i mod 19] + n) mod 256`, where `K` is the fixed nineteen-byte key.
/// Writing an encrypted section stores exactly these bytes after the entry size and phrase
/// count, and reading such bytes finds the section encrypted and gives its data back.
pub proof fn lemma_song_encryption(m: SongStructureView, b: Seq<u8>, p: int, h: Header)
    requires
        m.is_encrypted,
        SongStructure::body_wf(m, h),
    ensures
        ({
            let n = m.data.phrases.len();
            let plain = enc_data(m.data);
            let key = seq![
                0xCBu8, 0xE1, 0xEE, 0xFA, 0xE5, 0xEE, 0xAD, 0xEE, 0xE9, 0xD2, 0xE9, 0xEB, 0xE1,
                0xE9, 0xF3, 0xE8, 0xE9, 0xF4, 0xE1,
            ];
            let stored = be32(24) + be16(n as u16) + Seq::new(
                plain.len(),
                |i: int| plain[i] ^ (((key[i % 19] as int + n as int) % 256) as u8),
            );
            &&& SongStructure::body_enc(m) == stored
            &&& matches_at(b, p, stored) ==> SongStructure::body_parse(b, p, h) == Some(
                (m, p + stored.len()),
            )
        }),
{
    let n = m.data.phrases.len();
    let plain = enc_data(m.data);
    let key = seq![
        0xCBu8, 0xE1, 0xEE, 0xFA, 0xE5, 0xEE, 0xAD, 0xEE, 0xE9, 0xD2, 0xE9, 0xEB, 0xE1, 0xE9,
        0xF3, 0xE8, 0xE9, 0xF4, 0xE1,
    ];
    assert(key =~= key_data());
    let xs = Seq::new(plain.len(), |i: int| plain[i] ^ (((key[i % 19] as int + n as int) % 256) as u8));
    assert(xor_key(plain, n as u16) =~= xs);
    if matches_at(b, p, SongStructure::body_enc(m)) {
        SongStructure::lemma_body_roundtrip(m, b, p, h);
    }
}

/// Whether the two stored mood bytes decrypt to a valid mood.
pub open spec fn looks_encrypted(r0: u8, r1: u8, n: u16) -> bool {
    Mood::of_code(((r0 ^ key_byte(n, 0)) as int * 256 + (r1 ^ key_byte(n, 1)) as int) as u16) is Some
}

/// Describes the structure of a song (Intro, Chorus, Verse, etc.).
#[derive(Debug, PartialEq, Eq)]
pub struct SongStructure {
    /// Whether the data is stored encrypted (not a field of the file, but derived from it).
    pub is_encrypted: bool,
    /// Song structure data.
    pub data: SongStructureData,
}

/// The model of a song structure section.
pub struct SongStructureView {
    pub is_encrypted: bool,
    pub data: SongStructureDataView,
}

impl View for SongStructure {
    type V = SongStructureView;

    open spec fn view(&self) -> SongStructureView {
        SongStructureView { is_encrypted: self.is_encrypted, data: self.data@ }
    }
}

/// The stored bytes of song structure data: encrypted or plain.
pub open spec fn stored_data(m: SongStructureView) -> Seq<u8> {
    if m.is_encrypted {
        xor_key(enc_data(m.data), m.data.phrases.len() as u16)
    } else {
        enc_data(m.data)
    }
}

impl SectionBody for SongStructure {
    /// The phrases make up the content size, and the stored mood bytes tell correctly whether
    /// the data is encrypted.
    open spec fn body_wf(m: SongStructureView, h: Header) -> bool {
        let n = m.data.phrases.len();
        let plain = be16(m.data.mood.spec_code());
        &&& n <= u16::MAX
        &&& h.size <= h.total_size
        &&& 24 * n == content_size(h)
        &&& !m.is_encrypted ==> !looks_encrypted(plain[0], plain[1], n as u16)
    }

    open spec fn body_writable(m: SongStructureView) -> bool {
        true
    }

    open spec fn body_enc(m: SongStructureView) -> Seq<u8> {
        be32(24) + be16(m.data.phrases.len() as u16) + stored_data(m)
    }

    open spec fn body_parse(b: Seq<u8>, p: int, h: Header) -> Option<(SongStructureView, int)> {
        if in_bounds(b, p, 8) && u32_at(b, p) == 24 && h.size <= h.total_size && 24 * u16_at(
            b,
            p + 4,
        ) == content_size(h) {
            let n = u16_at(b, p + 4);
            let len = 14 + 24 * n;
            if looks_encrypted(b[p + 6], b[p + 7], n) {
                if in_bounds(b, p + 6, len) {
                    match parse_data(xor_key(b.subrange(p + 6, p + 6 + len), n), 0, n) {
                        Some((d, q)) => Some(
                            (SongStructureView { is_encrypted: true, data: d }, p + 6 + q),
                        ),
                        None => None,
                    }
                } else {
                    None
                }
            } else {
                match parse_data(b, p + 6, n) {
                    Some((d, q)) => Some((SongStructureView { is_encrypted: false, data: d }, q)),
                    None => None,
                }
            }
        } else {
            None
        }
    }

    proof fn lemma_body_roundtrip(m: SongStructureView, b: Seq<u8>, p: int, h: Header) {
        let n = m.data.phrases.len() as u16;
        let plain = enc_data(m.data);
        let stored = stored_data(m);
        lemma_matches_split(b, p, be32(24) + be16(n), stored);
        lemma_song_head(n, b, p);
        lemma_phrases_len(m.data.phrases);
        assert(plain.len() == 14 + 24 * n);
        if m.is_encrypted {
            let region = b.subrange(p + 6, p + 6 + plain.len());
            assert(region == xor_key(plain, n));
            lemma_xor_involution(plain, n);
            lemma_matches_self(plain);
            lemma_data_roundtrip(m.data, plain, 0);
            lemma_mood_bytes(m.data, plain);
            let s0 = b[p + 6];
            let s1 = b[p + 7];
            assert(s0 == region[0] && s1 == region[1]);
            let k0 = key_byte(n, 0);
            let k1 = key_byte(n, 1);
            let c0 = plain[0];
            let c1 = plain[1];
            assert(s0 == c0 ^ k0 && s1 == c1 ^ k1);
            assert((c0 ^ k0) ^ k0 == c0 && (c1 ^ k1) ^ k1 == c1) by (bit_vector);
        } else {
            lemma_data_roundtrip(m.data, b, p + 6);
            lemma_mood_bytes(m.data, plain);
            assert(b[p + 6] == plain[0] && b[p + 7] == plain[1]) by {
                assert(b.subrange(p + 6, p + 6 + plain.len())[0] == plain[0]);
                assert(b.subrange(p + 6, p + 6 + plain.len())[1] == plain[1]);
            }
        }
    }

    proof fn lemma_body_parse_wf(b: Seq<u8>, p: int, h: Header) {
        if in_bounds(b, p, 8) {
            let n = u16_at(b, p + 4);
            let len = 14 + 24 * n;
            if looks_encrypted(b[p + 6], b[p + 7], n) {
                if in_bounds(b, p + 6, len) {
                    lemma_parse_data_wf(xor_key(b.subrange(p + 6, p + 6 + len), n), 0, n);
                }
            } else {
                lemma_parse_data_wf(b, p + 6, n);
            }
        }
    }

    fn read_body(b: &[u8], p: usize, h: &Header) -> (r: Result<(Self, usize), ParseError>) {
        if p >= b.len() || b.len() - p < 8 || h.size > h.total_size {
            return Err(ParseError);
        }
        let n = get_u16(b, p + 4);
        if get_u32(b, p) != 24 || 24 * (n as u64) != (h.total_size - h.size) as u64 {
            return Err(ParseError);
        }
        let len: usize = 14 + 24 * (n as usize);
        let k0 = key_byte_exec(n, 0);
        let k1 = key_byte_exec(n, 1);
        let c = ((b[p + 6] ^ k0) as u16) * 256 + (b[p + 7] ^ k1) as u16;
        if Mood::from_code(c).is_some() {
            if b.len() - (p + 6) < len {
                return Err(ParseError);
            }
            let region = xor_bytes(b, p + 6, len, n);
            match read_data(region.as_slice(), 0, n) {
                Ok((data, q)) => Ok((SongStructure { is_encrypted: true, data }, p + 6 + q)),
                Err(e) => Err(e),
            }
        } else {
            match read_data(b, p + 6, n) {
                Ok((data, q)) => Ok((SongStructure { is_encrypted: false, data }, q)),
                Err(e) => Err(e),
            }
        }
    }

    fn write_body(&self, out: &mut Vec<u8>) {
        let n = self.data.phrases.len() as u16;
        push_u32(out, 24);
        push_u16(out, n);
        let mut plain: Vec<u8> = Vec::new();
        write_data(&self.data, &mut plain);
        assert(plain@ =~= enc_data(self.data@));
        if self.is_encrypted {
            let len = plain.len();
            let enc = xor_bytes(plain.as_slice(), 0, len, n);
            assert(plain@.subrange(0, len as int) =~= plain@);
            append_bytes(out, enc.as_slice());
        } else {
            append_bytes(out, plain.as_slice());
        }
        assert(out@ =~= old(out)@ + Self::body_enc(self@));
    }
}

proof fn lemma_parse_data_wf(b: Seq<u8>, p: int, n: u16)
    ensures
        parse_data(b, p, n) matches Some((d, q)) ==> {
            &&& d.phrases.len() == n
            &&& p <= q <= b.len()
            &&& be16(d.mood.spec_code()) == seq![b[p], b[p + 1]]
        },
{
    if in_bounds(b, p, 14) {
        lemma_parse_seq_wf::<Phrase>(b, p + 14, n as nat);
        if let Some((d, q)) = parse_data(b, p, n) {
            assert(be16(d.mood.spec_code()) =~= seq![b[p], b[p + 1]]);
        }
    }
}

proof fn lemma_song_head(n: u16, b: Seq<u8>, p: int)
    requires
        matches_at(b, p, be32(24) + be16(n)),
    ensures
        u32_at(b, p) == 24,
        u16_at(b, p + 4) == n,
{
    broadcast use group_decode;

}

proof fn lemma_phrases_len(ms: Seq<Phrase>)
    ensures
        enc_seq::<Phrase>(ms).len() == 24 * ms.len(),
    decreases ms.len(),
{
    if ms.len() > 0 {
        lemma_phrases_len(ms.drop_last());
    }
}

proof fn lemma_mood_bytes(m: SongStructureDataView, plain: Seq<u8>)
    requires
        plain == enc_data(m),
    ensures
        plain[0] == be16(m.mood.spec_code())[0],
        plain[1] == be16(m.mood.spec_code())[1],
        Mood::of_code((plain[0] as int * 256 + plain[1] as int) as u16) == Some(m.mood),
{
}

/// The key byte applied to byte `i` of data with `n` phrases.
fn key_byte_exec(n: u16, i: usize) -> (r: u8)
    ensures
        r == key_byte(n, i as int),
{
    let key: [u8; 19] = [
        0xCB, 0xE1, 0xEE, 0xFA, 0xE5, 0xEE, 0xAD, 0xEE, 0xE9, 0xD2, 0xE9, 0xEB, 0xE1, 0xE9, 0xF3,
        0xE8, 0xE9, 0xF4, 0xE1,
    ];
    assert(key@ =~= key_data());
    ((key[i % 19] as u32 + n as u32) % 256) as u8
}

/// XORs `len` bytes starting at `p` with the key stream for `n` phrases.
fn xor_bytes(b: &[u8], p: usize, len: usize, n: u16) -> (r: Vec<u8>)
    requires
        in_bounds(b@, p as int, len as int),
    ensures
        r@ == xor_key(b@.subrange(p as int, p + len), n),
{
    let mut r: Vec<u8> = Vec::new();
    let mut i: usize = 0;
    while i < len
        invariant
            i <= len,
            p + len <= b.len(),
            r@ == xor_key(b@.subrange(p as int, p + i), n),
        decreases len - i,
    {
        let k = key_byte_exec(n, i);
        r.push(b[p + i] ^ k);
        i = i + 1;
        assert(r@ =~= xor_key(b@.subrange(p as int, p + i), n));
    }
    r
}

/// Reads plain song structure data with `n` phrases.
fn read_data(b: &[u8], p: usize, n: u16) -> (r: Result<(SongStructureData, usize), ParseError>)
    ensures
        res_ok(r, parse_data(b@, p as int, n)),
{
    if p >= b.len() || b.len() - p < 14 {
        return Err(ParseError);
    }
    let mood = match Mood::from_code(get_u16(b, p)) {
        Some(m) => m,
        None => return Err(ParseError),
    };
    let bank = match Bank::from_code(b[p + 12]) {
        Some(x) => x,
        None => return Err(ParseError),
    };
    match read_vec::<Phrase>(b, p + 14, n as usize) {
        Ok((phrases, q)) => Ok(
            (
                SongStructureData {
                    mood,
                    unknown1: get_u32(b, p + 2),
                    unknown2: get_u16(b, p + 6),
                    end_beat: get_u16(b, p + 8),
                    unknown3: get_u16(b, p + 10),
                    bank,
                    unknown4: b[p + 13],
                    phrases,
                },
                q,
            ),
        ),
        Err(e) => Err(e),
    }
}

/// Appends the plain bytes of song structure data.
fn write_data(d: &SongStructureData, out: &mut Vec<u8>)
    ensures
        final(out)@ == old(out)@ + enc_data(d@),
{
    push_u16(out, d.mood.code());
    push_u32(out, d.unknown1);
    push_u16(out, d.unknown2);
    push_u16(out, d.end_beat);
    push_u16(out, d.unknown3);
    out.push(d.bank.code());
    out.push(d.unknown4);
    let ghost mid = out@;
    assert(mid =~= old(out)@ + data_head(d@));
    write_vec(&d.phrases, out);
    assert(out@ =~= old(out)@ + enc_data(d@));
}

} // verus!
