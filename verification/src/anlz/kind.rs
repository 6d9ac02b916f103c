//! Section kinds and section headers.
use crate::codec::{
    be32, get_u32, group_decode, in_bounds, matches_at, push_u32, u32_at, Codec,
    ParseError,
};
use vstd::prelude::*;

verus! {

/// The kind of section.
#[derive(Debug, PartialEq, Eq, Clone, Copy)]
pub enum ContentKind {
    /// File section that contains all other sections (`PMAI`).
    File,
    /// All beats found in the track (`PQTZ`).
    BeatGrid,
    /// Either memory points and loops or hotcues and hot loops of the track (`PCOB`).
    CueList,
    /// Extended version of the `CueList` section (`PCO2`).
    ExtendedCueList,
    /// Single cue entry inside a `ExtendedCueList` section (`PCP2`).
    ExtendedCue,
    /// Single cue entry inside a `CueList` section (`PCPT`).
    Cue,
    /// File path of the audio file (`PPTH`).
    Path,
    /// Seek information for variable bitrate files (`PVBR`).
    VBR,
    /// Fixed-width monochrome preview of the track waveform (`PWAV`).
    WaveformPreview,
    /// Smaller version of the fixed-width monochrome preview (`PWV2`).
    TinyWaveformPreview,
    /// Variable-width large monochrome version of the track waveform (`PWV3`).
    WaveformDetail,
    /// Fixed-width colored version of the track waveform (`PWV4`).
    WaveformColorPreview,
    /// Variable-width large colored version of the track waveform (`PWV5`).
    WaveformColorDetail,
    /// Fixed-width 3-byte whole-track waveform payload (`PWV6`).
    WaveformHighResolutionPreview,
    /// Variable-width 3-byte waveform payload (`PWV7`).
    WaveformHighResolutionDetail,
    /// Per-band gain calibration for the high-resolution player waveform (`PWVC`).
    WaveformColorCalibration,
    /// Describes the structure of a song (`PSSI`).
    SongStructure,
    /// Unknown kind, holding its four tag bytes.
    Unknown([u8; 4]),
}

/// The big-endian code of the tag of a known kind.
pub open spec fn known_code(k: ContentKind) -> u32 {
    match k {
        ContentKind::File => 0x504d4149,
        ContentKind::BeatGrid => 0x5051545a,
        ContentKind::CueList => 0x50434f42,
        ContentKind::ExtendedCueList => 0x50434f32,
        ContentKind::ExtendedCue => 0x50435032,
        ContentKind::Cue => 0x50435054,
        ContentKind::Path => 0x50505448,
        ContentKind::VBR => 0x50564252,
        ContentKind::WaveformPreview => 0x50574156,
        ContentKind::TinyWaveformPreview => 0x50575632,
        ContentKind::WaveformDetail => 0x50575633,
        ContentKind::WaveformColorPreview => 0x50575634,
        ContentKind::WaveformColorDetail => 0x50575635,
        ContentKind::WaveformHighResolutionPreview => 0x50575636,
        ContentKind::WaveformHighResolutionDetail => 0x50575637,
        ContentKind::WaveformColorCalibration => 0x50575643,
        ContentKind::SongStructure => 0x50535349,
        ContentKind::Unknown(_) => 0,
    }
}

/// The known kind whose tag has the given big-endian code.
pub open spec fn kind_of_code(c: u32) -> Option<ContentKind> {
    if c == 0x504d4149 {
        Some(ContentKind::File)
    } else if c == 0x5051545a {
        Some(ContentKind::BeatGrid)
    } else if c == 0x50434f42 {
        Some(ContentKind::CueList)
    } else if c == 0x50434f32 {
        Some(ContentKind::ExtendedCueList)
    } else if c == 0x50435032 {
        Some(ContentKind::ExtendedCue)
    } else if c == 0x50435054 {
        Some(ContentKind::Cue)
    } else if c == 0x50505448 {
        Some(ContentKind::Path)
    } else if c == 0x50564252 {
        Some(ContentKind::VBR)
    } else if c == 0x50574156 {
        Some(ContentKind::WaveformPreview)
    } else if c == 0x50575632 {
        Some(ContentKind::TinyWaveformPreview)
    } else if c == 0x50575633 {
        Some(ContentKind::WaveformDetail)
    } else if c == 0x50575634 {
        Some(ContentKind::WaveformColorPreview)
    } else if c == 0x50575635 {
        Some(ContentKind::WaveformColorDetail)
    } else if c == 0x50575636 {
        Some(ContentKind::WaveformHighResolutionPreview)
    } else if c == 0x50575637 {
        Some(ContentKind::WaveformHighResolutionDetail)
    } else if c == 0x50575643 {
        Some(ContentKind::WaveformColorCalibration)
    } else if c == 0x50535349 {
        Some(ContentKind::SongStructure)
    } else {
        None
    }
}

/// The big-endian code of four tag bytes.
pub open spec fn tag_code(a: [u8; 4]) -> u32 {
    (a[0] as int * 0x100_0000 + a[1] as int * 0x1_0000 + a[2] as int * 256 + a[3] as int) as u32
}

impl View for ContentKind {
    type V = ContentKind;

    open spec fn view(&self) -> ContentKind {
        *self
    }
}

impl Codec for ContentKind {
    /// An unknown kind never carries the tag of a known kind.
    open spec fn wf(m: ContentKind) -> bool {
        match m {
            ContentKind::Unknown(a) => kind_of_code(tag_code(a)) is None,
            _ => true,
        }
    }

    open spec fn writable(m: ContentKind) -> bool {
        true
    }

    open spec fn enc(m: ContentKind) -> Seq<u8> {
        match m {
            ContentKind::Unknown(a) => seq![a[0], a[1], a[2], a[3]],
            _ => be32(known_code(m)),
        }
    }

    open spec fn parse(b: Seq<u8>, p: int) -> Option<(ContentKind, int)> {
        if in_bounds(b, p, 4) {
            match kind_of_code(u32_at(b, p)) {
                Some(k) => Some((k, p + 4)),
                None => Some((ContentKind::Unknown([b[p], b[p + 1], b[p + 2], b[p + 3]]), p + 4)),
            }
        } else {
            None
        }
    }

    proof fn lemma_roundtrip(m: ContentKind, b: Seq<u8>, p: int) {
        match m {
            ContentKind::Unknown(a) => {
                assert(b[p] == b.subrange(p, p + 4)[0]);
                assert(b[p + 1] == b.subrange(p, p + 4)[1]);
                assert(b[p + 2] == b.subrange(p, p + 4)[2]);
                assert(b[p + 3] == b.subrange(p, p + 4)[3]);
                assert([b[p], b[p + 1], b[p + 2], b[p + 3]] =~= a);
            },
            _ => {
                broadcast use group_decode;
            },
        }
    }

    proof fn lemma_parse_wf(b: Seq<u8>, p: int) {
    }

    fn read(b: &[u8], p: usize) -> (r: Result<(ContentKind, usize), ParseError>) {
        if p < b.len() && b.len() - p >= 4 {
            let c = get_u32(b, p);
            let k = if c == 0x504d4149 {
                ContentKind::File
            } else if c == 0x5051545a {
                ContentKind::BeatGrid
            } else if c == 0x50434f42 {
                ContentKind::CueList
            } else if c == 0x50434f32 {
                ContentKind::ExtendedCueList
            } else if c == 0x50435032 {
                ContentKind::ExtendedCue
            } else if c == 0x50435054 {
                ContentKind::Cue
            } else if c == 0x50505448 {
                ContentKind::Path
            } else if c == 0x50564252 {
                ContentKind::VBR
            } else if c == 0x50574156 {
                ContentKind::WaveformPreview
            } else if c == 0x50575632 {
                ContentKind::TinyWaveformPreview
            } else if c == 0x50575633 {
                ContentKind::WaveformDetail
            } else if c == 0x50575634 {
                ContentKind::WaveformColorPreview
            } else if c == 0x50575635 {
                ContentKind::WaveformColorDetail
            } else if c == 0x50575636 {
                ContentKind::WaveformHighResolutionPreview
            } else if c == 0x50575637 {
                ContentKind::WaveformHighResolutionDetail
            } else if c == 0x50575643 {
                ContentKind::WaveformColorCalibration
            } else if c == 0x50535349 {
                ContentKind::SongStructure
            } else {
                ContentKind::Unknown([b[p], b[p + 1], b[p + 2], b[p + 3]])
            };
            Ok((k, p + 4))
        } else {
            Err(ParseError)
        }
    }

    fn write(&self, out: &mut Vec<u8>) {
        match self {
            ContentKind::Unknown(a) => {
                out.push(a[0]);
                out.push(a[1]);
                out.push(a[2]);
                out.push(a[3]);
                assert(out@ =~= old(out)@ + seq![a[0], a[1], a[2], a[3]]);
            },
            _ => {
                let c: u32 = match self {
                    ContentKind::File => 0x504d4149,
                    ContentKind::BeatGrid => 0x5051545a,
                    ContentKind::CueList => 0x50434f42,
                    ContentKind::ExtendedCueList => 0x50434f32,
                    ContentKind::ExtendedCue => 0x50435032,
                    ContentKind::Cue => 0x50435054,
                    ContentKind::Path => 0x50505448,
                    ContentKind::VBR => 0x50564252,
                    ContentKind::WaveformPreview => 0x50574156,
                    ContentKind::TinyWaveformPreview => 0x50575632,
                    ContentKind::WaveformDetail => 0x50575633,
                    ContentKind::WaveformColorPreview => 0x50575634,
                    ContentKind::WaveformColorDetail => 0x50575635,
                    ContentKind::WaveformHighResolutionPreview => 0x50575636,
                    ContentKind::WaveformHighResolutionDetail => 0x50575637,
                    ContentKind::WaveformColorCalibration => 0x50575643,
                    ContentKind::SongStructure => 0x50535349,
                    ContentKind::Unknown(_) => 0,
                };
                push_u32(out, c);
            },
        }
    }
}

/// Header of a section that contains type and size information.
#[derive(Debug, PartialEq, Eq, Clone, Copy)]
pub struct Header {
    /// Kind of content in this item.
    pub kind: ContentKind,
    /// Length of the header data (including `kind`, `size` and `total_size`).
    pub size: u32,
    /// Length of the section (including the header).
    pub total_size: u32,
}

impl Header {
    /// Number of header bytes after `kind`, `size` and `total_size`.
    pub open spec fn spec_remaining_size(self) -> int {
        self.size - 12
    }

    /// Number of content bytes after the header.
    pub open spec fn spec_content_size(self) -> int {
        self.total_size - self.size
    }

    /// Number of header bytes after `kind`, `size` and `total_size`.
    pub fn remaining_size(&self) -> (r: u32)
        requires
            self.size >= 12,
        ensures
            r == self.spec_remaining_size(),
    {
        self.size - 12
    }

    /// Number of content bytes after the header.
    pub fn content_size(&self) -> (r: u32)
        requires
            self.size <= self.total_size,
        ensures
            r == self.spec_content_size(),
    {
        self.total_size - self.size
    }
}

/// Every header takes twelve bytes.
pub proof fn lemma_header_len(h: Header)
    ensures
        Header::enc(h).len() == 12,
{
}

impl View for Header {
    type V = Header;

    open spec fn view(&self) -> Header {
        *self
    }
}

impl Codec for Header {
    open spec fn wf(m: Header) -> bool {
        ContentKind::wf(m.kind)
    }

    open spec fn writable(m: Header) -> bool {
        true
    }

    open spec fn enc(m: Header) -> Seq<u8> {
        ContentKind::enc(m.kind) + be32(m.size) + be32(m.total_size)
    }

    open spec fn parse(b: Seq<u8>, p: int) -> Option<(Header, int)> {
        match ContentKind::parse(b, p) {
            Some((k, q)) => if in_bounds(b, q, 8) {
                Some((Header { kind: k, size: u32_at(b, q), total_size: u32_at(b, q + 4) }, q + 8))
            } else {
                None
            },
            None => None,
        }
    }

    proof fn lemma_roundtrip(m: Header, b: Seq<u8>, p: int) {
        broadcast use group_decode;
        assert(matches_at(b, p, Header::enc(m)));
        ContentKind::lemma_roundtrip(m.kind, b, p);
    }

    proof fn lemma_parse_wf(b: Seq<u8>, p: int) {
        ContentKind::lemma_parse_wf(b, p);
    }

    fn read(b: &[u8], p: usize) -> (r: Result<(Header, usize), ParseError>) {
        let (kind, q) = match ContentKind::read(b, p) {
            Ok(x) => x,
            Err(e) => return Err(e),
        };
        if q < b.len() && b.len() - q >= 8 {
            let size = get_u32(b, q);
            let total_size = get_u32(b, q + 4);
            Ok((Header { kind, size, total_size }, q + 8))
        } else {
            Err(ParseError)
        }
    }

    fn write(&self, out: &mut Vec<u8>) {
        self.kind.write(out);
        push_u32(out, self.size);
        push_u32(out, self.total_size);
        assert(out@ =~= old(out)@ + Header::enc(*self));
    }
}

} // verus!
