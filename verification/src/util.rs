//! Common types used in multiple modules.
use crate::codec::{in_bounds, Codec, ParseError};
use vstd::prelude::*;

verus! {

/// Indexed color identifiers used for memory cues and tracks.
#[derive(Debug, PartialEq, Eq, Clone, Copy)]
pub enum ColorIndex {
    /// No color.
    NoColor,
    /// Pink color.
    Pink,
    /// Red color.
    Red,
    /// Orange color.
    Orange,
    /// Yellow color.
    Yellow,
    /// Green color.
    Green,
    /// Aqua color.
    Aqua,
    /// Blue color.
    Blue,
    /// Purple color.
    Purple,
}

impl ColorIndex {
    /// The byte that encodes this color.
    pub open spec fn spec_byte(self) -> u8 {
        match self {
            ColorIndex::NoColor => 0,
            ColorIndex::Pink => 1,
            ColorIndex::Red => 2,
            ColorIndex::Orange => 3,
            ColorIndex::Yellow => 4,
            ColorIndex::Green => 5,
            ColorIndex::Aqua => 6,
            ColorIndex::Blue => 7,
            ColorIndex::Purple => 8,
        }
    }

    /// Returns the byte that encodes this color.
    pub fn to_byte(&self) -> (b: u8)
        ensures
            b == self.spec_byte(),
    {
        match self {
            ColorIndex::NoColor => 0,
            ColorIndex::Pink => 1,
            ColorIndex::Red => 2,
            ColorIndex::Orange => 3,
            ColorIndex::Yellow => 4,
            ColorIndex::Green => 5,
            ColorIndex::Aqua => 6,
            ColorIndex::Blue => 7,
            ColorIndex::Purple => 8,
        }
    }
}

/// The color that a byte encodes, if any.
pub open spec fn color_of_byte(b: u8) -> Option<ColorIndex> {
    if b == 0 {
        Some(ColorIndex::NoColor)
    } else if b == 1 {
        Some(ColorIndex::Pink)
    } else if b == 2 {
        Some(ColorIndex::Red)
    } else if b == 3 {
        Some(ColorIndex::Orange)
    } else if b == 4 {
        Some(ColorIndex::Yellow)
    } else if b == 5 {
        Some(ColorIndex::Green)
    } else if b == 6 {
        Some(ColorIndex::Aqua)
    } else if b == 7 {
        Some(ColorIndex::Blue)
    } else if b == 8 {
        Some(ColorIndex::Purple)
    } else {
        None
    }
}

impl ColorIndex {
    /// The color that a byte encodes, if any.
    pub fn from_byte(b: u8) -> (r: Option<ColorIndex>)
        ensures
            r == color_of_byte(b),
    {
        match b {
            0 => Some(ColorIndex::NoColor),
            1 => Some(ColorIndex::Pink),
            2 => Some(ColorIndex::Red),
            3 => Some(ColorIndex::Orange),
            4 => Some(ColorIndex::Yellow),
            5 => Some(ColorIndex::Green),
            6 => Some(ColorIndex::Aqua),
            7 => Some(ColorIndex::Blue),
            8 => Some(ColorIndex::Purple),
            _ => None,
        }
    }
}

impl View for ColorIndex {
    type V = ColorIndex;

    open spec fn view(&self) -> ColorIndex {
        *self
    }
}

impl Codec for ColorIndex {
    open spec fn wf(m: ColorIndex) -> bool {
        true
    }

    open spec fn writable(m: ColorIndex) -> bool {
        true
    }

    open spec fn enc(m: ColorIndex) -> Seq<u8> {
        seq![m.spec_byte()]
    }

    open spec fn parse(b: Seq<u8>, p: int) -> Option<(ColorIndex, int)> {
        if in_bounds(b, p, 1) {
            match color_of_byte(b[p]) {
                Some(c) => Some((c, p + 1)),
                None => None,
            }
        } else {
            None
        }
    }

    proof fn lemma_roundtrip(m: ColorIndex, b: Seq<u8>, p: int) {
        assert(b[p] == b.subrange(p, p + 1)[0]);
    }

    proof fn lemma_parse_wf(b: Seq<u8>, p: int) {
    }

    fn read(b: &[u8], p: usize) -> (r: Result<(ColorIndex, usize), ParseError>) {
        if p < b.len() {
            match ColorIndex::from_byte(b[p]) {
                Some(c) => Ok((c, p + 1)),
                None => Err(ParseError),
            }
        } else {
            Err(ParseError)
        }
    }

    fn write(&self, out: &mut Vec<u8>) {
        out.push(self.to_byte());
        assert(out@ =~= old(out)@ + seq![self.spec_byte()]);
    }
}

/// Track file type.
#[derive(Debug, PartialEq, Eq, Clone, Copy)]
pub enum FileType {
    /// Unknown file type.
    Unknown,
    /// MP3.
    Mp3,
    /// M4A.
    M4a,
    /// FLAC.
    Flac,
    /// WAV.
    Wav,
    /// AIFF.
    Aiff,
    /// Value that we haven't seen before.
    Other(u16),
}

/// The file type that a code stands for.
pub open spec fn file_type_of_code(c: u16) -> FileType {
    if c == 0 {
        FileType::Unknown
    } else if c == 1 {
        FileType::Mp3
    } else if c == 4 {
        FileType::M4a
    } else if c == 5 {
        FileType::Flac
    } else if c == 0xb {
        FileType::Wav
    } else if c == 0xc {
        FileType::Aiff
    } else {
        FileType::Other(c)
    }
}

impl FileType {
    /// The code that stands for this file type.
    pub open spec fn spec_code(self) -> u16 {
        match self {
            FileType::Unknown => 0,
            FileType::Mp3 => 1,
            FileType::M4a => 4,
            FileType::Flac => 5,
            FileType::Wav => 0xb,
            FileType::Aiff => 0xc,
            FileType::Other(c) => c,
        }
    }

    /// The code that stands for this file type.
    pub fn code(&self) -> (r: u16)
        ensures
            r == self.spec_code(),
    {
        match self {
            FileType::Unknown => 0,
            FileType::Mp3 => 1,
            FileType::M4a => 4,
            FileType::Flac => 5,
            FileType::Wav => 0xb,
            FileType::Aiff => 0xc,
            FileType::Other(c) => *c,
        }
    }

    /// The file type that a code stands for.
    pub fn from_code(c: u16) -> (r: FileType)
        ensures
            r == file_type_of_code(c),
    {
        match c {
            0 => FileType::Unknown,
            1 => FileType::Mp3,
            4 => FileType::M4a,
            5 => FileType::Flac,
            0xb => FileType::Wav,
            0xc => FileType::Aiff,
            _ => FileType::Other(c),
        }
    }
}

/// Reading the code of a file type gives the type back, unless `Other` holds the code of a
/// named type.
pub proof fn lemma_file_type_roundtrip(t: FileType)
    ensures
        !(t matches FileType::Other(c) && file_type_of_code(c) != FileType::Other(c))
            ==> file_type_of_code(t.spec_code()) == t,
{
}

} // verus!
