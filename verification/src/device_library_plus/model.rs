//! The records of the Device Library Plus database (`exportLibrary.db`) and the codes they
//! store.
use crate::util::FileType;
use vstd::prelude::*;

verus! {

/// Identifies a album.
#[derive(Debug, Clone, Copy, PartialEq, Eq, Hash, Structural)]
pub struct AlbumId(pub i32);

/// Identifies a artist.
#[derive(Debug, Clone, Copy, PartialEq, Eq, Hash, Structural)]
pub struct ArtistId(pub i32);

/// Identifies a browse category.
#[derive(Debug, Clone, Copy, PartialEq, Eq, Hash, Structural)]
pub struct CategoryId(pub i32);

/// Identifies a color.
#[derive(Debug, Clone, Copy, PartialEq, Eq, Hash, Structural)]
pub struct ColorId(pub i32);

/// Identifies a track.
#[derive(Debug, Clone, Copy, PartialEq, Eq, Hash, Structural)]
pub struct ContentId(pub i32);

/// Identifies a cue.
#[derive(Debug, Clone, Copy, PartialEq, Eq, Hash, Structural)]
pub struct CueId(pub i32);

/// Identifies a genre.
#[derive(Debug, Clone, Copy, PartialEq, Eq, Hash, Structural)]
pub struct GenreId(pub i32);

/// Identifies a history playlist.
#[derive(Debug, Clone, Copy, PartialEq, Eq, Hash, Structural)]
pub struct HistoryId(pub i32);

/// Identifies a hot cue bank list.
#[derive(Debug, Clone, Copy, PartialEq, Eq, Hash, Structural)]
pub struct HotCueBankListId(pub i32);

/// Identifies a image.
#[derive(Debug, Clone, Copy, PartialEq, Eq, Hash, Structural)]
pub struct ImageId(pub i32);

/// Identifies a musical key.
#[derive(Debug, Clone, Copy, PartialEq, Eq, Hash, Structural)]
pub struct KeyId(pub i32);

/// Identifies a label.
#[derive(Debug, Clone, Copy, PartialEq, Eq, Hash, Structural)]
pub struct LabelId(pub i32);

/// Identifies a menu item.
#[derive(Debug, Clone, Copy, PartialEq, Eq, Hash, Structural)]
pub struct MenuItemId(pub i32);

/// Identifies a My Tag.
#[derive(Debug, Clone, Copy, PartialEq, Eq, Hash, Structural)]
pub struct MyTagId(pub i32);

/// Identifies a playlist.
#[derive(Debug, Clone, Copy, PartialEq, Eq, Hash, Structural)]
pub struct PlaylistId(pub i32);

/// Identifies a sort entry.
#[derive(Debug, Clone, Copy, PartialEq, Eq, Hash, Structural)]
pub struct SortId(pub i32);

/// A yes/no column, stored as 0 or 1; other stored values are kept.
#[derive(Debug, Clone, Copy, PartialEq, Eq, Structural)]
pub enum BinaryFlag {
    /// Stored as 0.
    Off,
    /// Stored as 1.
    On,
    /// Any other stored value.
    Other(i32),
}

/// The flag that a stored value stands for.
pub open spec fn binary_flag_of(v: i32) -> BinaryFlag {
    if v == 0 {
        BinaryFlag::Off
    } else if v == 1 {
        BinaryFlag::On
    } else {
        BinaryFlag::Other(v)
    }
}

impl BinaryFlag {
    /// The stored value.
    pub open spec fn spec_i32(self) -> i32 {
        match self {
            BinaryFlag::Off => 0,
            BinaryFlag::On => 1,
            BinaryFlag::Other(v) => v,
        }
    }

    /// The stored value.
    pub fn as_i32(self) -> (r: i32)
        ensures
            r == self.spec_i32(),
    {
        match self {
            BinaryFlag::Off => 0,
            BinaryFlag::On => 1,
            BinaryFlag::Other(v) => v,
        }
    }
}

impl From<bool> for BinaryFlag {
    fn from(value: bool) -> (r: Self) {
        if value {
            BinaryFlag::On
        } else {
            BinaryFlag::Off
        }
    }
}

impl vstd::std_specs::convert::FromSpecImpl<bool> for BinaryFlag {
    open spec fn obeys_from_spec() -> bool {
        true
    }

    open spec fn from_spec(v: bool) -> BinaryFlag {
        if v {
            BinaryFlag::On
        } else {
            BinaryFlag::Off
        }
    }
}

impl From<i32> for BinaryFlag {
    fn from(value: i32) -> (r: Self) {
        match value {
            0 => BinaryFlag::Off,
            1 => BinaryFlag::On,
            other => BinaryFlag::Other(other),
        }
    }
}

impl vstd::std_specs::convert::FromSpecImpl<i32> for BinaryFlag {
    open spec fn obeys_from_spec() -> bool {
        true
    }

    open spec fn from_spec(v: i32) -> BinaryFlag {
        binary_flag_of(v)
    }
}

/// The file type column of a track.
#[derive(Debug, Clone, Copy, PartialEq, Eq, Structural)]
pub enum ContentFileType {
    /// Stored as 0.
    Unknown,
    /// Stored as 1.
    Mp3,
    /// Stored as 4.
    M4a,
    /// Stored as 5.
    Flac,
    /// Stored as 11.
    Wav,
    /// Stored as 12.
    Aiff,
    /// Any other stored value.
    Other(i32),
}

/// The file type that a stored value stands for.
pub open spec fn content_file_type_of(v: i32) -> ContentFileType {
    if v == 0 {
        ContentFileType::Unknown
    } else if v == 1 {
        ContentFileType::Mp3
    } else if v == 4 {
        ContentFileType::M4a
    } else if v == 5 {
        ContentFileType::Flac
    } else if v == 11 {
        ContentFileType::Wav
    } else if v == 12 {
        ContentFileType::Aiff
    } else {
        ContentFileType::Other(v)
    }
}

/// The track file type for an analysis file type: the same kind, or the same code.
pub open spec fn content_file_type_for(t: FileType) -> ContentFileType {
    match t {
        FileType::Unknown => ContentFileType::Unknown,
        FileType::Mp3 => ContentFileType::Mp3,
        FileType::M4a => ContentFileType::M4a,
        FileType::Flac => ContentFileType::Flac,
        FileType::Wav => ContentFileType::Wav,
        FileType::Aiff => ContentFileType::Aiff,
        FileType::Other(c) => ContentFileType::Other(c as i32),
    }
}

impl ContentFileType {
    /// The stored value.
    pub open spec fn spec_i32(self) -> i32 {
        match self {
            ContentFileType::Unknown => 0,
            ContentFileType::Mp3 => 1,
            ContentFileType::M4a => 4,
            ContentFileType::Flac => 5,
            ContentFileType::Wav => 11,
            ContentFileType::Aiff => 12,
            ContentFileType::Other(v) => v,
        }
    }

    /// The stored value.
    pub fn as_i32(self) -> (r: i32)
        ensures
            r == self.spec_i32(),
    {
        match self {
            ContentFileType::Unknown => 0,
            ContentFileType::Mp3 => 1,
            ContentFileType::M4a => 4,
            ContentFileType::Flac => 5,
            ContentFileType::Wav => 11,
            ContentFileType::Aiff => 12,
            ContentFileType::Other(v) => v,
        }
    }
}

impl From<i32> for ContentFileType {
    fn from(value: i32) -> (r: Self) {
        match value {
            0 => ContentFileType::Unknown,
            1 => ContentFileType::Mp3,
            4 => ContentFileType::M4a,
            5 => ContentFileType::Flac,
            11 => ContentFileType::Wav,
            12 => ContentFileType::Aiff,
            other => ContentFileType::Other(other),
        }
    }
}

impl vstd::std_specs::convert::FromSpecImpl<i32> for ContentFileType {
    open spec fn obeys_from_spec() -> bool {
        true
    }

    open spec fn from_spec(v: i32) -> ContentFileType {
        content_file_type_of(v)
    }
}

impl From<FileType> for ContentFileType {
    fn from(value: FileType) -> (r: Self) {
        match value {
            FileType::Unknown => ContentFileType::Unknown,
            FileType::Mp3 => ContentFileType::Mp3,
            FileType::M4a => ContentFileType::M4a,
            FileType::Flac => ContentFileType::Flac,
            FileType::Wav => ContentFileType::Wav,
            FileType::Aiff => ContentFileType::Aiff,
            FileType::Other(c) => ContentFileType::Other(c as i32),
        }
    }
}

impl vstd::std_specs::convert::FromSpecImpl<FileType> for ContentFileType {
    open spec fn obeys_from_spec() -> bool {
        true
    }

    open spec fn from_spec(v: FileType) -> ContentFileType {
        content_file_type_for(v)
    }
}

/// The attribute column of a playlist.
#[derive(Debug, Clone, Copy, PartialEq, Eq, Structural)]
pub enum PlaylistAttribute {
    /// Stored as 0.
    Default,
    /// Any other stored value.
    Other(i32),
}

impl PlaylistAttribute {
    /// The stored value.
    pub open spec fn spec_i32(self) -> i32 {
        match self {
            PlaylistAttribute::Default => 0,
            PlaylistAttribute::Other(v) => v,
        }
    }

    /// The stored value.
    pub fn as_i32(self) -> (r: i32)
        ensures
            r == self.spec_i32(),
    {
        match self {
            PlaylistAttribute::Default => 0,
            PlaylistAttribute::Other(v) => v,
        }
    }
}

/// The background color type of the device.
#[derive(Debug, Clone, Copy, PartialEq, Eq, Structural)]
pub enum BackgroundColorType {
    /// Stored as 0.
    Default,
    /// Any other stored value.
    Other(i32),
}

impl BackgroundColorType {
    /// The stored value.
    pub open spec fn spec_i32(self) -> i32 {
        match self {
            BackgroundColorType::Default => 0,
            BackgroundColorType::Other(v) => v,
        }
    }

    /// The stored value.
    pub fn as_i32(self) -> (r: i32)
        ensures
            r == self.spec_i32(),
    {
        match self {
            BackgroundColorType::Default => 0,
            BackgroundColorType::Other(v) => v,
        }
    }
}

/// Storing a flag and reading it back gives the flag, unless `Other` holds 0 or 1; reading a
/// stored value and storing it gives the value.
pub proof fn lemma_binary_flag_roundtrip(f: BinaryFlag, v: i32)
    ensures
        binary_flag_of(v).spec_i32() == v,
        !(f matches BinaryFlag::Other(x) && (x == 0 || x == 1)) ==> binary_flag_of(f.spec_i32()) == f,
{
}

/// Storing a file type and reading it back gives the type, unless `Other` holds a named code;
/// reading a stored value and storing it gives the value.
pub proof fn lemma_content_file_type_roundtrip(t: ContentFileType, v: i32)
    ensures
        content_file_type_of(v).spec_i32() == v,
        !(t matches ContentFileType::Other(x) && content_file_type_of(x) != ContentFileType::Other(x))
            ==> content_file_type_of(t.spec_i32()) == t,
{
}

/// The track file type for an analysis file type stores the analysis file type's code.
pub proof fn lemma_file_type_code_kept(t: FileType)
    ensures
        content_file_type_for(t).spec_i32() == t.spec_code() as i32,
{
}

} // verus!
