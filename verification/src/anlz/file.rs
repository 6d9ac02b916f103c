//! Sections and whole analysis files.
use super::body::{
    content_size, sizes_ok, BeatGrid, BeatGridView, CueList, CueListView, ExtendedCueList,
    ExtendedCueListView, Path, SectionBody, VBRView, VBR,
};
use super::columns::{WaveformColorDetailColumn, WaveformPreviewColumn};
use super::cue::{Beat, Cue, ExtendedCue};
use super::kind::{lemma_header_len, ContentKind, Header};
use super::song::{SongStructure, SongStructureView};
use super::wave_body::{
    TinyWaveformPreview, TinyWaveformPreviewView, Unknown, UnknownView, WaveformColorCalibration,
    WaveformColorDetail, WaveformColorDetailView, WaveformColorPreview, WaveformColorPreviewView,
    WaveformDetail, WaveformDetailView, WaveformHighResolutionDetail,
    WaveformHighResolutionPreview, WaveformPreview, WaveformPreviewView,
};
use crate::codec::{
    all_wf, append_bytes, copy_bytes, enc_seq, in_bounds, lemma_enc_seq_cons,
    lemma_matches_split, matches_at, res_ok, seq_view, write_vec, Codec, ParseError,
};
use crate::wide::no_zero_units;
use vstd::prelude::*;

verus! {

/// Section content which differs depending on the section kind.
#[derive(Debug, PartialEq, Eq)]
pub enum Content {
    /// All beats in the track.
    BeatGrid(BeatGrid),
    /// List of cue points or loops (either hot cues or memory cues).
    CueList(CueList),
    /// List of cue points or loops, extended version.
    ExtendedCueList(ExtendedCueList),
    /// Path of the audio file that this analysis belongs to.
    Path(Path),
    /// Seek information for variable bitrate files (probably).
    VBR(VBR),
    /// Fixed-width monochrome preview of the track waveform.
    WaveformPreview(WaveformPreview),
    /// Smaller version of the fixed-width monochrome preview of the track waveform.
    TinyWaveformPreview(TinyWaveformPreview),
    /// Variable-width large monochrome version of the track waveform.
    WaveformDetail(WaveformDetail),
    /// Fixed-width colored version of the track waveform.
    WaveformColorPreview(WaveformColorPreview),
    /// Variable-width large colored version of the track waveform.
    WaveformColorDetail(WaveformColorDetail),
    /// Fixed-width 3-byte whole-track waveform payload.
    WaveformHighResolutionPreview(WaveformHighResolutionPreview),
    /// Variable-width 3-byte waveform payload.
    WaveformHighResolutionDetail(WaveformHighResolutionDetail),
    /// Per-band gain calibration for the high-resolution player waveform.
    WaveformColorCalibration(WaveformColorCalibration),
    /// Describes the structure of a song (Intro, Chorus, Verse, etc.).
    SongStructure(SongStructure),
    /// Unknown content, kept as raw bytes.
    Unknown(Unknown),
}

/// The model of section content.
pub enum ContentView {
    BeatGrid(BeatGridView),
    CueList(CueListView),
    ExtendedCueList(ExtendedCueListView),
    Path(Seq<u16>),
    VBR(VBRView),
    WaveformPreview(WaveformPreviewView),
    TinyWaveformPreview(TinyWaveformPreviewView),
    WaveformDetail(WaveformDetailView),
    WaveformColorPreview(WaveformColorPreviewView),
    WaveformColorDetail(WaveformColorDetailView),
    WaveformHighResolutionPreview(Seq<Seq<u8>>),
    WaveformHighResolutionDetail(Seq<Seq<u8>>),
    WaveformColorCalibration(WaveformColorCalibration),
    SongStructure(SongStructureView),
    Unknown(UnknownView),
}

impl View for Content {
    type V = ContentView;

    open spec fn view(&self) -> ContentView {
        match self {
            Content::BeatGrid(x) => ContentView::BeatGrid(x@),
            Content::CueList(x) => ContentView::CueList(x@),
            Content::ExtendedCueList(x) => ContentView::ExtendedCueList(x@),
            Content::Path(x) => ContentView::Path(x@),
            Content::VBR(x) => ContentView::VBR(x@),
            Content::WaveformPreview(x) => ContentView::WaveformPreview(x@),
            Content::TinyWaveformPreview(x) => ContentView::TinyWaveformPreview(x@),
            Content::WaveformDetail(x) => ContentView::WaveformDetail(x@),
            Content::WaveformColorPreview(x) => ContentView::WaveformColorPreview(x@),
            Content::WaveformColorDetail(x) => ContentView::WaveformColorDetail(x@),
            Content::WaveformHighResolutionPreview(x) => ContentView::WaveformHighResolutionPreview(
                x@,
            ),
            Content::WaveformHighResolutionDetail(x) => ContentView::WaveformHighResolutionDetail(
                x@,
            ),
            Content::WaveformColorCalibration(x) => ContentView::WaveformColorCalibration(x@),
            Content::SongStructure(x) => ContentView::SongStructure(x@),
            Content::Unknown(x) => ContentView::Unknown(x@),
        }
    }
}

/// The section kind that goes with the content.
pub open spec fn content_kind(c: ContentView) -> ContentKind {
    match c {
        ContentView::BeatGrid(_) => ContentKind::BeatGrid,
        ContentView::CueList(_) => ContentKind::CueList,
        ContentView::ExtendedCueList(_) => ContentKind::ExtendedCueList,
        ContentView::Path(_) => ContentKind::Path,
        ContentView::VBR(_) => ContentKind::VBR,
        ContentView::WaveformPreview(_) => ContentKind::WaveformPreview,
        ContentView::TinyWaveformPreview(_) => ContentKind::TinyWaveformPreview,
        ContentView::WaveformDetail(_) => ContentKind::WaveformDetail,
        ContentView::WaveformColorPreview(_) => ContentKind::WaveformColorPreview,
        ContentView::WaveformColorDetail(_) => ContentKind::WaveformColorDetail,
        ContentView::WaveformHighResolutionPreview(_) => ContentKind::WaveformHighResolutionPreview,
        ContentView::WaveformHighResolutionDetail(_) => ContentKind::WaveformHighResolutionDetail,
        ContentView::WaveformColorCalibration(_) => ContentKind::WaveformColorCalibration,
        ContentView::SongStructure(_) => ContentKind::SongStructure,
        ContentView::Unknown(u) => u.kind,
    }
}

/// The content matches the header's kind and is well-formed for that header.
#[verifier::opaque]
pub open spec fn content_wf(c: ContentView, h: Header) -> bool {
    &&& content_kind(c) == h.kind
    &&& match c {
        ContentView::BeatGrid(x) => BeatGrid::body_wf(x, h),
        ContentView::CueList(x) => CueList::body_wf(x, h),
        ContentView::ExtendedCueList(x) => ExtendedCueList::body_wf(x, h),
        ContentView::Path(x) => Path::body_wf(x, h),
        ContentView::VBR(x) => VBR::body_wf(x, h),
        ContentView::WaveformPreview(x) => WaveformPreview::body_wf(x, h),
        ContentView::TinyWaveformPreview(x) => TinyWaveformPreview::body_wf(x, h),
        ContentView::WaveformDetail(x) => WaveformDetail::body_wf(x, h),
        ContentView::WaveformColorPreview(x) => WaveformColorPreview::body_wf(x, h),
        ContentView::WaveformColorDetail(x) => WaveformColorDetail::body_wf(x, h),
        ContentView::WaveformHighResolutionPreview(x) => WaveformHighResolutionPreview::body_wf(
            x,
            h,
        ),
        ContentView::WaveformHighResolutionDetail(x) => WaveformHighResolutionDetail::body_wf(
            x,
            h,
        ),
        ContentView::WaveformColorCalibration(x) => WaveformColorCalibration::body_wf(x, h),
        ContentView::SongStructure(x) => SongStructure::body_wf(x, h),
        ContentView::Unknown(x) => Unknown::body_wf(x, h),
    }
}

/// Content that can be written: any known kind whose stored lengths fit.
pub open spec fn content_writable(c: ContentView) -> bool {
    match c {
        ContentView::ExtendedCueList(x) => ExtendedCueList::body_writable(x),
        ContentView::Path(x) => Path::body_writable(x),
        ContentView::Unknown(_) => false,
        _ => true,
    }
}

/// The bytes of section content.
#[verifier::opaque]
pub open spec fn content_enc(c: ContentView) -> Seq<u8> {
    match c {
        ContentView::BeatGrid(x) => BeatGrid::body_enc(x),
        ContentView::CueList(x) => CueList::body_enc(x),
        ContentView::ExtendedCueList(x) => ExtendedCueList::body_enc(x),
        ContentView::Path(x) => Path::body_enc(x),
        ContentView::VBR(x) => VBR::body_enc(x),
        ContentView::WaveformPreview(x) => WaveformPreview::body_enc(x),
        ContentView::TinyWaveformPreview(x) => TinyWaveformPreview::body_enc(x),
        ContentView::WaveformDetail(x) => WaveformDetail::body_enc(x),
        ContentView::WaveformColorPreview(x) => WaveformColorPreview::body_enc(x),
        ContentView::WaveformColorDetail(x) => WaveformColorDetail::body_enc(x),
        ContentView::WaveformHighResolutionPreview(x) => WaveformHighResolutionPreview::body_enc(x),
        ContentView::WaveformHighResolutionDetail(x) => WaveformHighResolutionDetail::body_enc(x),
        ContentView::WaveformColorCalibration(x) => WaveformColorCalibration::body_enc(x),
        ContentView::SongStructure(x) => SongStructure::body_enc(x),
        ContentView::Unknown(x) => Unknown::body_enc(x),
    }
}

/// Decodes section content in the context of its header. The header's kind selects the
/// content; the kinds of the file and of single cues have no section content.
#[verifier::opaque]
pub open spec fn content_parse(b: Seq<u8>, p: int, h: Header) -> Option<(ContentView, int)> {
    match h.kind {
        ContentKind::BeatGrid => match BeatGrid::body_parse(b, p, h) {
            Some((x, q)) => Some((ContentView::BeatGrid(x), q)),
            None => None,
        },
        ContentKind::CueList => match CueList::body_parse(b, p, h) {
            Some((x, q)) => Some((ContentView::CueList(x), q)),
            None => None,
        },
        ContentKind::ExtendedCueList => match ExtendedCueList::body_parse(b, p, h) {
            Some((x, q)) => Some((ContentView::ExtendedCueList(x), q)),
            None => None,
        },
        ContentKind::Path => match Path::body_parse(b, p, h) {
            Some((x, q)) => Some((ContentView::Path(x), q)),
            None => None,
        },
        ContentKind::VBR => match VBR::body_parse(b, p, h) {
            Some((x, q)) => Some((ContentView::VBR(x), q)),
            None => None,
        },
        ContentKind::WaveformPreview => match WaveformPreview::body_parse(b, p, h) {
            Some((x, q)) => Some((ContentView::WaveformPreview(x), q)),
            None => None,
        },
        ContentKind::TinyWaveformPreview => match TinyWaveformPreview::body_parse(b, p, h) {
            Some((x, q)) => Some((ContentView::TinyWaveformPreview(x), q)),
            None => None,
        },
        ContentKind::WaveformDetail => match WaveformDetail::body_parse(b, p, h) {
            Some((x, q)) => Some((ContentView::WaveformDetail(x), q)),
            None => None,
        },
        ContentKind::WaveformColorPreview => match WaveformColorPreview::body_parse(b, p, h) {
            Some((x, q)) => Some((ContentView::WaveformColorPreview(x), q)),
            None => None,
        },
        ContentKind::WaveformColorDetail => match WaveformColorDetail::body_parse(b, p, h) {
            Some((x, q)) => Some((ContentView::WaveformColorDetail(x), q)),
            None => None,
        },
        ContentKind::WaveformHighResolutionPreview => match WaveformHighResolutionPreview::body_parse(b, p, h) {
            Some((x, q)) => Some((ContentView::WaveformHighResolutionPreview(x), q)),
            None => None,
        },
        ContentKind::WaveformHighResolutionDetail => match WaveformHighResolutionDetail::body_parse(b, p, h) {
            Some((x, q)) => Some((ContentView::WaveformHighResolutionDetail(x), q)),
            None => None,
        },
        ContentKind::WaveformColorCalibration => match WaveformColorCalibration::body_parse(b, p, h) {
            Some((x, q)) => Some((ContentView::WaveformColorCalibration(x), q)),
            None => None,
        },
        ContentKind::SongStructure => match SongStructure::body_parse(b, p, h) {
            Some((x, q)) => Some((ContentView::SongStructure(x), q)),
            None => None,
        },
        ContentKind::Unknown(_) => match Unknown::body_parse(b, p, h) {
            Some((x, q)) => Some((ContentView::Unknown(x), q)),
            None => None,
        },
        _ => None,
    }
}

/// Decoding the bytes of well-formed content gives it back.
pub proof fn lemma_content_roundtrip(c: ContentView, b: Seq<u8>, p: int, h: Header)
    requires
        content_wf(c, h),
        matches_at(b, p, content_enc(c)),
    ensures
        content_parse(b, p, h) == Some((c, p + content_enc(c).len())),
{
    match c {
        ContentView::BeatGrid(x) => lemma_roundtrip_beatgrid(x, b, p, h),
        ContentView::CueList(x) => lemma_roundtrip_cuelist(x, b, p, h),
        ContentView::ExtendedCueList(x) => lemma_roundtrip_extendedcuelist(x, b, p, h),
        ContentView::Path(x) => lemma_roundtrip_path(x, b, p, h),
        ContentView::VBR(x) => lemma_roundtrip_vbr(x, b, p, h),
        ContentView::WaveformPreview(x) => lemma_roundtrip_waveformpreview(x, b, p, h),
        ContentView::TinyWaveformPreview(x) => lemma_roundtrip_tinywaveformpreview(x, b, p, h),
        ContentView::WaveformDetail(x) => lemma_roundtrip_waveformdetail(x, b, p, h),
        ContentView::WaveformColorPreview(x) => lemma_roundtrip_waveformcolorpreview(x, b, p, h),
        ContentView::WaveformColorDetail(x) => lemma_roundtrip_waveformcolordetail(x, b, p, h),
        ContentView::WaveformHighResolutionPreview(x) => lemma_roundtrip_waveformhighresolutionpreview(x, b, p, h),
        ContentView::WaveformHighResolutionDetail(x) => lemma_roundtrip_waveformhighresolutiondetail(x, b, p, h),
        ContentView::WaveformColorCalibration(x) => lemma_roundtrip_waveformcolorcalibration(x, b, p, h),
        ContentView::SongStructure(x) => lemma_roundtrip_songstructure(x, b, p, h),
        ContentView::Unknown(x) => lemma_roundtrip_unknown(x, b, p, h),
    }
}

proof fn lemma_roundtrip_beatgrid(x: BeatGridView, b: Seq<u8>, p: int, h: Header)
    requires
        content_wf(ContentView::BeatGrid(x), h),
        matches_at(b, p, content_enc(ContentView::BeatGrid(x))),
    ensures
        content_parse(b, p, h) == Some((ContentView::BeatGrid(x), p + content_enc(ContentView::BeatGrid(x)).len())),
{
    reveal(content_parse);
    reveal(content_enc);
    reveal(content_wf);
    BeatGrid::lemma_body_roundtrip(x, b, p, h);
}

proof fn lemma_roundtrip_cuelist(x: CueListView, b: Seq<u8>, p: int, h: Header)
    requires
        content_wf(ContentView::CueList(x), h),
        matches_at(b, p, content_enc(ContentView::CueList(x))),
    ensures
        content_parse(b, p, h) == Some((ContentView::CueList(x), p + content_enc(ContentView::CueList(x)).len())),
{
    reveal(content_parse);
    reveal(content_enc);
    reveal(content_wf);
    CueList::lemma_body_roundtrip(x, b, p, h);
}

proof fn lemma_roundtrip_extendedcuelist(x: ExtendedCueListView, b: Seq<u8>, p: int, h: Header)
    requires
        content_wf(ContentView::ExtendedCueList(x), h),
        matches_at(b, p, content_enc(ContentView::ExtendedCueList(x))),
    ensures
        content_parse(b, p, h) == Some((ContentView::ExtendedCueList(x), p + content_enc(ContentView::ExtendedCueList(x)).len())),
{
    reveal(content_parse);
    reveal(content_enc);
    reveal(content_wf);
    ExtendedCueList::lemma_body_roundtrip(x, b, p, h);
}

proof fn lemma_roundtrip_path(x: Seq<u16>, b: Seq<u8>, p: int, h: Header)
    requires
        content_wf(ContentView::Path(x), h),
        matches_at(b, p, content_enc(ContentView::Path(x))),
    ensures
        content_parse(b, p, h) == Some((ContentView::Path(x), p + content_enc(ContentView::Path(x)).len())),
{
    reveal(content_parse);
    reveal(content_enc);
    reveal(content_wf);
    Path::lemma_body_roundtrip(x, b, p, h);
}

proof fn lemma_roundtrip_vbr(x: VBRView, b: Seq<u8>, p: int, h: Header)
    requires
        content_wf(ContentView::VBR(x), h),
        matches_at(b, p, content_enc(ContentView::VBR(x))),
    ensures
        content_parse(b, p, h) == Some((ContentView::VBR(x), p + content_enc(ContentView::VBR(x)).len())),
{
    reveal(content_parse);
    reveal(content_enc);
    reveal(content_wf);
    VBR::lemma_body_roundtrip(x, b, p, h);
}

proof fn lemma_roundtrip_waveformpreview(x: WaveformPreviewView, b: Seq<u8>, p: int, h: Header)
    requires
        content_wf(ContentView::WaveformPreview(x), h),
        matches_at(b, p, content_enc(ContentView::WaveformPreview(x))),
    ensures
        content_parse(b, p, h) == Some((ContentView::WaveformPreview(x), p + content_enc(ContentView::WaveformPreview(x)).len())),
{
    reveal(content_parse);
    reveal(content_enc);
    reveal(content_wf);
    WaveformPreview::lemma_body_roundtrip(x, b, p, h);
}

proof fn lemma_roundtrip_tinywaveformpreview(x: TinyWaveformPreviewView, b: Seq<u8>, p: int, h: Header)
    requires
        content_wf(ContentView::TinyWaveformPreview(x), h),
        matches_at(b, p, content_enc(ContentView::TinyWaveformPreview(x))),
    ensures
        content_parse(b, p, h) == Some((ContentView::TinyWaveformPreview(x), p + content_enc(ContentView::TinyWaveformPreview(x)).len())),
{
    reveal(content_parse);
    reveal(content_enc);
    reveal(content_wf);
    TinyWaveformPreview::lemma_body_roundtrip(x, b, p, h);
}

proof fn lemma_roundtrip_waveformdetail(x: WaveformDetailView, b: Seq<u8>, p: int, h: Header)
    requires
        content_wf(ContentView::WaveformDetail(x), h),
        matches_at(b, p, content_enc(ContentView::WaveformDetail(x))),
    ensures
        content_parse(b, p, h) == Some((ContentView::WaveformDetail(x), p + content_enc(ContentView::WaveformDetail(x)).len())),
{
    reveal(content_parse);
    reveal(content_enc);
    reveal(content_wf);
    WaveformDetail::lemma_body_roundtrip(x, b, p, h);
}

proof fn lemma_roundtrip_waveformcolorpreview(x: WaveformColorPreviewView, b: Seq<u8>, p: int, h: Header)
    requires
        content_wf(ContentView::WaveformColorPreview(x), h),
        matches_at(b, p, content_enc(ContentView::WaveformColorPreview(x))),
    ensures
        content_parse(b, p, h) == Some((ContentView::WaveformColorPreview(x), p + content_enc(ContentView::WaveformColorPreview(x)).len())),
{
    reveal(content_parse);
    reveal(content_enc);
    reveal(content_wf);
    WaveformColorPreview::lemma_body_roundtrip(x, b, p, h);
}

proof fn lemma_roundtrip_waveformcolordetail(x: WaveformColorDetailView, b: Seq<u8>, p: int, h: Header)
    requires
        content_wf(ContentView::WaveformColorDetail(x), h),
        matches_at(b, p, content_enc(ContentView::WaveformColorDetail(x))),
    ensures
        content_parse(b, p, h) == Some((ContentView::WaveformColorDetail(x), p + content_enc(ContentView::WaveformColorDetail(x)).len())),
{
    reveal(content_parse);
    reveal(content_enc);
    reveal(content_wf);
    WaveformColorDetail::lemma_body_roundtrip(x, b, p, h);
}

proof fn lemma_roundtrip_waveformhighresolutionpreview(x: Seq<Seq<u8>>, b: Seq<u8>, p: int, h: Header)
    requires
        content_wf(ContentView::WaveformHighResolutionPreview(x), h),
        matches_at(b, p, content_enc(ContentView::WaveformHighResolutionPreview(x))),
    ensures
        content_parse(b, p, h) == Some((ContentView::WaveformHighResolutionPreview(x), p + content_enc(ContentView::WaveformHighResolutionPreview(x)).len())),
{
    reveal(content_parse);
    reveal(content_enc);
    reveal(content_wf);
    WaveformHighResolutionPreview::lemma_body_roundtrip(x, b, p, h);
}

proof fn lemma_roundtrip_waveformhighresolutiondetail(x: Seq<Seq<u8>>, b: Seq<u8>, p: int, h: Header)
    requires
        content_wf(ContentView::WaveformHighResolutionDetail(x), h),
        matches_at(b, p, content_enc(ContentView::WaveformHighResolutionDetail(x))),
    ensures
        content_parse(b, p, h) == Some((ContentView::WaveformHighResolutionDetail(x), p + content_enc(ContentView::WaveformHighResolutionDetail(x)).len())),
{
    reveal(content_parse);
    reveal(content_enc);
    reveal(content_wf);
    WaveformHighResolutionDetail::lemma_body_roundtrip(x, b, p, h);
}

proof fn lemma_roundtrip_waveformcolorcalibration(x: WaveformColorCalibration, b: Seq<u8>, p: int, h: Header)
    requires
        content_wf(ContentView::WaveformColorCalibration(x), h),
        matches_at(b, p, content_enc(ContentView::WaveformColorCalibration(x))),
    ensures
        content_parse(b, p, h) == Some((ContentView::WaveformColorCalibration(x), p + content_enc(ContentView::WaveformColorCalibration(x)).len())),
{
    reveal(content_parse);
    reveal(content_enc);
    reveal(content_wf);
    WaveformColorCalibration::lemma_body_roundtrip(x, b, p, h);
}

proof fn lemma_roundtrip_songstructure(x: SongStructureView, b: Seq<u8>, p: int, h: Header)
    requires
        content_wf(ContentView::SongStructure(x), h),
        matches_at(b, p, content_enc(ContentView::SongStructure(x))),
    ensures
        content_parse(b, p, h) == Some((ContentView::SongStructure(x), p + content_enc(ContentView::SongStructure(x)).len())),
{
    reveal(content_parse);
    reveal(content_enc);
    reveal(content_wf);
    SongStructure::lemma_body_roundtrip(x, b, p, h);
}

proof fn lemma_roundtrip_unknown(x: UnknownView, b: Seq<u8>, p: int, h: Header)
    requires
        content_wf(ContentView::Unknown(x), h),
        matches_at(b, p, content_enc(ContentView::Unknown(x))),
    ensures
        content_parse(b, p, h) == Some((ContentView::Unknown(x), p + content_enc(ContentView::Unknown(x)).len())),
{
    reveal(content_parse);
    reveal(content_enc);
    reveal(content_wf);
    Unknown::lemma_body_roundtrip(x, b, p, h);
}

/// Decoded content is well-formed for its header and lies inside the bytes.
pub proof fn lemma_content_parse_wf(b: Seq<u8>, p: int, h: Header)
    ensures
        content_parse(b, p, h) matches Some((c, q)) ==> content_wf(c, h) && p <= q <= b.len(),
{
    reveal(content_parse);
    reveal(content_wf);
    match h.kind {
        ContentKind::BeatGrid => BeatGrid::lemma_body_parse_wf(b, p, h),
        ContentKind::CueList => CueList::lemma_body_parse_wf(b, p, h),
        ContentKind::ExtendedCueList => ExtendedCueList::lemma_body_parse_wf(b, p, h),
        ContentKind::Path => Path::lemma_body_parse_wf(b, p, h),
        ContentKind::VBR => VBR::lemma_body_parse_wf(b, p, h),
        ContentKind::WaveformPreview => WaveformPreview::lemma_body_parse_wf(b, p, h),
        ContentKind::TinyWaveformPreview => TinyWaveformPreview::lemma_body_parse_wf(b, p, h),
        ContentKind::WaveformDetail => WaveformDetail::lemma_body_parse_wf(b, p, h),
        ContentKind::WaveformColorPreview => WaveformColorPreview::lemma_body_parse_wf(b, p, h),
        ContentKind::WaveformColorDetail => WaveformColorDetail::lemma_body_parse_wf(b, p, h),
        ContentKind::WaveformHighResolutionPreview => {
            WaveformHighResolutionPreview::lemma_body_parse_wf(b, p, h)
        },
        ContentKind::WaveformHighResolutionDetail => {
            WaveformHighResolutionDetail::lemma_body_parse_wf(b, p, h)
        },
        ContentKind::WaveformColorCalibration => WaveformColorCalibration::lemma_body_parse_wf(
            b,
            p,
            h,
        ),
        ContentKind::SongStructure => SongStructure::lemma_body_parse_wf(b, p, h),
        ContentKind::Unknown(_) => Unknown::lemma_body_parse_wf(b, p, h),
        _ => {},
    }
}

impl Content {
    /// The section kind that goes with the content.
    pub fn kind(&self) -> (r: ContentKind)
        requires
            !(self@ is Unknown),
        ensures
            r == content_kind(self@),
    {
        match self {
            Content::BeatGrid(_) => ContentKind::BeatGrid,
            Content::CueList(_) => ContentKind::CueList,
            Content::ExtendedCueList(_) => ContentKind::ExtendedCueList,
            Content::Path(_) => ContentKind::Path,
            Content::VBR(_) => ContentKind::VBR,
            Content::WaveformPreview(_) => ContentKind::WaveformPreview,
            Content::TinyWaveformPreview(_) => ContentKind::TinyWaveformPreview,
            Content::WaveformDetail(_) => ContentKind::WaveformDetail,
            Content::WaveformColorPreview(_) => ContentKind::WaveformColorPreview,
            Content::WaveformColorDetail(_) => ContentKind::WaveformColorDetail,
            Content::WaveformHighResolutionPreview(_) => ContentKind::WaveformHighResolutionPreview,
            Content::WaveformHighResolutionDetail(_) => ContentKind::WaveformHighResolutionDetail,
            Content::WaveformColorCalibration(_) => ContentKind::WaveformColorCalibration,
            Content::SongStructure(_) => ContentKind::SongStructure,
            Content::Unknown(u) => u.kind,
        }
    }

    /// Reads section content in the context of its header.
    pub fn read(b: &[u8], p: usize, h: &Header) -> (r: Result<(Content, usize), ParseError>)
        ensures
            res_ok(r, content_parse(b@, p as int, *h)),
    {
        reveal(content_parse);
        match h.kind {
            ContentKind::BeatGrid => match BeatGrid::read_body(b, p, h) {
                Ok((x, q)) => Ok((Content::BeatGrid(x), q)),
                Err(e) => Err(e),
            },
            ContentKind::CueList => match CueList::read_body(b, p, h) {
                Ok((x, q)) => Ok((Content::CueList(x), q)),
                Err(e) => Err(e),
            },
            ContentKind::ExtendedCueList => match ExtendedCueList::read_body(b, p, h) {
                Ok((x, q)) => Ok((Content::ExtendedCueList(x), q)),
                Err(e) => Err(e),
            },
            ContentKind::Path => match Path::read_body(b, p, h) {
                Ok((x, q)) => Ok((Content::Path(x), q)),
                Err(e) => Err(e),
            },
            ContentKind::VBR => match VBR::read_body(b, p, h) {
                Ok((x, q)) => Ok((Content::VBR(x), q)),
                Err(e) => Err(e),
            },
            ContentKind::WaveformPreview => match WaveformPreview::read_body(b, p, h) {
                Ok((x, q)) => Ok((Content::WaveformPreview(x), q)),
                Err(e) => Err(e),
            },
            ContentKind::TinyWaveformPreview => match TinyWaveformPreview::read_body(b, p, h) {
                Ok((x, q)) => Ok((Content::TinyWaveformPreview(x), q)),
                Err(e) => Err(e),
            },
            ContentKind::WaveformDetail => match WaveformDetail::read_body(b, p, h) {
                Ok((x, q)) => Ok((Content::WaveformDetail(x), q)),
                Err(e) => Err(e),
            },
            ContentKind::WaveformColorPreview => match WaveformColorPreview::read_body(b, p, h) {
                Ok((x, q)) => Ok((Content::WaveformColorPreview(x), q)),
                Err(e) => Err(e),
            },
            ContentKind::WaveformColorDetail => match WaveformColorDetail::read_body(b, p, h) {
                Ok((x, q)) => Ok((Content::WaveformColorDetail(x), q)),
                Err(e) => Err(e),
            },
            ContentKind::WaveformHighResolutionPreview => {
                match WaveformHighResolutionPreview::read_body(b, p, h) {
                    Ok((x, q)) => Ok((Content::WaveformHighResolutionPreview(x), q)),
                    Err(e) => Err(e),
                }
            },
            ContentKind::WaveformHighResolutionDetail => {
                match WaveformHighResolutionDetail::read_body(b, p, h) {
                    Ok((x, q)) => Ok((Content::WaveformHighResolutionDetail(x), q)),
                    Err(e) => Err(e),
                }
            },
            ContentKind::WaveformColorCalibration => {
                match WaveformColorCalibration::read_body(b, p, h) {
                    Ok((x, q)) => Ok((Content::WaveformColorCalibration(x), q)),
                    Err(e) => Err(e),
                }
            },
            ContentKind::SongStructure => match SongStructure::read_body(b, p, h) {
                Ok((x, q)) => Ok((Content::SongStructure(x), q)),
                Err(e) => Err(e),
            },
            ContentKind::Unknown(_) => match Unknown::read_body(b, p, h) {
                Ok((x, q)) => Ok((Content::Unknown(x), q)),
                Err(e) => Err(e),
            },
            _ => Err(ParseError),
        }
    }

    /// Appends the bytes of the content. Unknown content cannot be written.
    pub fn write(&self, out: &mut Vec<u8>)
        requires
            content_writable(self@),
        ensures
            final(out)@ == old(out)@ + content_enc(self@),
    {
        reveal(content_enc);
        match self {
            Content::BeatGrid(x) => x.write_body(out),
            Content::CueList(x) => x.write_body(out),
            Content::ExtendedCueList(x) => x.write_body(out),
            Content::Path(x) => x.write_body(out),
            Content::VBR(x) => x.write_body(out),
            Content::WaveformPreview(x) => x.write_body(out),
            Content::TinyWaveformPreview(x) => x.write_body(out),
            Content::WaveformDetail(x) => x.write_body(out),
            Content::WaveformColorPreview(x) => x.write_body(out),
            Content::WaveformColorDetail(x) => x.write_body(out),
            Content::WaveformHighResolutionPreview(x) => x.write_body(out),
            Content::WaveformHighResolutionDetail(x) => x.write_body(out),
            Content::WaveformColorCalibration(x) => x.write_body(out),
            Content::SongStructure(x) => x.write_body(out),
            Content::Unknown(x) => x.write_body(out),
        }
    }
}

/// An analysis file section: a header and content.
#[derive(Debug, PartialEq, Eq)]
pub struct Section {
    /// The header.
    pub header: Header,
    /// The section content.
    pub content: Content,
}

/// The model of a section.
pub struct SectionView {
    pub header: Header,
    pub content: ContentView,
}

impl View for Section {
    type V = SectionView;

    open spec fn view(&self) -> SectionView {
        SectionView { header: self.header, content: self.content@ }
    }
}

impl Codec for Section {
    open spec fn wf(m: SectionView) -> bool {
        Header::wf(m.header) && content_wf(m.content, m.header)
    }

    open spec fn writable(m: SectionView) -> bool {
        content_writable(m.content)
    }

    open spec fn enc(m: SectionView) -> Seq<u8> {
        Header::enc(m.header) + content_enc(m.content)
    }

    open spec fn parse(b: Seq<u8>, p: int) -> Option<(SectionView, int)> {
        match Header::parse(b, p) {
            Some((h, q)) => match content_parse(b, q, h) {
                Some((c, r)) => Some((SectionView { header: h, content: c }, r)),
                None => None,
            },
            None => None,
        }
    }

    proof fn lemma_roundtrip(m: SectionView, b: Seq<u8>, p: int) {
        lemma_header_len(m.header);
        lemma_matches_split(b, p, Header::enc(m.header), content_enc(m.content));
        Header::lemma_roundtrip(m.header, b, p);
        lemma_content_roundtrip(m.content, b, p + 12, m.header);
    }

    proof fn lemma_parse_wf(b: Seq<u8>, p: int) {
        Header::lemma_parse_wf(b, p);
        if let Some((h, q)) = Header::parse(b, p) {
            lemma_content_parse_wf(b, q, h);
        }
    }

    fn read(b: &[u8], p: usize) -> (r: Result<(Section, usize), ParseError>) {
        let (header, q) = match Header::read(b, p) {
            Ok(x) => x,
            Err(e) => return Err(e),
        };
        match Content::read(b, q, &header) {
            Ok((content, r)) => Ok((Section { header, content }, r)),
            Err(e) => Err(e),
        }
    }

    fn write(&self, out: &mut Vec<u8>) {
        self.header.write(out);
        self.content.write(out);
        assert(out@ =~= old(out)@ + Section::enc(self@));
    }
}

/// Content that `Section::new` can frame: known kinds whose stored counts fit and whose
/// header follows from the content.
pub open spec fn content_new_ok(c: ContentView) -> bool {
    match c {
        ContentView::BeatGrid(x) => true,
        ContentView::CueList(x) => x.cues.len() <= u16::MAX && all_wf::<Cue>(x.cues),
        ContentView::ExtendedCueList(x) => x.unknown == 0 && x.cues.len() == 0,
        ContentView::Path(x) => no_zero_units(x),
        ContentView::WaveformDetail(x) => x.unknown == 0x0096_0000,
        ContentView::WaveformColorDetail(x) => all_wf::<WaveformColorDetailColumn>(x.data),
        ContentView::WaveformHighResolutionPreview(x) => all_wf::<[u8; 3]>(x),
        ContentView::WaveformHighResolutionDetail(x) => all_wf::<[u8; 3]>(x),
        ContentView::SongStructure(_) => false,
        ContentView::Unknown(_) => false,
        _ => true,
    }
}

/// The header size that `Section::new` uses for the content.
pub open spec fn section_size(c: ContentView) -> int {
    match c {
        ContentView::Path(_) => 16,
        ContentView::VBR(_) => 16,
        ContentView::BeatGrid(_) => 24,
        ContentView::WaveformPreview(_) => 20,
        ContentView::TinyWaveformPreview(_) => 20,
        ContentView::WaveformDetail(_) => 24,
        ContentView::WaveformColorPreview(_) => 24,
        ContentView::WaveformColorDetail(_) => 24,
        ContentView::WaveformHighResolutionPreview(_) => 20,
        ContentView::WaveformHighResolutionDetail(_) => 24,
        ContentView::WaveformColorCalibration(_) => 14,
        ContentView::CueList(_) => 24,
        ContentView::ExtendedCueList(_) => 20,
        _ => 12,
    }
}

/// The content byte count that `Section::new` uses for the content.
pub open spec fn content_bytes(c: ContentView) -> int {
    match c {
        ContentView::Path(x) => ((x.len() + 1) * 2) as int,
        ContentView::VBR(x) => x.unknown2.len() as int,
        ContentView::BeatGrid(x) => (x.beats.len() * 8) as int,
        ContentView::WaveformPreview(x) => x.data.len() as int,
        ContentView::TinyWaveformPreview(x) => x.data.len() as int,
        ContentView::WaveformDetail(x) => x.data.len() as int,
        ContentView::WaveformColorPreview(x) => (x.data.len() * 6) as int,
        ContentView::WaveformColorDetail(x) => (x.data.len() * 2) as int,
        ContentView::WaveformHighResolutionPreview(x) => (x.len() * 3) as int,
        ContentView::WaveformHighResolutionDetail(x) => (x.len() * 3) as int,
        ContentView::WaveformColorCalibration(_) => 6,
        ContentView::CueList(x) => (x.cues.len() * 56) as int,
        ContentView::ExtendedCueList(_) => 0,
        _ => 0,
    }
}

/// The section that `Section::new` builds for the content.
pub open spec fn section_new_spec(c: ContentView) -> SectionView {
    SectionView {
        header: Header {
            kind: content_kind(c),
            size: section_size(c) as u32,
            total_size: (section_size(c) + content_bytes(c)) as u32,
        },
        content: c,
    }
}

impl Section {
    /// Constructs a section from content, computing the header sizes.
    pub fn new(content: Content) -> (r: Section)
        requires
            !(content@ is SongStructure),
            !(content@ is Unknown),
            section_size(content@) + content_bytes(content@) <= u32::MAX,
        ensures
            r@ == section_new_spec(content@),
    {
        let (size, bytes): (u32, u64) = match &content {
            Content::Path(x) => (16, (x.path.0.len() as u64 + 1) * 2),
            Content::VBR(x) => (16, x.unknown2.len() as u64),
            Content::BeatGrid(x) => (24, x.beats.len() as u64 * 8),
            Content::WaveformPreview(x) => (20, x.data.len() as u64),
            Content::TinyWaveformPreview(x) => (20, x.data.len() as u64),
            Content::WaveformDetail(x) => (24, x.data.len() as u64),
            Content::WaveformColorPreview(x) => (24, x.data.len() as u64 * 6),
            Content::WaveformColorDetail(x) => (24, x.data.len() as u64 * 2),
            Content::WaveformHighResolutionPreview(x) => (20, x.data.len() as u64 * 3),
            Content::WaveformHighResolutionDetail(x) => (24, x.data.len() as u64 * 3),
            Content::WaveformColorCalibration(_) => (14, 6),
            Content::CueList(x) => (24, x.cues.len() as u64 * 56),
            Content::ExtendedCueList(_) => (20, 0),
            Content::SongStructure(_) => (12, 0),
            Content::Unknown(_) => (12, 0),
        };
        let kind = content.kind();
        Section { header: Header { kind, size, total_size: size + bytes as u32 }, content }
    }
}

/// Every record of these kinds has a fixed encoded length.
proof fn lemma_enc_seq_fixed<T: Codec>(ms: Seq<T::V>, k: int)
    requires
        forall|i: int| 0 <= i < ms.len() ==> #[trigger] T::enc(ms[i]).len() == k,
    ensures
        enc_seq::<T>(ms).len() == k * ms.len(),
    decreases ms.len(),
{
    if ms.len() > 0 {
        let init = ms.drop_last();
        assert forall|i: int| 0 <= i < init.len() implies #[trigger] T::enc(init[i]).len() == k by {
            assert(init[i] == ms[i]);
        }
        lemma_enc_seq_fixed::<T>(init, k);
        assert(T::enc(ms[ms.len() - 1]).len() == k);
        assert(k * init.len() + k == k * ms.len()) by (nonlinear_arith)
            requires
                init.len() + 1 == ms.len(),
        ;
    }
}

/// A section built by `Section::new` from suitable content is well-formed and its bytes are
/// exactly as long as its header says.
pub proof fn lemma_section_new_wf(c: ContentView)
    requires
        content_new_ok(c),
        section_size(c) + content_bytes(c) <= u32::MAX,
    ensures
        Section::wf(section_new_spec(c)),
        Section::enc(section_new_spec(c)).len() == section_new_spec(c).header.total_size,
{
    reveal(content_wf);
    reveal(content_enc);
    let s = section_new_spec(c);
    lemma_header_len(s.header);
    match c {
        ContentView::BeatGrid(x) => {
            assert forall|i: int| 0 <= i < x.beats.len() implies #[trigger] Beat::enc(
                x.beats[i],
            ).len() == 8 by {}
            lemma_enc_seq_fixed::<Beat>(x.beats, 8);
        },
        ContentView::CueList(x) => {
            assert forall|i: int| 0 <= i < x.cues.len() implies #[trigger] Cue::enc(
                x.cues[i],
            ).len() == 56 by {
                lemma_header_len(x.cues[i].header);
            }
            lemma_enc_seq_fixed::<Cue>(x.cues, 56);
        },
        ContentView::ExtendedCueList(x) => {
            assert(enc_seq::<ExtendedCue>(x.cues).len() == 0);
        },
        ContentView::Path(x) => {
            lemma_enc_seq_fixed::<u16>(x, 2);
        },
        ContentView::WaveformPreview(x) => {
            lemma_enc_seq_fixed::<WaveformPreviewColumn>(x.data, 1);
        },
        ContentView::TinyWaveformPreview(x) => {
            lemma_enc_seq_fixed::<super::columns::TinyWaveformPreviewColumn>(x.data, 1);
        },
        ContentView::WaveformDetail(x) => {
            lemma_enc_seq_fixed::<WaveformPreviewColumn>(x.data, 1);
        },
        ContentView::WaveformColorPreview(x) => {
            lemma_enc_seq_fixed::<super::columns::WaveformColorPreviewColumn>(x.data, 6);
        },
        ContentView::WaveformColorDetail(x) => {
            assert forall|i: int| 0 <= i < x.data.len() implies #[trigger]
                WaveformColorDetailColumn::enc(x.data[i]).len() == 2 by {
                assert(WaveformColorDetailColumn::wf(x.data[i]));
            }
            lemma_enc_seq_fixed::<WaveformColorDetailColumn>(x.data, 2);
        },
        ContentView::WaveformHighResolutionPreview(x) => {
            assert forall|i: int| 0 <= i < x.len() implies #[trigger] <[u8; 3] as Codec>::enc(
                x[i],
            ).len() == 3 by {
                assert(<[u8; 3] as Codec>::wf(x[i]));
            }
            lemma_enc_seq_fixed::<[u8; 3]>(x, 3);
        },
        ContentView::WaveformHighResolutionDetail(x) => {
            assert forall|i: int| 0 <= i < x.len() implies #[trigger] <[u8; 3] as Codec>::enc(
                x[i],
            ).len() == 3 by {
                assert(<[u8; 3] as Codec>::wf(x[i]));
            }
            lemma_enc_seq_fixed::<[u8; 3]>(x, 3);
        },
        _ => {},
    }
}

/// An analysis file: a file header, header data and the sections.
#[derive(Debug, PartialEq, Eq)]
pub struct ANLZ {
    /// The file header.
    pub header: Header,
    /// The header data.
    pub header_data: Vec<u8>,
    /// The content sections.
    pub sections: Vec<Section>,
}

/// The model of an analysis file.
pub struct ANLZView {
    pub header: Header,
    pub header_data: Seq<u8>,
    pub sections: Seq<SectionView>,
}

impl View for ANLZ {
    type V = ANLZView;

    open spec fn view(&self) -> ANLZView {
        ANLZView {
            header: self.header,
            header_data: self.header_data@,
            sections: seq_view(self.sections@),
        }
    }
}

/// Reads sections from `p` while the position is before `end`.
pub open spec fn sections_from(b: Seq<u8>, p: int, end: int) -> Option<(Seq<SectionView>, int)>
    decreases b.len() - p,
{
    if p >= end {
        Some((Seq::empty(), p))
    } else {
        match Section::parse(b, p) {
            Some((s, q)) => if p < q <= b.len() {
                match sections_from(b, q, end) {
                    Some((ss, r)) => Some((seq![s] + ss, r)),
                    None => None,
                }
            } else {
                None
            },
            None => None,
        }
    }
}

/// Sections laid out from offset `off` are read back as exactly these sections when reading
/// stops at offset `end`: each starts before `end`, and the position after the last is at or
/// past `end`.
pub open spec fn sections_fit(ss: Seq<SectionView>, off: int, end: int) -> bool
    decreases ss.len(),
{
    if ss.len() == 0 {
        off >= end
    } else {
        &&& off < end
        &&& Section::wf(ss[0])
        &&& sections_fit(ss.drop_first(), off + Section::enc(ss[0]).len(), end)
    }
}

/// Reading back sections that fit gives them back.
pub proof fn lemma_sections_roundtrip(ss: Seq<SectionView>, b: Seq<u8>, base: int, off: int, end: int)
    requires
        sections_fit(ss, off, end),
        matches_at(b, base + off, enc_seq::<Section>(ss)),
    ensures
        sections_from(b, base + off, base + end) == Some(
            (ss, base + off + enc_seq::<Section>(ss).len()),
        ),
    decreases ss.len(),
{
    if ss.len() > 0 {
        let s = ss[0];
        let rest = ss.drop_first();
        assert(seq![s] + rest =~= ss);
        lemma_enc_seq_cons::<Section>(s, rest);
        lemma_matches_split(b, base + off, Section::enc(s), enc_seq::<Section>(rest));
        Section::lemma_roundtrip(s, b, base + off);
        lemma_header_len(s.header);
        lemma_sections_roundtrip(rest, b, base, off + Section::enc(s).len(), end);
    } else {
        assert(enc_seq::<Section>(ss).len() == 0);
    }
}

/// One step of reading sections: a section, then the sections after it.
proof fn lemma_sections_step(b: Seq<u8>, pos: int, end: int)
    requires
        pos < end,
    ensures
        sections_from(b, pos, end) == match Section::parse(b, pos) {
            Some((s, q)) => if pos < q <= b.len() {
                match sections_from(b, q, end) {
                    Some((ss, r)) => Some((seq![s] + ss, r)),
                    None => None,
                }
            } else {
                None
            },
            None => None,
        },
{
}

/// Prepending a read section to the rest keeps the accumulated form of the result.
proof fn lemma_prefix_push(done: Seq<SectionView>, s: SectionView, rest: Option<(Seq<SectionView>, int)>)
    ensures
        match rest {
            Some((ss, r)) => Some((done + (seq![s] + ss), r)),
            None => None::<(Seq<SectionView>, int)>,
        } == match rest {
            Some((ss, r)) => Some((done.push(s) + ss, r)),
            None => None,
        },
{
    if let Some((ss, r)) = rest {
        assert(done + (seq![s] + ss) =~= done.push(s) + ss);
    }
}

/// Reads sections from `start` while the position is before `end`.
fn read_sections(b: &[u8], start: usize, end: u128) -> (r: Result<(Vec<Section>, usize), ParseError>)
    requires
        start <= b.len(),
    ensures
        match sections_from(b@, start as int, end as int) {
            Some((ss, q)) => r matches Ok((v, n)) && seq_view(v@) == ss && n as int == q,
            None => r is Err,
        },
{
    let mut sections: Vec<Section> = Vec::new();
    let mut pos = start;
    while (pos as u128) < end
        invariant
            start <= pos <= b.len(),
            sections_from(b@, start as int, end as int) == match sections_from(
                b@,
                pos as int,
                end as int,
            ) {
                Some((ss, r)) => Some((seq_view(sections@) + ss, r)),
                None => None,
            },
        decreases b.len() - pos,
    {
        proof {
            Section::lemma_parse_wf(b@, pos as int);
            lemma_sections_step(b@, pos as int, end as int);
        }
        let (s, next) = match Section::read(b, pos) {
            Ok(x) => x,
            Err(e) => return Err(e),
        };
        proof {
            lemma_prefix_push(seq_view(sections@), s@, sections_from(b@, next as int, end as int));
            assert(seq_view(sections@.push(s)) =~= seq_view(sections@).push(s@));
        }
        sections.push(s);
        pos = next;
    }
    assert(seq_view(sections@) + Seq::<SectionView>::empty() =~= seq_view(sections@));
    Ok((sections, pos))
}

/// The standard file header data bytes, as seen in exported Rekordbox files.
pub open spec fn standard_header_data() -> Seq<u8> {
    seq![0u8, 0, 0, 1, 0, 1, 0, 0, 0, 1, 0, 0, 0, 0, 0, 0]
}

/// The sum of the total sizes in the section headers.
pub open spec fn sum_total_sizes(ss: Seq<SectionView>) -> int
    decreases ss.len(),
{
    if ss.len() == 0 {
        0
    } else {
        sum_total_sizes(ss.drop_last()) + ss.last().header.total_size
    }
}

/// The file that `ANLZ::new` builds for the sections.
pub open spec fn anlz_new_spec(ss: Seq<SectionView>) -> ANLZView {
    ANLZView {
        header: Header {
            kind: ContentKind::File,
            size: 28,
            total_size: (28 + sum_total_sizes(ss)) as u32,
        },
        header_data: standard_header_data(),
        sections: ss,
    }
}

impl ANLZ {
    /// Constructs an analysis file from sections, computing the file header sizes.
    pub fn new(sections: Vec<Section>) -> (r: ANLZ)
        requires
            28 + sum_total_sizes(seq_view(sections@)) <= u32::MAX,
        ensures
            r@ == anlz_new_spec(seq_view(sections@)),
    {
        let mut total: u32 = 0;
        let mut i: usize = 0;
        while i < sections.len()
            invariant
                i <= sections.len(),
                28 + sum_total_sizes(seq_view(sections@)) <= u32::MAX,
                total == sum_total_sizes(seq_view(sections@).take(i as int)),
            decreases sections.len() - i,
        {
            proof {
                let ss = seq_view(sections@);
                assert(ss.take(i + 1).drop_last() =~= ss.take(i as int));
                lemma_sum_prefix(ss, i + 1);
            }
            total = total + sections[i].header.total_size;
            i = i + 1;
        }
        assert(seq_view(sections@).take(sections.len() as int) =~= seq_view(sections@));
        let header_data: Vec<u8> = vec![0, 0, 0, 1, 0, 1, 0, 0, 0, 1, 0, 0, 0, 0, 0, 0];
        assert(header_data@ =~= standard_header_data());
        ANLZ {
            header: Header { kind: ContentKind::File, size: 28, total_size: 28 + total },
            header_data,
            sections,
        }
    }

    /// Returns `true` if any section in this file has an unrecognized kind. Such files cannot
    /// be written.
    pub fn has_unknown_sections(&self) -> (r: bool)
        ensures
            r == exists|i: int| 0 <= i < self@.sections.len() && #[trigger] self@.sections[i].content is Unknown,
    {
        let mut i: usize = 0;
        while i < self.sections.len()
            invariant
                i <= self.sections.len(),
                forall|j: int| 0 <= j < i ==> !(#[trigger] self@.sections[j].content is Unknown),
            decreases self.sections.len() - i,
        {
            if let Content::Unknown(_) = self.sections[i].content {
                assert(self@.sections[i as int].content is Unknown);
                return true;
            }
            i = i + 1;
        }
        false
    }
}

proof fn lemma_sum_prefix(ss: Seq<SectionView>, i: int)
    requires
        0 < i <= ss.len(),
    ensures
        sum_total_sizes(ss.take(i)) == sum_total_sizes(ss.take(i - 1)) + ss[i - 1].header.total_size,
        sum_total_sizes(ss.take(i)) <= sum_total_sizes(ss),
    decreases ss.len() - i,
{
    assert(ss.take(i).drop_last() =~= ss.take(i - 1));
    if i < ss.len() {
        lemma_sum_prefix(ss, i + 1);
    } else {
        assert(ss.take(i) =~= ss);
    }
}

impl ANLZ {
    /// A file header with room for its header data, and sections that fill its content.
    pub open spec fn wf(m: ANLZView) -> bool {
        &&& m.header.kind == ContentKind::File
        &&& sizes_ok(m.header)
        &&& m.header_data.len() == m.header.size - 12
        &&& sections_fit(m.sections, 0, content_size(m.header))
    }

    /// Files without unknown sections and whose stored lengths fit can be written.
    pub open spec fn writable(m: ANLZView) -> bool {
        forall|i: int| 0 <= i < m.sections.len() ==> Section::writable(#[trigger] m.sections[i])
    }

    /// The bytes of an analysis file.
    pub open spec fn enc(m: ANLZView) -> Seq<u8> {
        Header::enc(m.header) + m.header_data + enc_seq::<Section>(m.sections)
    }

    /// Decodes an analysis file starting at `p`: a file header, its header data, then sections
    /// while the position is before the end of the content the header announces.
    pub open spec fn parse(b: Seq<u8>, p: int) -> Option<(ANLZView, int)> {
        match Header::parse(b, p) {
            Some((h, q)) => if h.kind == ContentKind::File && sizes_ok(h) && in_bounds(
                b,
                q,
                h.size - 12,
            ) {
                let q2 = q + h.size - 12;
                match sections_from(b, q2, q2 + content_size(h)) {
                    Some((ss, r)) => Some(
                        (ANLZView { header: h, header_data: b.subrange(q, q2), sections: ss }, r),
                    ),
                    None => None,
                }
            } else {
                None
            },
            None => None,
        }
    }

    /// Reading the bytes of a well-formed file gives it back.
    pub proof fn lemma_roundtrip(m: ANLZView, b: Seq<u8>, p: int)
        requires
            ANLZ::wf(m),
            matches_at(b, p, ANLZ::enc(m)),
        ensures
            ANLZ::parse(b, p) == Some((m, p + ANLZ::enc(m).len())),
    {
        lemma_header_len(m.header);
        let e1 = Header::enc(m.header) + m.header_data;
        lemma_matches_split(b, p, e1, enc_seq::<Section>(m.sections));
        lemma_matches_split(b, p, Header::enc(m.header), m.header_data);
        Header::lemma_roundtrip(m.header, b, p);
        let q2 = p + 12 + m.header_data.len();
        lemma_sections_roundtrip(m.sections, b, q2, 0, content_size(m.header));
    }

    /// Reads an analysis file starting at `p`.
    pub fn read(b: &[u8], p: usize) -> (r: Result<(ANLZ, usize), ParseError>)
        ensures
            res_ok(r, ANLZ::parse(b@, p as int)),
    {
        let (header, q) = match Header::read(b, p) {
            Ok(x) => x,
            Err(e) => return Err(e),
        };
        match header.kind {
            ContentKind::File => {},
            _ => return Err(ParseError),
        }
        if header.size < 12 || header.size > header.total_size || q > b.len() {
            return Err(ParseError);
        }
        let n = (header.size - 12) as usize;
        if b.len() - q < n {
            return Err(ParseError);
        }
        let header_data = copy_bytes(b, q, n);
        let start = q + n;
        let end: u128 = start as u128 + (header.total_size - header.size) as u128;
        let (sections, pos) = match read_sections(b, start, end) {
            Ok(x) => x,
            Err(e) => return Err(e),
        };
        Ok((ANLZ { header, header_data, sections }, pos))
    }

    /// Appends the bytes of the file. Files with unknown sections cannot be written.
    pub fn write(&self, out: &mut Vec<u8>)
        requires
            ANLZ::writable(self@),
        ensures
            final(out)@ == old(out)@ + ANLZ::enc(self@),
    {
        self.header.write(out);
        append_bytes(out, self.header_data.as_slice());
        proof {
            assert forall|i: int| 0 <= i < self.sections@.len() implies Section::writable(
                #[trigger] self.sections@[i]@,
            ) by {
                assert(self@.sections[i] == self.sections@[i]@);
            }
        }
        write_vec(&self.sections, out);
        assert(out@ =~= old(out)@ + ANLZ::enc(self@));
    }
}

/// Sections as `Section::new` builds them from content it accepts.
pub open spec fn built_sections(ss: Seq<SectionView>) -> bool {
    forall|i: int|
        0 <= i < ss.len() ==> {
            &&& content_new_ok(#[trigger] ss[i].content)
            &&& section_size(ss[i].content) + content_bytes(ss[i].content) <= u32::MAX
            &&& ss[i] == section_new_spec(ss[i].content)
        }
}

proof fn lemma_sum_nonneg(ss: Seq<SectionView>)
    ensures
        sum_total_sizes(ss) >= 0,
    decreases ss.len(),
{
    if ss.len() > 0 {
        lemma_sum_nonneg(ss.drop_last());
    }
}

proof fn lemma_sum_first(ss: Seq<SectionView>)
    requires
        ss.len() > 0,
    ensures
        sum_total_sizes(ss) == ss[0].header.total_size + sum_total_sizes(ss.drop_first()),
    decreases ss.len(),
{
    if ss.len() == 1 {
        assert(sum_total_sizes(ss.drop_last()) == 0);
        assert(sum_total_sizes(ss.drop_first()) == 0);
        assert(ss.last() == ss[0]);
    } else {
        let init = ss.drop_last();
        let rest = ss.drop_first();
        lemma_sum_first(init);
        assert(init.drop_first() =~= rest.drop_last());
        assert(rest.last() == ss.last());
        assert(init[0] == ss[0]);
        assert(sum_total_sizes(rest) == sum_total_sizes(rest.drop_last()) + rest.last().header.total_size);
    }
}

/// The bytes of built sections are as long as their sizes add up to, and the sections are read
/// back one after another until that length is reached.
proof fn lemma_built_sections(ss: Seq<SectionView>, off: int)
    requires
        built_sections(ss),
    ensures
        enc_seq::<Section>(ss).len() == sum_total_sizes(ss),
        sections_fit(ss, off, off + sum_total_sizes(ss)),
    decreases ss.len(),
{
    if ss.len() > 0 {
        let init = ss.drop_last();
        assert(built_sections(init)) by {
            assert forall|i: int| 0 <= i < init.len() implies {
                &&& content_new_ok(#[trigger] init[i].content)
                &&& section_size(init[i].content) + content_bytes(init[i].content) <= u32::MAX
                &&& init[i] == section_new_spec(init[i].content)
            } by {
                assert(init[i] == ss[i]);
            }
        }
        let rest = ss.drop_first();
        assert(built_sections(rest)) by {
            assert forall|i: int| 0 <= i < rest.len() implies {
                &&& content_new_ok(#[trigger] rest[i].content)
                &&& section_size(rest[i].content) + content_bytes(rest[i].content) <= u32::MAX
                &&& rest[i] == section_new_spec(rest[i].content)
            } by {
                assert(rest[i] == ss[i + 1]);
            }
        }
        assert(content_new_ok(ss[0].content));
        assert(content_new_ok(ss[ss.len() - 1].content));
        lemma_section_new_wf(ss[0].content);
        lemma_section_new_wf(ss.last().content);
        lemma_built_sections(init, off);
        lemma_sum_first(ss);
        lemma_sum_nonneg(rest);
        let t0 = ss[0].header.total_size as int;
        lemma_built_sections(rest, off + t0);
    }
}

impl ANLZ {
    /// A file built by `ANLZ::new` from sections built by `Section::new` is well-formed, its
    /// bytes are exactly as long as its header says, and reading them gives the file back.
    pub proof fn lemma_built_file_roundtrip(ss: Seq<SectionView>, b: Seq<u8>, p: int)
        requires
            built_sections(ss),
            28 + sum_total_sizes(ss) <= u32::MAX,
            matches_at(b, p, ANLZ::enc(anlz_new_spec(ss))),
        ensures
            ANLZ::wf(anlz_new_spec(ss)),
            ANLZ::enc(anlz_new_spec(ss)).len() == anlz_new_spec(ss).header.total_size,
            ANLZ::parse(b, p) == Some(
                (anlz_new_spec(ss), p + anlz_new_spec(ss).header.total_size),
            ),
    {
        let m = anlz_new_spec(ss);
        lemma_sum_nonneg(ss);
        lemma_built_sections(ss, 0);
        lemma_header_len(m.header);
        assert(content_size(m.header) == sum_total_sizes(ss));
        ANLZ::lemma_roundtrip(m, b, p);
    }
}

/// Whether a string of `n` units fits its stored length.
fn wide_fits(n: usize) -> (r: bool)
    ensures
        r == (((n + 1) * 2) <= u32::MAX),
{
    n <= 0x7FFF_FFFE
}

impl Content {
    /// Whether the content can be written: a known kind whose stored lengths fit.
    pub fn is_writable(&self) -> (r: bool)
        ensures
            r == content_writable(self@),
    {
        match self {
            Content::Unknown(_) => false,
            Content::Path(p) => wide_fits(p.path.0.len()),
            Content::ExtendedCueList(x) => {
                let mut i: usize = 0;
                while i < x.cues.len()
                    invariant
                        i <= x.cues.len(),
                        self@ == ContentView::ExtendedCueList(x@),
                        forall|j: int| 0 <= j < i ==> ExtendedCue::writable(#[trigger] x@.cues[j]),
                    decreases x.cues.len() - i,
                {
                    proof {
                        assert(x@.cues[i as int] == x.cues@[i as int]@);
                    }
                    let n = x.cues[i].comment.0.len();
                    if n > 0 && !wide_fits(n) {
                        assert(!ExtendedCue::writable(x@.cues[i as int]));
                        return false;
                    }
                    i = i + 1;
                }
                true
            },
            _ => true,
        }
    }
}

impl ANLZ {
    /// Whether the file can be written: no section has an unknown kind, and every stored
    /// length fits.
    pub fn is_writable(&self) -> (r: bool)
        ensures
            r == ANLZ::writable(self@),
    {
        let mut i: usize = 0;
        while i < self.sections.len()
            invariant
                i <= self.sections.len(),
                forall|j: int| 0 <= j < i ==> Section::writable(#[trigger] self@.sections[j]),
            decreases self.sections.len() - i,
        {
            proof {
                assert(self@.sections[i as int] == self.sections@[i as int]@);
            }
            if !self.sections[i].content.is_writable() {
                return false;
            }
            i = i + 1;
        }
        true
    }
}

} // verus!
