//! Rekordbox analysis files (`ANLZ*.DAT`, `.EXT`, `.2EX`).
//!
//! A file is a sequence of sections; each section consists of a tag, a header and content.
//! All multi-byte numbers are big-endian.

mod kind;

pub use kind::{known_code, kind_of_code, tag_code, ContentKind, Header};
mod cue;

pub use cue::{
    comment_storage_len, enc_comment, lemma_beat_layout, parse_comment, Beat, Cue, CueListType, CueType,
    ExtendedCue, ExtendedCueView,
};
mod columns;

pub use columns::{
    color_detail_value, lemma_color_column_layout, lemma_preview_column_bits, TinyWaveformPreviewColumn, WaveformColorDetailColumn,
    WaveformColorPreviewColumn, WaveformPreviewColumn,
};
mod body;

pub use body::{
    content_size, sizes_ok, wide_storage_len, BeatGrid, BeatGridView, CueList, CueListView,
    ExtendedCueList, ExtendedCueListView, Path, SectionBody, VBRView, VBR,
};
mod wave_body;

pub use wave_body::{
    TinyWaveformPreview, TinyWaveformPreviewView, Unknown, UnknownView, WaveformColorCalibration,
    WaveformColorDetail, WaveformColorDetailView, WaveformColorPreview, WaveformColorPreviewView,
    WaveformDetail, WaveformDetailView, WaveformHighResolutionDetail,
    WaveformHighResolutionPreview, WaveformPreview, WaveformPreviewView,
};
mod song;

pub use song::{
    data_head, enc_data, key_byte, key_data, lemma_data_roundtrip, lemma_phrase_layout, lemma_song_data_layout, lemma_song_encryption, lemma_xor_involution,
    looks_encrypted, parse_data, stored_data, xor_key, Bank, Mood, Phrase, SongStructure,
    SongStructureData, SongStructureDataView, SongStructureView,
};
mod file;

pub use file::{
    anlz_new_spec, content_bytes, content_enc, content_kind, content_new_ok, content_parse,
    content_wf, content_writable, lemma_content_parse_wf, lemma_content_roundtrip,
    lemma_section_new_wf, lemma_sections_roundtrip, section_new_spec, section_size,
    sections_fit, sections_from, standard_header_data, sum_total_sizes, Content, ContentView,
    Section, SectionView, ANLZView, ANLZ,
};
