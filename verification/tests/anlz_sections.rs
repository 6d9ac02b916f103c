use rekordcrate::anlz::{
    Beat, BeatGrid, Content, ContentKind, Cue, CueList, CueListType, CueType, ExtendedCueList,
    Header, Path, Section, TinyWaveformPreview, TinyWaveformPreviewColumn, WaveformColorCalibration,
    WaveformHighResolutionDetail, WaveformHighResolutionPreview, WaveformPreview,
    WaveformPreviewColumn, ANLZ, VBR,
};
use rekordcrate::codec::Codec;
use rekordcrate::wide::NullWideString;

fn test_path() -> Section {
    Section::new(Content::Path(Path::new(NullWideString::from_str("/Contents/Test Track.mp3"))))
}

fn write_file(anlz: &ANLZ) -> Vec<u8> {
    let mut out = Vec::new();
    anlz.write(&mut out);
    out
}

#[test]
fn waveform_color_calibration_roundtrips() {
    let anlz = ANLZ::new(vec![
        test_path(),
        Section::new(Content::WaveformColorCalibration(WaveformColorCalibration::new(80, 100, 100))),
    ]);
    let bytes = write_file(&anlz);
    assert!(
        bytes.windows(20).any(|window| {
            window
                == [
                    b'P', b'W', b'V', b'C', 0x00, 0x00, 0x00, 0x0e, 0x00, 0x00, 0x00, 0x14, 0x00,
                    0x00, 0x00, 0x50, 0x00, 0x64, 0x00, 0x64,
                ]
        }),
        "serialized ANLZ should contain a PWVC section with the expected bytes",
    );
    let (parsed, _) = ANLZ::read(&bytes, 0).unwrap();
    let calibration = parsed
        .sections
        .iter()
        .find_map(|section| match &section.content {
            Content::WaveformColorCalibration(calibration) => Some(calibration),
            _ => None,
        })
        .unwrap();
    assert_eq!((calibration.low_gain, calibration.mid_gain, calibration.high_gain), (80, 100, 100));
}

#[test]
fn waveform_high_resolution_sections_roundtrip() {
    let anlz = ANLZ::new(vec![
        test_path(),
        Section::new(Content::WaveformHighResolutionPreview(WaveformHighResolutionPreview::new(
            vec![[0x01, 0x02, 0x03], [0x10, 0x20, 0x30]],
        ))),
        Section::new(Content::WaveformHighResolutionDetail(WaveformHighResolutionDetail::new(
            vec![[0xaa, 0xbb, 0xcc]],
        ))),
    ]);
    let bytes = write_file(&anlz);
    let (parsed, _) = ANLZ::read(&bytes, 0).unwrap();
    let preview = parsed
        .sections
        .iter()
        .find_map(|section| match &section.content {
            Content::WaveformHighResolutionPreview(preview) => Some(preview),
            _ => None,
        })
        .unwrap();
    assert_eq!(preview.data, vec![[0x01, 0x02, 0x03], [0x10, 0x20, 0x30]]);
    let detail = parsed
        .sections
        .iter()
        .find_map(|section| match &section.content {
            Content::WaveformHighResolutionDetail(detail) => Some(detail),
            _ => None,
        })
        .unwrap();
    assert_eq!(detail.data, vec![[0xaa, 0xbb, 0xcc]]);
}

#[test]
fn built_file_is_as_long_as_its_header_says_and_reads_back() {
    let anlz = ANLZ::new(vec![
        test_path(),
        Section::new(Content::BeatGrid(BeatGrid::new(vec![Beat::new(1, 12800, 0), Beat::new(2, 12800, 469)]))),
        Section::new(Content::CueList(CueList::new(
            CueListType::MemoryCues,
            vec![Cue::new(0, CueType::Point, 1000, 0xFFFF_FFFF, 1, true)],
        ))),
        Section::new(Content::ExtendedCueList(ExtendedCueList::empty(CueListType::HotCues))),
        Section::new(Content::VBR(VBR::new_blank(8))),
    ]);
    let bytes = write_file(&anlz);
    assert_eq!(bytes.len() as u32, anlz.header.total_size);
    assert_eq!(&bytes[0..4], b"PMAI");
    let (parsed, end) = ANLZ::read(&bytes, 0).unwrap();
    assert_eq!(end, bytes.len());
    assert_eq!(parsed, anlz);
}

#[test]
fn file_header_sizes() {
    let anlz = ANLZ::new(vec![test_path()]);
    assert_eq!(anlz.header, Header { kind: ContentKind::File, size: 28, total_size: 28 + 16 + 50 });
    assert_eq!(anlz.header_data, vec![0, 0, 0, 1, 0, 1, 0, 0, 0, 1, 0, 0, 0, 0, 0, 0]);
}

#[test]
fn section_sizes_follow_the_content() {
    let s = Section::new(Content::WaveformPreview(WaveformPreview::new(vec![WaveformPreviewColumn::new(); 400])));
    assert_eq!((s.header.size, s.header.total_size), (20, 420));
    let s = Section::new(Content::TinyWaveformPreview(TinyWaveformPreview::new(vec![TinyWaveformPreviewColumn::new(); 100])));
    assert_eq!((s.header.size, s.header.total_size), (20, 120));
    let s = Section::new(Content::WaveformColorCalibration(WaveformColorCalibration::new(1, 2, 3)));
    assert_eq!((s.header.size, s.header.total_size), (14, 20));
    assert_eq!(s.content.kind(), ContentKind::WaveformColorCalibration);
}

#[test]
fn cue_new_orders() {
    let first = Cue::new(1, CueType::Loop, 500, 900, 1, false);
    assert_eq!(first.order_first, 0xFFFF);
    assert_eq!(first.order_last, 1);
    assert_eq!(first.status, 4);
    assert_eq!(first.header, Header { kind: ContentKind::Cue, size: 28, total_size: 56 });
    let third = Cue::new(0, CueType::Point, 500, 0, 3, true);
    assert_eq!(third.order_first, 1);
    assert_eq!(third.order_last, 0xFFFF);
    assert_eq!(third.status, 0);
}

#[test]
fn truncated_file_is_refused() {
    let anlz = ANLZ::new(vec![test_path()]);
    let bytes = write_file(&anlz);
    assert!(ANLZ::read(&bytes[..bytes.len() - 1], 0).is_err());
    assert!(ANLZ::read(&[], 0).is_err());
}

#[test]
fn header_codec_roundtrip() {
    let h = Header { kind: ContentKind::Path, size: 16, total_size: 66 };
    let mut out = Vec::new();
    h.write(&mut out);
    assert_eq!(out, vec![b'P', b'P', b'T', b'H', 0, 0, 0, 16, 0, 0, 0, 66]);
    let (back, end) = Header::read(&out, 0).unwrap();
    assert_eq!((back, end), (h, 12));
}

#[test]
fn preview_column_bits() {
    let c = WaveformPreviewColumn::new().with_height(31).with_whiteness(5);
    assert_eq!((c.height(), c.whiteness()), (31, 5));
    assert_eq!(c.into_bytes(), [5 * 32 + 31]);
}

#[test]
fn constructors_use_the_observed_constants() {
    assert_eq!(BeatGrid::new(vec![]).unknown2, 0x0080_0000);
    assert_eq!(WaveformPreview::new(vec![]).unknown, 0x0010_0000);
    assert_eq!(TinyWaveformPreview::new(vec![]).unknown, 0x0010_0000);
}
