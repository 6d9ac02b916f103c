use rekordcrate::anlz::{
    Content, Section, TinyWaveformPreview, TinyWaveformPreviewColumn, WaveformColorPreview,
    WaveformColorPreviewColumn, WaveformHighResolutionPreview, WaveformPreview,
    WaveformPreviewColumn, ANLZ,
};
use rekordcrate::waveform::{blue_color, plots_of_anlzs, rgb_color, RenderError, WaveformRenderer};

#[test]
fn renders_columns_as_svg() {
    let columns = [
        WaveformPreviewColumn::new().with_height(0),
        WaveformPreviewColumn::new().with_height(31),
        WaveformPreviewColumn::new().with_height(0),
    ];
    let renderer = WaveformRenderer::default();
    let layout = renderer.layout_columns(&columns).expect("columns should render");
    assert_eq!((layout.plot_width, layout.total_height), (45, 144));
    assert_eq!(layout.plots.len(), 1);
    assert_eq!(layout.plots[0].heights, vec![0, 31, 0]);
    assert!(layout.plots[0].colors.is_none());
    assert!(!layout.plots[0].bottom_aligned);
    assert_eq!(renderer.color, "#2563eb");
}

#[test]
fn default_renderer_settings() {
    let r = WaveformRenderer::new();
    assert_eq!(r.height, 144);
    assert_eq!(r.color, "#2563eb");
    assert_eq!(r.background, "#05070c");
}

#[test]
fn blue_color_brightens_with_whiteness() {
    assert_eq!(blue_color(0), "#2563eb");
    assert_eq!(blue_color(7), "#ffffff");
    assert_eq!(blue_color(200), "#ffffff");
    // 0x25 + ((0xff - 0x25) * 1 + 3) / 7 = 37 + 31 = 68 = 0x44.
    assert_eq!(blue_color(1), "#4479ee");
}

#[test]
fn rgb_color_normalizes_energy() {
    assert_eq!(rgb_color(0, 0, 0), "#000000");
    assert_eq!(rgb_color(10, 0, 0), "#0000ff");
    assert_eq!(rgb_color(0, 0, 10), "#ff0000");
    // Each channel is a third: (85 * 255 + 127) / 255 = 85.
    assert_eq!(rgb_color(85, 85, 85), "#555555");
}

#[test]
fn no_columns_is_an_error() {
    let renderer = WaveformRenderer::default();
    assert_eq!(renderer.layout_columns(&[]).err(), Some(RenderError::NoColumns));
}

#[test]
fn file_without_previews_is_an_error() {
    let anlz = ANLZ::new(vec![]);
    let renderer = WaveformRenderer::default();
    assert_eq!(renderer.layout_anlz(&anlz).err(), Some(RenderError::NoWaveformSections));
}

#[test]
fn plots_come_in_section_order_and_stack() {
    let color_column = WaveformColorPreviewColumn {
        unknown1: 0,
        unknown2: 0,
        energy_bottom_half_freq: 0,
        energy_bottom_third_freq: 10,
        energy_mid_third_freq: 20,
        energy_top_third_freq: 30,
    };
    let anlz = ANLZ::new(vec![
        Section::new(Content::WaveformPreview(WaveformPreview::new(vec![
            WaveformPreviewColumn::new().with_height(10).with_whiteness(7),
        ]))),
        Section::new(Content::TinyWaveformPreview(TinyWaveformPreview::new(vec![
            TinyWaveformPreviewColumn::new().with_height(15),
            TinyWaveformPreviewColumn::new().with_height(3),
        ]))),
        Section::new(Content::WaveformColorPreview(WaveformColorPreview::new(vec![color_column], 0))),
        Section::new(Content::WaveformHighResolutionPreview(WaveformHighResolutionPreview::new(vec![
            [1, 2, 3],
            [4, 5, 6],
            [0, 0, 0],
        ]))),
    ]);
    let plots = plots_of_anlzs(&[&anlz]);
    let labels: Vec<&str> = plots.iter().map(|p| p.label).collect();
    assert_eq!(labels, vec!["PWAV", "PWV2", "PWV4", "PWV6"]);
    assert_eq!(plots[0].heights, vec![10]);
    assert_eq!(plots[0].maximum, 31);
    assert_eq!(plots[0].colors, Some(vec!["#ffffff".to_string()]));
    assert_eq!(plots[1].heights, vec![15, 3]);
    assert_eq!(plots[1].maximum, 15);
    assert_eq!(plots[2].heights, vec![60]);
    assert_eq!(plots[2].maximum, 60);
    assert_eq!(plots[3].heights, vec![6, 15, 0]);
    assert_eq!(plots[3].maximum, 15);
    assert_eq!(plots[3].bands, Some((vec![1, 4, 0], vec![2, 5, 0], vec![3, 6, 0])));

    let renderer = WaveformRenderer { height: 100, ..WaveformRenderer::default() };
    let layout = renderer.layout_anlzs(&[&anlz]).unwrap();
    assert_eq!(layout.width, 3);
    assert_eq!(layout.plot_width, 45);
    assert_eq!(layout.total_height, 400);
    assert_eq!(layout.tops, vec![0, 100, 200, 300]);
    assert_eq!(layout.label_ys, vec![55, 155, 255, 355]);
}

#[test]
fn zero_height_counts_as_one() {
    let renderer = WaveformRenderer { height: 0, ..WaveformRenderer::default() };
    let layout = renderer.layout_columns(&[WaveformPreviewColumn::new()]).unwrap();
    assert_eq!(layout.height, 1);
    assert_eq!(layout.total_height, 1);
}

#[test]
fn too_tall_is_an_error() {
    let anlz = ANLZ::new(vec![
        Section::new(Content::WaveformPreview(WaveformPreview::new(vec![WaveformPreviewColumn::new()]))),
        Section::new(Content::WaveformPreview(WaveformPreview::new(vec![WaveformPreviewColumn::new()]))),
    ]);
    let renderer = WaveformRenderer { height: u32::MAX, ..WaveformRenderer::default() };
    assert_eq!(renderer.layout_anlz(&anlz).err(), Some(RenderError::TooTall));
}

#[test]
fn one_file_lays_out_as_a_list_of_it() {
    let anlz = ANLZ::new(vec![
        Section::new(Content::WaveformPreview(WaveformPreview::new(vec![
            WaveformPreviewColumn::new().with_height(20).with_whiteness(3),
            WaveformPreviewColumn::new().with_height(5),
        ]))),
        Section::new(Content::TinyWaveformPreview(TinyWaveformPreview::new(vec![
            TinyWaveformPreviewColumn::new().with_height(9),
        ]))),
    ]);
    let renderer = WaveformRenderer { height: 50, ..WaveformRenderer::default() };
    let one = renderer.layout_anlz(&anlz).unwrap();
    let list = renderer.layout_anlzs(&[&anlz]).unwrap();
    assert_eq!(one.tops, list.tops);
    assert_eq!(one.label_ys, list.label_ys);
    assert_eq!(one.total_height, list.total_height);
    assert_eq!(one.plot_width, list.plot_width);
    let labels = |l: &rekordcrate::waveform::WaveformLayout| l.plots.iter().map(|p| (p.label, p.heights.clone())).collect::<Vec<_>>();
    assert_eq!(labels(&one), labels(&list));
    let empty = ANLZ::new(vec![]);
    assert_eq!(renderer.layout_anlz(&empty).err(), renderer.layout_anlzs(&[&empty]).err());
}
