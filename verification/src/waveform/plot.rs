//! The waveform plots that the preview sections of analysis files give.
use super::color::{blue_color, blue_text, hex_digits, rgb_color, rgb_text};
use crate::anlz::{
    Content, ContentView, Section, SectionView, TinyWaveformPreview, WaveformColorPreview,
    WaveformColorPreviewColumn,
    WaveformHighResolutionPreview, WaveformPreview, ANLZView, ANLZ,
};
use crate::codec::seq_view;
use vstd::prelude::*;

verus! {

/// One waveform to draw: a label, column heights on a scale up to `maximum`, and per-column
/// colors or per-column band heights where the section has them.
#[derive(Debug)]
pub struct Plot {
    /// The section tag the plot was made from.
    pub label: &'static str,
    /// The height of each column.
    pub heights: Vec<u16>,
    /// The height that fills the plot.
    pub maximum: u16,
    /// The fill color of each column, as `#rrggbb` text.
    pub colors: Option<Vec<String>>,
    /// The low, mid and high band height of each column.
    pub bands: Option<(Vec<u16>, Vec<u16>, Vec<u16>)>,
    /// Whether columns grow up from the bottom rather than out from the middle.
    pub bottom_aligned: bool,
}

/// The model of a plot.
pub struct PlotView {
    pub label: Seq<char>,
    pub heights: Seq<u16>,
    pub maximum: u16,
    pub colors: Option<Seq<Seq<char>>>,
    pub bands: Option<(Seq<u16>, Seq<u16>, Seq<u16>)>,
    pub bottom_aligned: bool,
}

/// The texts of strings.
pub open spec fn texts(v: Seq<String>) -> Seq<Seq<char>> {
    v.map_values(|s: String| s@)
}

impl View for Plot {
    type V = PlotView;

    open spec fn view(&self) -> PlotView {
        PlotView {
            label: self.label@,
            heights: self.heights@,
            maximum: self.maximum,
            colors: match self.colors {
                Some(c) => Some(texts(c@)),
                None => None,
            },
            bands: match self.bands {
                Some((l, m, h)) => Some((l@, m@, h@)),
                None => None,
            },
            bottom_aligned: self.bottom_aligned,
        }
    }
}

/// The largest value of a non-empty sequence.
pub open spec fn seq_max(s: Seq<u16>) -> u16
    decreases s.len(),
{
    if s.len() <= 1 {
        s[0]
    } else if seq_max(s.drop_last()) >= s.last() {
        seq_max(s.drop_last())
    } else {
        s.last()
    }
}

/// The largest value, or 1 for no values.
pub open spec fn max_or_one(s: Seq<u16>) -> u16 {
    if s.len() == 0 {
        1
    } else {
        seq_max(s)
    }
}

/// The sum of three energies.
pub open spec fn energy_sum(low: u8, mid: u8, high: u8) -> u16 {
    (low + mid + high) as u16
}

/// The plot of a monochrome preview (`PWAV`): five-bit heights colored by their whiteness.
pub open spec fn preview_plot(data: Seq<u8>) -> PlotView {
    PlotView {
        label: "PWAV"@,
        heights: data.map_values(|b: u8| (b % 32) as u16),
        maximum: 31,
        colors: Some(data.map_values(|b: u8| blue_text(b / 32))),
        bands: None,
        bottom_aligned: true,
    }
}

/// The plot of a tiny preview (`PWV2`): four-bit heights in one color.
pub open spec fn tiny_preview_plot(data: Seq<u8>) -> PlotView {
    PlotView {
        label: "PWV2"@,
        heights: data.map_values(|b: u8| (b / 16) as u16),
        maximum: 15,
        colors: None,
        bands: None,
        bottom_aligned: true,
    }
}

/// The height of a colored preview column: the sum of its three band energies.
pub open spec fn column_sum(c: WaveformColorPreviewColumn) -> u16 {
    energy_sum(c.energy_bottom_third_freq, c.energy_mid_third_freq, c.energy_top_third_freq)
}

/// The color of a colored preview column.
pub open spec fn column_color(c: WaveformColorPreviewColumn) -> Seq<char> {
    rgb_text(c.energy_bottom_third_freq, c.energy_mid_third_freq, c.energy_top_third_freq)
}

/// The colors of a colored preview (`PWV4`): each column is drawn in `#rrggbb`, where red,
/// green and blue are the top-, mid- and bottom-third energies scaled so that they add up to
/// about 255 (`(e * 255 + t / 2) / t` for total energy `t`), and a silent column is black; its
/// height is the total energy.
pub proof fn lemma_color_preview_colors(data: Seq<WaveformColorPreviewColumn>, i: int)
    requires
        0 <= i < data.len(),
    ensures
        ({
            let c = data[i];
            let low = c.energy_bottom_third_freq as int;
            let mid = c.energy_mid_third_freq as int;
            let high = c.energy_top_third_freq as int;
            let t = low + mid + high;
            let red = if t == 0 { 0 } else { (high * 255 + t / 2) / t };
            let green = if t == 0 { 0 } else { (mid * 255 + t / 2) / t };
            let blue = if t == 0 { 0 } else { (low * 255 + t / 2) / t };
            let hex = seq!['0', '1', '2', '3', '4', '5', '6', '7', '8', '9', 'a', 'b', 'c', 'd', 'e', 'f'];
            let plot = color_preview_plot(data);
            &&& plot.heights.len() == data.len()
            &&& plot.heights[i] == t
            &&& plot.colors matches Some(cs) && cs.len() == data.len() && cs[i] == seq![
                '#',
                hex[red / 16],
                hex[red % 16],
                hex[green / 16],
                hex[green % 16],
                hex[blue / 16],
                hex[blue % 16],
            ]
        }),
{
    let c = data[i];
    let low = c.energy_bottom_third_freq as int;
    let mid = c.energy_mid_third_freq as int;
    let high = c.energy_top_third_freq as int;
    let t = low + mid + high;
    if t > 0 {
        assert((high * 255 + t / 2) / t <= 255) by (nonlinear_arith)
            requires 0 <= high <= t, t > 0;
        assert((mid * 255 + t / 2) / t <= 255) by (nonlinear_arith)
            requires 0 <= mid <= t, t > 0;
        assert((low * 255 + t / 2) / t <= 255) by (nonlinear_arith)
            requires 0 <= low <= t, t > 0;
        assert((high * 255 + t / 2) / t >= 0) by (nonlinear_arith)
            requires 0 <= high <= t, t > 0;
        assert((mid * 255 + t / 2) / t >= 0) by (nonlinear_arith)
            requires 0 <= mid <= t, t > 0;
        assert((low * 255 + t / 2) / t >= 0) by (nonlinear_arith)
            requires 0 <= low <= t, t > 0;
    }
    let plot = color_preview_plot(data);
    let cs = data.map_values(|c: WaveformColorPreviewColumn| column_color(c));
    assert(cs[i] == column_color(c));
    assert(column_color(c) =~= seq![
        '#',
        hex_digits()[(if t == 0 { 0 } else { (high * 255 + t / 2) / t }) / 16],
        hex_digits()[(if t == 0 { 0 } else { (high * 255 + t / 2) / t }) % 16],
        hex_digits()[(if t == 0 { 0 } else { (mid * 255 + t / 2) / t }) / 16],
        hex_digits()[(if t == 0 { 0 } else { (mid * 255 + t / 2) / t }) % 16],
        hex_digits()[(if t == 0 { 0 } else { (low * 255 + t / 2) / t }) / 16],
        hex_digits()[(if t == 0 { 0 } else { (low * 255 + t / 2) / t }) % 16],
    ]);
}

/// The plot of a colored preview (`PWV4`): the sum of the three band energies as height,
/// colored by the energies.
pub open spec fn color_preview_plot(data: Seq<WaveformColorPreviewColumn>) -> PlotView {
    let sums = data.map_values(|c: WaveformColorPreviewColumn| column_sum(c));
    PlotView {
        label: "PWV4"@,
        heights: sums,
        maximum: max_or_one(sums),
        colors: Some(data.map_values(|c: WaveformColorPreviewColumn| column_color(c))),
        bands: None,
        bottom_aligned: true,
    }
}

/// The plot of a three-band preview (`PWV6`): each entry holds the low, mid and high band
/// heights; the column height is their sum.
pub open spec fn band_preview_plot(data: Seq<Seq<u8>>) -> PlotView {
    let sums = data.map_values(|e: Seq<u8>| energy_sum(e[0], e[1], e[2]));
    PlotView {
        label: "PWV6"@,
        heights: sums,
        maximum: max_or_one(sums),
        colors: None,
        bands: Some(
            (
                data.map_values(|e: Seq<u8>| e[0] as u16),
                data.map_values(|e: Seq<u8>| e[1] as u16),
                data.map_values(|e: Seq<u8>| e[2] as u16),
            ),
        ),
        bottom_aligned: true,
    }
}

/// The plot of a section's content, for the preview kinds that have one.
pub open spec fn plot_of(c: ContentView) -> Option<PlotView> {
    match c {
        ContentView::WaveformPreview(x) => Some(preview_plot(x.data)),
        ContentView::TinyWaveformPreview(x) => Some(tiny_preview_plot(x.data)),
        ContentView::WaveformColorPreview(x) => Some(color_preview_plot(x.data)),
        ContentView::WaveformHighResolutionPreview(x) => Some(band_preview_plot(x)),
        _ => None,
    }
}

/// The plots of sections, in order.
pub open spec fn plots_of_sections(ss: Seq<SectionView>) -> Seq<PlotView>
    decreases ss.len(),
{
    if ss.len() == 0 {
        Seq::empty()
    } else {
        plots_of_sections(ss.drop_last()) + match plot_of(ss.last().content) {
            Some(p) => seq![p],
            None => Seq::empty(),
        }
    }
}

/// The plots of files, in order.
pub open spec fn plots_of_files(fs: Seq<ANLZView>) -> Seq<PlotView>
    decreases fs.len(),
{
    if fs.len() == 0 {
        Seq::empty()
    } else {
        plots_of_files(fs.drop_last()) + plots_of_sections(fs.last().sections)
    }
}

/// The models of borrowed files.
pub open spec fn file_views(anlzs: Seq<&ANLZ>) -> Seq<ANLZView> {
    anlzs.map_values(|a: &ANLZ| a@)
}

fn preview_plot_of(p: &WaveformPreview) -> (r: Plot)
    ensures
        r@ == preview_plot(p@.data),
{
    let mut heights: Vec<u16> = Vec::new();
    let mut colors: Vec<String> = Vec::new();
    let mut i: usize = 0;
    while i < p.data.len()
        invariant
            i <= p.data.len(),
            heights@ == p@.data.take(i as int).map_values(|b: u8| (b % 32) as u16),
            texts(colors@) == p@.data.take(i as int).map_values(|b: u8| blue_text(b / 32)),
        decreases p.data.len() - i,
    {
        let column = p.data[i];
        proof {
            assert(p@.data[i as int] == column@);
        }
        heights.push(column.height() as u16);
        let ghost before = colors@;
        let c = blue_color(column.whiteness());
        colors.push(c);
        proof {
            assert(texts(colors@) =~= texts(before).push(c@));
            assert(p@.data.take(i + 1) =~= p@.data.take(i as int).push(column@));
            assert(heights@ =~= p@.data.take(i + 1).map_values(|b: u8| (b % 32) as u16));
            assert(texts(colors@) =~= p@.data.take(i + 1).map_values(|b: u8| blue_text(b / 32)));
        }
        i = i + 1;
    }
    proof {
        assert(p@.data.take(i as int) =~= p@.data);
    }
    let label = "PWAV";
    Plot { label, heights, maximum: 31, colors: Some(colors), bands: None, bottom_aligned: true }
}

fn tiny_preview_plot_of(p: &TinyWaveformPreview) -> (r: Plot)
    ensures
        r@ == tiny_preview_plot(p@.data),
{
    let mut heights: Vec<u16> = Vec::new();
    let mut i: usize = 0;
    while i < p.data.len()
        invariant
            i <= p.data.len(),
            heights@ == p@.data.take(i as int).map_values(|b: u8| (b / 16) as u16),
        decreases p.data.len() - i,
    {
        let column = p.data[i];
        proof {
            assert(p@.data[i as int] == column@);
        }
        heights.push(column.height() as u16);
        proof {
            assert(p@.data.take(i + 1) =~= p@.data.take(i as int).push(column@));
            assert(heights@ =~= p@.data.take(i + 1).map_values(|b: u8| (b / 16) as u16));
        }
        i = i + 1;
    }
    proof {
        assert(p@.data.take(i as int) =~= p@.data);
    }
    let label = "PWV2";
    Plot { label, heights, maximum: 15, colors: None, bands: None, bottom_aligned: true }
}

proof fn lemma_seq_max_push(s: Seq<u16>, x: u16)
    requires
        s.len() > 0,
    ensures
        seq_max(s.push(x)) == if seq_max(s) >= x {
            seq_max(s)
        } else {
            x
        },
{
    assert(s.push(x).drop_last() =~= s);
}

/// The largest value, or 1 for no values.
fn max_or_one_of(v: &Vec<u16>) -> (r: u16)
    ensures
        r == max_or_one(v@),
{
    if v.len() == 0 {
        return 1;
    }
    let mut m = v[0];
    let mut i: usize = 1;
    proof {
        assert(v@.take(1) =~= seq![v@[0]]);
    }
    while i < v.len()
        invariant
            1 <= i <= v.len(),
            m == seq_max(v@.take(i as int)),
        decreases v.len() - i,
    {
        proof {
            assert(v@.take(i + 1) =~= v@.take(i as int).push(v@[i as int]));
            lemma_seq_max_push(v@.take(i as int), v@[i as int]);
        }
        if v[i] > m {
            m = v[i];
        }
        i = i + 1;
    }
    proof {
        assert(v@.take(i as int) =~= v@);
    }
    m
}

fn color_preview_plot_of(p: &WaveformColorPreview) -> (r: Plot)
    ensures
        r@ == color_preview_plot(p@.data),
{
    let ghost data = p@.data;
    let mut heights: Vec<u16> = Vec::new();
    let mut colors: Vec<String> = Vec::new();
    let mut i: usize = 0;
    while i < p.data.len()
        invariant
            i <= p.data.len(),
            data == p@.data,
            heights@ == data.take(i as int).map_values(|c: WaveformColorPreviewColumn| column_sum(c)),
            texts(colors@) == data.take(i as int).map_values(|c: WaveformColorPreviewColumn| column_color(c)),
        decreases p.data.len() - i,
    {
        let column = p.data[i];
        proof {
            assert(data[i as int] == column);
        }
        heights.push(
            column.energy_bottom_third_freq as u16 + column.energy_mid_third_freq as u16
                + column.energy_top_third_freq as u16,
        );
        let ghost before = colors@;
        let c = rgb_color(
            column.energy_bottom_third_freq,
            column.energy_mid_third_freq,
            column.energy_top_third_freq,
        );
        colors.push(c);
        proof {
            assert(texts(colors@) =~= texts(before).push(c@));
            assert(data.take(i + 1) =~= data.take(i as int).push(column));
            assert(heights@ =~= data.take(i + 1).map_values(|c: WaveformColorPreviewColumn| column_sum(c)));
            assert(texts(colors@) =~= data.take(i + 1).map_values(|c: WaveformColorPreviewColumn| column_color(c)));
        }
        i = i + 1;
    }
    proof {
        assert(data.take(i as int) =~= data);
    }
    let maximum = max_or_one_of(&heights);
    let label = "PWV4";
    Plot { label, heights, maximum, colors: Some(colors), bands: None, bottom_aligned: true }
}

fn band_preview_plot_of(p: &WaveformHighResolutionPreview) -> (r: Plot)
    ensures
        r@ == band_preview_plot(p@),
{
    let ghost data = p@;
    let mut heights: Vec<u16> = Vec::new();
    let mut low: Vec<u16> = Vec::new();
    let mut mid: Vec<u16> = Vec::new();
    let mut high: Vec<u16> = Vec::new();
    let mut i: usize = 0;
    while i < p.data.len()
        invariant
            i <= p.data.len(),
            data == p@,
            heights@ == data.take(i as int).map_values(|e: Seq<u8>| energy_sum(e[0], e[1], e[2])),
            low@ == data.take(i as int).map_values(|e: Seq<u8>| e[0] as u16),
            mid@ == data.take(i as int).map_values(|e: Seq<u8>| e[1] as u16),
            high@ == data.take(i as int).map_values(|e: Seq<u8>| e[2] as u16),
        decreases p.data.len() - i,
    {
        let entry = p.data[i];
        proof {
            assert(data[i as int] == entry@);
        }
        heights.push(entry[0] as u16 + entry[1] as u16 + entry[2] as u16);
        low.push(entry[0] as u16);
        mid.push(entry[1] as u16);
        high.push(entry[2] as u16);
        proof {
            assert(data.take(i + 1) =~= data.take(i as int).push(entry@));
            assert(heights@ =~= data.take(i + 1).map_values(
                |e: Seq<u8>| energy_sum(e[0], e[1], e[2]),
            ));
            assert(low@ =~= data.take(i + 1).map_values(|e: Seq<u8>| e[0] as u16));
            assert(mid@ =~= data.take(i + 1).map_values(|e: Seq<u8>| e[1] as u16));
            assert(high@ =~= data.take(i + 1).map_values(|e: Seq<u8>| e[2] as u16));
        }
        i = i + 1;
    }
    proof {
        assert(data.take(i as int) =~= data);
    }
    let maximum = max_or_one_of(&heights);
    let label = "PWV6";
    Plot {
        label,
        heights,
        maximum,
        colors: None,
        bands: Some((low, mid, high)),
        bottom_aligned: true,
    }
}

/// The plot of a section's content, for the preview kinds that have one.
pub fn plot_of_content(c: &Content) -> (r: Option<Plot>)
    ensures
        match r {
            Some(p) => plot_of(c@) == Some(p@),
            None => plot_of(c@) is None,
        },
{
    match c {
        Content::WaveformPreview(x) => Some(preview_plot_of(x)),
        Content::TinyWaveformPreview(x) => Some(tiny_preview_plot_of(x)),
        Content::WaveformColorPreview(x) => Some(color_preview_plot_of(x)),
        Content::WaveformHighResolutionPreview(x) => Some(band_preview_plot_of(x)),
        _ => None,
    }
}

proof fn lemma_plots_of_sections_push(ss: Seq<SectionView>, s: SectionView)
    ensures
        plots_of_sections(ss.push(s)) == plots_of_sections(ss) + match plot_of(s.content) {
            Some(p) => seq![p],
            None => Seq::empty(),
        },
{
    assert(ss.push(s).drop_last() =~= ss);
}

proof fn lemma_plots_of_files_push(fs: Seq<ANLZView>, f: ANLZView)
    ensures
        plots_of_files(fs.push(f)) == plots_of_files(fs) + plots_of_sections(f.sections),
{
    assert(fs.push(f).drop_last() =~= fs);
}

/// Appends the plots of a file's sections, in order.
fn push_plots_of_file(anlz: &ANLZ, plots: &mut Vec<Plot>)
    ensures
        seq_view(final(plots)@) == seq_view(old(plots)@) + plots_of_sections(anlz@.sections),
{
    let mut i: usize = 0;
    let ghost start = seq_view(plots@);
    while i < anlz.sections.len()
        invariant
            i <= anlz.sections.len(),
            start == seq_view(old(plots)@),
            seq_view(plots@) == start + plots_of_sections(anlz@.sections.take(i as int)),
        decreases anlz.sections.len() - i,
    {
        proof {
            assert(anlz@.sections.take(i + 1) =~= anlz@.sections.take(i as int).push(
                anlz@.sections[i as int],
            ));
            lemma_plots_of_sections_push(anlz@.sections.take(i as int), anlz@.sections[i as int]);
            assert(anlz@.sections[i as int] == anlz.sections@[i as int]@);
        }
        match plot_of_content(&anlz.sections[i].content) {
            Some(p) => {
                let ghost before = plots@;
                plots.push(p);
                proof {
                    assert(seq_view(plots@) =~= seq_view(before).push(p@));
                }
            },
            None => {},
        }
        proof {
            assert(seq_view(plots@) =~= start + plots_of_sections(anlz@.sections.take(i + 1)));
        }
        i = i + 1;
    }
    proof {
        assert(anlz@.sections.take(i as int) =~= anlz@.sections);
    }
}

/// The plots of the preview sections of the files, in file order and section order.
pub fn plots_of_anlzs(anlzs: &[&ANLZ]) -> (r: Vec<Plot>)
    ensures
        seq_view(r@) == plots_of_files(file_views(anlzs@)),
{
    let mut plots: Vec<Plot> = Vec::new();
    let mut i: usize = 0;
    while i < anlzs.len()
        invariant
            i <= anlzs.len(),
            seq_view(plots@) == plots_of_files(file_views(anlzs@).take(i as int)),
        decreases anlzs.len() - i,
    {
        proof {
            assert(file_views(anlzs@).take(i + 1) =~= file_views(anlzs@).take(i as int).push(
                anlzs@[i as int]@,
            ));
            lemma_plots_of_files_push(file_views(anlzs@).take(i as int), anlzs@[i as int]@);
        }
        push_plots_of_file(anlzs[i], &mut plots);
        i = i + 1;
    }
    proof {
        assert(file_views(anlzs@).take(i as int) =~= file_views(anlzs@));
    }
    plots
}

} // verus!
