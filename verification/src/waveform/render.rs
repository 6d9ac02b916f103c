//! The renderer settings and the placement of plots in the document.
use super::plot::{file_views, plots_of_anlzs, plots_of_files, Plot, PlotView};
use crate::anlz::{WaveformPreviewColumn, ANLZ};
use crate::codec::seq_view;
use vstd::prelude::*;
use vstd::string::*;

verus! {

/// Why a waveform document cannot be made.
#[derive(Debug, Clone, Copy, PartialEq, Eq, Structural)]
pub enum RenderError {
    /// None of the files has a supported waveform preview section.
    NoWaveformSections,
    /// The plots have no columns at all.
    NoColumns,
    /// The widest plot has more columns than a document can be wide.
    TooManyColumns,
    /// The plots stacked on top of each other are taller than a document can be.
    TooTall,
}

/// Renders supported waveform sections: the plot height and the colors of the document.
#[derive(Debug, Clone)]
pub struct WaveformRenderer {
    /// Height of each waveform plot in document units.
    pub height: u32,
    /// Fill color for monochrome waveforms.
    pub color: String,
    /// Background color for the document.
    pub background: String,
}

impl Default for WaveformRenderer {
    fn default() -> (r: Self)
        ensures
            r.height == 144,
            r.color@ == "#2563eb"@,
            r.background@ == "#05070c"@,
    {
        WaveformRenderer {
            height: 144,
            color: String::from_str("#2563eb"),
            background: String::from_str("#05070c"),
        }
    }
}

/// The width left of the plots for their labels.
pub const LABEL_WIDTH: u32 = 42;

/// Where the plots go in the document.
#[derive(Debug)]
pub struct WaveformLayout {
    /// The plots, top to bottom.
    pub plots: Vec<Plot>,
    /// The height of each plot.
    pub height: u32,
    /// The width of the plot area: the column count of the widest plot.
    pub width: u32,
    /// The width left of the plots for their labels.
    pub label_width: u32,
    /// The width of the document.
    pub plot_width: u32,
    /// The height of the document.
    pub total_height: u32,
    /// The top edge of each plot.
    pub tops: Vec<u32>,
    /// The baseline of each plot's label.
    pub label_ys: Vec<u64>,
}

/// The column count of the widest plot, or 0 for no plots.
pub open spec fn max_columns(ps: Seq<PlotView>) -> nat
    decreases ps.len(),
{
    if ps.len() == 0 {
        0
    } else {
        let rest = max_columns(ps.drop_last());
        if rest >= ps.last().heights.len() {
            rest
        } else {
            ps.last().heights.len()
        }
    }
}

/// The plot height in use: the renderer's, but at least 1.
pub open spec fn plot_height(height: u32) -> int {
    if height >= 1 {
        height as int
    } else {
        1
    }
}

/// Widths at which the document width cannot be computed.
pub open spec fn width_overflows(width: nat) -> bool {
    u32::MAX - LABEL_WIDTH < width <= u32::MAX
}

/// A count or position as a 32-bit number, or 0 where it does not fit.
pub open spec fn as_u32_or_zero(i: int) -> int {
    if i <= u32::MAX {
        i
    } else {
        0
    }
}

/// The outcome of laying out plots: the first failing check, else the placement.
pub open spec fn layout_result(height: u32, ps: Seq<PlotView>) -> Result<LayoutView, RenderError> {
    let h = plot_height(height);
    let w = max_columns(ps);
    if w > u32::MAX {
        Err(RenderError::TooManyColumns)
    } else if w == 0 {
        Err(RenderError::NoColumns)
    } else if h * as_u32_or_zero(ps.len() as int) > u32::MAX {
        Err(RenderError::TooTall)
    } else {
        Ok(
            LayoutView {
                plots: ps,
                height: h,
                width: w as int,
                label_width: LABEL_WIDTH as int,
                plot_width: w + LABEL_WIDTH,
                total_height: h * as_u32_or_zero(ps.len() as int),
                tops: Seq::new(ps.len(), |i: int| h * as_u32_or_zero(i)),
                label_ys: Seq::new(ps.len(), |i: int| h * as_u32_or_zero(i) + h / 2 + 5),
            },
        )
    }
}

/// The model of a layout.
pub struct LayoutView {
    pub plots: Seq<PlotView>,
    pub height: int,
    pub width: int,
    pub label_width: int,
    pub plot_width: int,
    pub total_height: int,
    pub tops: Seq<int>,
    pub label_ys: Seq<int>,
}

impl View for WaveformLayout {
    type V = LayoutView;

    open spec fn view(&self) -> LayoutView {
        LayoutView {
            plots: seq_view(self.plots@),
            height: self.height as int,
            width: self.width as int,
            label_width: self.label_width as int,
            plot_width: self.plot_width as int,
            total_height: self.total_height as int,
            tops: self.tops@.map_values(|t: u32| t as int),
            label_ys: self.label_ys@.map_values(|y: u64| y as int),
        }
    }
}

/// A layout result agrees with its model.
pub open spec fn layout_matches(r: Result<WaveformLayout, RenderError>, m: Result<LayoutView, RenderError>) -> bool {
    match m {
        Ok(v) => r matches Ok(l) && l@ == v,
        Err(e) => r == Err::<WaveformLayout, RenderError>(e),
    }
}

proof fn lemma_max_columns_push(ps: Seq<PlotView>, p: PlotView)
    ensures
        max_columns(ps.push(p)) == if max_columns(ps) >= p.heights.len() {
            max_columns(ps)
        } else {
            p.heights.len()
        },
{
    assert(ps.push(p).drop_last() =~= ps);
}

proof fn lemma_top_fits(h: int, i: int, n: int)
    requires
        0 <= i < n,
        1 <= h,
        h * n <= u32::MAX,
    ensures
        h * i + h <= h * n,
        0 <= h * i,
{
    assert(h * i + h <= h * n) by (nonlinear_arith)
        requires
            0 <= i < n,
            1 <= h,
    ;
    assert(0 <= h * i) by (nonlinear_arith)
        requires
            0 <= i,
            1 <= h,
    ;
}

impl WaveformRenderer {
    /// Creates a renderer with default appearance settings.
    pub fn new() -> (r: Self)
        ensures
            r.height == 144,
            r.color@ == "#2563eb"@,
            r.background@ == "#05070c"@,
    {
        Self::default()
    }

    /// Places plots one above the other, each `height` (at least 1) tall, with room for the
    /// labels on the left and the widest plot's column count as the plot area's width.
    pub fn layout_plots(&self, plots: Vec<Plot>) -> (r: Result<WaveformLayout, RenderError>)
        requires
            plots.len() <= u32::MAX || plot_height(self.height) == 1,
            !width_overflows(max_columns(seq_view(plots@))),
        ensures
            layout_matches(r, layout_result(self.height, seq_view(plots@))),
    {
        let ghost ps = seq_view(plots@);
        let height: u32 = if self.height >= 1 {
            self.height
        } else {
            1
        };
        let mut width: usize = 0;
        let mut i: usize = 0;
        while i < plots.len()
            invariant
                i <= plots.len(),
                ps == seq_view(plots@),
                width == max_columns(ps.take(i as int)),
            decreases plots.len() - i,
        {
            proof {
                assert(ps.take(i + 1) =~= ps.take(i as int).push(ps[i as int]));
                lemma_max_columns_push(ps.take(i as int), ps[i as int]);
                assert(ps[i as int] == plots@[i as int]@);
            }
            if plots[i].heights.len() > width {
                width = plots[i].heights.len();
            }
            i = i + 1;
        }
        proof {
            assert(ps.take(i as int) =~= ps);
        }
        if width > u32::MAX as usize {
            return Err(RenderError::TooManyColumns);
        }
        let width = width as u32;
        if width == 0 {
            return Err(RenderError::NoColumns);
        }
        let label_width = LABEL_WIDTH;
        let plot_width = width + label_width;
        let count: u32 = if plots.len() <= u32::MAX as usize {
            plots.len() as u32
        } else {
            0
        };
        let total_height = match height.checked_mul(count) {
            Some(t) => t,
            None => return Err(RenderError::TooTall),
        };
        let n = plots.len();
        let mut tops: Vec<u32> = Vec::new();
        let mut label_ys: Vec<u64> = Vec::new();
        let mut k: usize = 0;
        while k < n
            invariant
                k <= n,
                n == plots.len(),
                n <= u32::MAX || height == 1,
                1 <= height,
                n <= u32::MAX ==> height * n <= u32::MAX,
                tops@.len() == k,
                label_ys@.len() == k,
                forall|j: int| 0 <= j < k ==> tops@[j] == height * as_u32_or_zero(j),
                forall|j: int| 0 <= j < k ==> label_ys@[j] == height * as_u32_or_zero(j) + height / 2 + 5,
            decreases n - k,
        {
            let top: u32 = if k <= u32::MAX as usize {
                proof {
                    if n <= u32::MAX {
                        lemma_top_fits(height as int, k as int, n as int);
                    }
                }
                height * (k as u32)
            } else {
                0
            };
            tops.push(top);
            label_ys.push(top as u64 + (height / 2) as u64 + 5);
            k = k + 1;
        }
        let layout = WaveformLayout {
            plots,
            height,
            width,
            label_width,
            plot_width,
            total_height,
            tops,
            label_ys,
        };
        proof {
            let h = plot_height(self.height);
            assert(layout@.tops =~= Seq::new(ps.len(), |i: int| h * as_u32_or_zero(i)));
            assert(layout@.label_ys =~= Seq::new(ps.len(), |i: int| h * as_u32_or_zero(i) + h / 2 + 5));
        }
        Ok(layout)
    }

    /// Lays out all supported waveform previews of several files in one document.
    pub fn layout_anlzs(&self, anlzs: &[&ANLZ]) -> (r: Result<WaveformLayout, RenderError>)
        requires
            plots_of_files(file_views(anlzs@)).len() <= u32::MAX || plot_height(self.height) == 1,
            !width_overflows(max_columns(plots_of_files(file_views(anlzs@)))),
        ensures
            plots_of_files(file_views(anlzs@)).len() == 0 ==> r == Err::<WaveformLayout, RenderError>(
                RenderError::NoWaveformSections,
            ),
            plots_of_files(file_views(anlzs@)).len() > 0 ==> layout_matches(
                r,
                layout_result(self.height, plots_of_files(file_views(anlzs@))),
            ),
    {
        let plots = plots_of_anlzs(anlzs);
        if plots.len() == 0 {
            return Err(RenderError::NoWaveformSections);
        }
        self.layout_plots(plots)
    }

    /// Lays out all supported waveform previews of a file.
    pub fn layout_anlz(&self, anlz: &ANLZ) -> (r: Result<WaveformLayout, RenderError>)
        requires
            plots_of_files(seq![anlz@]).len() <= u32::MAX || plot_height(self.height) == 1,
            !width_overflows(max_columns(plots_of_files(seq![anlz@]))),
        ensures
            plots_of_files(seq![anlz@]).len() == 0 ==> r == Err::<WaveformLayout, RenderError>(
                RenderError::NoWaveformSections,
            ),
            plots_of_files(seq![anlz@]).len() > 0 ==> layout_matches(
                r,
                layout_result(self.height, plots_of_files(seq![anlz@])),
            ),
    {
        let anlzs: [&ANLZ; 1] = [anlz];
        proof {
            assert(file_views(anlzs@) =~= seq![anlz@]);
        }
        self.layout_anlzs(anlzs.as_slice())
    }

    /// Lays out monochrome columns as one plot, drawn symmetrically about its middle.
    pub fn layout_columns(&self, columns: &[WaveformPreviewColumn]) -> (r: Result<WaveformLayout, RenderError>)
        requires
            !width_overflows(columns@.len()),
        ensures
            columns@.len() == 0 ==> r == Err::<WaveformLayout, RenderError>(RenderError::NoColumns),
            columns@.len() > 0 ==> layout_matches(
                r,
                layout_result(self.height, seq![column_plot(seq_view(columns@))]),
            ),
    {
        if columns.len() == 0 {
            return Err(RenderError::NoColumns);
        }
        let mut heights: Vec<u16> = Vec::new();
        let mut i: usize = 0;
        while i < columns.len()
            invariant
                i <= columns.len(),
                heights@ == seq_view(columns@).take(i as int).map_values(|b: u8| (b % 32) as u16),
            decreases columns.len() - i,
        {
            proof {
                assert(seq_view(columns@).take(i + 1) =~= seq_view(columns@).take(i as int).push(
                    columns@[i as int]@,
                ));
            }
            heights.push(columns[i].height() as u16);
            proof {
                assert(heights@ =~= seq_view(columns@).take(i + 1).map_values(
                    |b: u8| (b % 32) as u16,
                ));
            }
            i = i + 1;
        }
        proof {
            assert(seq_view(columns@).take(i as int) =~= seq_view(columns@));
        }
        let label = "PWAV";
        let plot = Plot {
            label,
            heights,
            maximum: 31,
            colors: None,
            bands: None,
            bottom_aligned: false,
        };
        let plots = vec![plot];
        proof {
            assert(seq_view(plots@) =~= seq![column_plot(seq_view(columns@))]);
            reveal_with_fuel(max_columns, 2);
        }
        self.layout_plots(plots)
    }
}

/// Laying out one file alone and laying out a list that holds only that file give the same
/// plots, so `layout_anlz` and `layout_anlzs` on that list have the same precondition and the
/// same outcome: both fail alike, or both give the same layout.
pub proof fn lemma_one_file_layout(anlzs: Seq<&ANLZ>)
    requires
        anlzs.len() == 1,
    ensures
        plots_of_files(file_views(anlzs)) == plots_of_files(seq![anlzs[0]@]),
        forall|h: u32| #[trigger] layout_result(h, plots_of_files(file_views(anlzs))) == layout_result(
            h,
            plots_of_files(seq![anlzs[0]@]),
        ),
{
    assert(file_views(anlzs) =~= seq![anlzs[0]@]);
}

/// The plot of bare monochrome columns: five-bit heights in one color, drawn about the middle.
pub open spec fn column_plot(data: Seq<u8>) -> PlotView {
    PlotView {
        label: "PWAV"@,
        heights: data.map_values(|b: u8| (b % 32) as u16),
        maximum: 31,
        colors: None,
        bands: None,
        bottom_aligned: false,
    }
}

} // verus!
