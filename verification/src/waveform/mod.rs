//! Waveform plots of analysis files, laid out for rendering.
//!
//! The plots and their placement are computed here; drawing them as vector graphics is left
//! to the caller.

mod color;

pub use color::{
    blue_color, blue_text, brighten, lemma_blue_color_brightens, lemma_brighten_monotone, channel, color_string, color_text, hex_byte, hex_digits,
    rgb_color, rgb_text,
};
mod plot;

pub use plot::{
    band_preview_plot, color_preview_plot, column_color, column_sum, lemma_color_preview_colors, energy_sum, file_views, max_or_one, plot_of,
    plot_of_content, plots_of_anlzs, plots_of_files, plots_of_sections, preview_plot, seq_max,
    texts, tiny_preview_plot, Plot, PlotView,
};
mod render;

pub use render::{
    as_u32_or_zero, column_plot, layout_matches, lemma_one_file_layout, layout_result, max_columns, plot_height, width_overflows,
    LayoutView, RenderError, WaveformLayout, WaveformRenderer, LABEL_WIDTH,
};
