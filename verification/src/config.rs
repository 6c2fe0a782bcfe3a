//! Configuration of a run.

use vstd::prelude::*;

verus! {

/// Configuration of the monitor.
#[derive(Debug, Clone, Copy, PartialEq, Eq, Structural)]
pub struct RunConfig {
    /// Update rate in milliseconds, at least 100. The sampler samples at
    /// this rate.
    pub sample_rate_ms: u16,
    /// Number of recent readings to keep of each charted quantity.
    pub history_size: usize,
    /// Colour of labels, as a code from 0 to 255.
    pub accent_color: u8,
    /// Foreground colour of gauges.
    pub gauge_fg_color: u8,
    /// Background colour of gauges.
    pub gauge_bg_color: u8,
    /// Foreground colour of histories.
    pub history_fg_color: u8,
    /// Background colour of histories.
    pub history_bg_color: u8,
    /// Print samples as JSON instead of drawing.
    pub json: bool,
}

impl RunConfig {
    /// The colours of the configuration.
    pub fn colors(&self) -> (r: UiColors)
        ensures
            r == (UiColors {
                accent: self.accent_color,
                gauge_fg: self.gauge_fg_color,
                gauge_bg: self.gauge_bg_color,
                history_fg: self.history_fg_color,
                history_bg: self.history_bg_color,
            }),
    {
        UiColors {
            accent: self.accent_color,
            gauge_fg: self.gauge_fg_color,
            gauge_bg: self.gauge_bg_color,
            history_fg: self.history_fg_color,
            history_bg: self.history_bg_color,
        }
    }
}

/// The colours of the display, each a code from 0 to 255.
#[derive(Debug, Clone, Copy, PartialEq, Eq, Structural)]
pub struct UiColors {
    /// Colour of labels.
    pub accent: u8,
    /// Foreground colour of gauges.
    pub gauge_fg: u8,
    /// Background colour of gauges.
    pub gauge_bg: u8,
    /// Foreground colour of histories.
    pub history_fg: u8,
    /// Background colour of histories.
    pub history_bg: u8,
}

} // verus!
