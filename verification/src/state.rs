//! The state that the consumer of the samples owns: the current sample, the
//! history, the selected tab and the wish to quit.

use vstd::prelude::*;
use vstd::string::*;
use crate::history::{chartable, recorded_all, sample_readings, History};
use crate::metric_key::MetricKey;
use crate::metrics::{Metrics, MetricsView};
use crate::signal::Series;
use crate::soc::SocInfo;

verus! {

/// The tabs and the selected one.
pub struct TabsState<'a> {
    pub titles: Vec<&'a str>,
    pub index: usize,
}

impl<'a> TabsState<'a> {
    /// A tab is selected.
    pub open spec fn wf(&self) -> bool {
        self.index < self.titles@.len()
    }

    /// The tabs with the first one selected.
    pub fn new(titles: Vec<&'a str>) -> (r: TabsState<'a>)
        ensures
            r.titles == titles,
            r.index == 0,
    {
        TabsState { titles, index: 0 }
    }

    /// Selects the tab to the right, the first one after the last.
    pub fn next(&mut self)
        requires
            old(self).wf(),
        ensures
            final(self).titles == old(self).titles,
            final(self).index == (old(self).index + 1) % (old(self).titles@.len() as int),
            final(self).wf(),
    {
        let n: usize = self.titles.len();
        self.index = (self.index + 1) % n;
    }

    /// Selects the tab to the left, the last one before the first.
    pub fn previous(&mut self)
        requires
            old(self).wf(),
        ensures
            final(self).titles == old(self).titles,
            final(self).index == if old(self).index > 0 {
                old(self).index - 1
            } else {
                old(self).titles@.len() - 1
            },
            final(self).wf(),
    {
        if self.index > 0 {
            self.index -= 1;
        } else {
            self.index = self.titles.len() - 1;
        }
    }
}

/// The number of rows that hold `count` blocks two by two: half of `count`,
/// rounded up.
pub fn num_blocks_for(count: usize) -> (r: usize)
    ensures
        r == (count + 1) / 2,
{
    count / 2 + count % 2
}

/// Whether the key asks to quit.
pub open spec fn is_quit_key(c: char) -> bool {
    c == 'q' || c == 'x'
}

/// The state of the consumer.
pub struct App<'a> {
    /// The consumer wants to quit.
    pub should_quit: bool,
    /// Tabs and currently selected tab.
    pub tabs: TabsState<'a>,
    /// The latest sample.
    pub metrics: Option<Metrics>,
    /// The machine description.
    pub soc_info: SocInfo,
    /// The history of every charted quantity.
    pub history: History,
}

impl<'a> App<'a> {
    /// The state at the start: no sample, an empty history whose series
    /// will hold `history_size` readings each, the first of the four tabs
    /// selected.
    pub fn new(soc_info: SocInfo, history_size: usize) -> (r: Self)
        ensures
            !r.should_quit,
            r.tabs.wf(),
            r.tabs.index == 0,
            r.tabs.titles@.len() == 4,
            r.tabs.titles@[0]@ == "Overview"@,
            r.tabs.titles@[1]@ == "CPU"@,
            r.tabs.titles@[2]@ == "GPU"@,
            r.tabs.titles@[3]@ == "SoC"@,
            r.metrics is None,
            r.soc_info == soc_info,
            r.history@ == Map::<MetricKey, Series>::empty(),
            r.history.spec_capacity() == history_size,
    {
        let mut titles: Vec<&'a str> = Vec::new();
        titles.push("Overview");
        titles.push("CPU");
        titles.push("GPU");
        titles.push("SoC");
        App {
            should_quit: false,
            tabs: TabsState::new(titles),
            metrics: None,
            soc_info,
            history: History::new(history_size),
        }
    }

    /// Takes a key: `q` and `x` ask to quit, any other key does nothing.
    pub fn on_key(&mut self, c: char)
        ensures
            final(self).should_quit == (old(self).should_quit || is_quit_key(c)),
            final(self).tabs == old(self).tabs,
            final(self).metrics == old(self).metrics,
            final(self).soc_info == old(self).soc_info,
            final(self).history == old(self).history,
    {
        if c == 'q' || c == 'x' {
            self.should_quit = true;
        }
    }

    /// Selects the tab to the left.
    pub fn on_left(&mut self)
        requires
            old(self).tabs.wf(),
        ensures
            final(self).tabs.index == if old(self).tabs.index > 0 {
                old(self).tabs.index - 1
            } else {
                old(self).tabs.titles@.len() - 1
            },
            final(self).tabs.titles == old(self).tabs.titles,
            final(self).tabs.wf(),
            final(self).should_quit == old(self).should_quit,
            final(self).metrics == old(self).metrics,
            final(self).soc_info == old(self).soc_info,
            final(self).history == old(self).history,
    {
        self.tabs.previous();
    }

    /// Selects the tab to the right.
    pub fn on_right(&mut self)
        requires
            old(self).tabs.wf(),
        ensures
            final(self).tabs.index == (old(self).tabs.index + 1) % (old(self).tabs.titles@.len() as int),
            final(self).tabs.titles == old(self).tabs.titles,
            final(self).tabs.wf(),
            final(self).should_quit == old(self).should_quit,
            final(self).metrics == old(self).metrics,
            final(self).soc_info == old(self).soc_info,
            final(self).history == old(self).history,
    {
        self.tabs.next();
    }

    /// Takes a new sample: its readings go into the history, and it becomes
    /// the latest sample.
    pub fn on_metrics(&mut self, metrics: Metrics)
        requires
            chartable(metrics@),
            old(self).soc_info.max_ane_mw > 0,
        ensures
            final(self).history@ == recorded_all(
                old(self).history@,
                old(self).history.spec_capacity(),
                sample_readings(metrics@, old(self).soc_info@),
            ),
            final(self).history.spec_capacity() == old(self).history.spec_capacity(),
            final(self).metrics == Some(metrics),
            final(self).should_quit == old(self).should_quit,
            final(self).tabs == old(self).tabs,
            final(self).soc_info == old(self).soc_info,
    {
        self.history.update(&metrics, &self.soc_info);
        self.metrics = Some(metrics);
    }
}

} // verus!
