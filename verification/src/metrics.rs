//! The sample: what one document says after conversion, and after the merge
//! with the snapshot of the second source.

use vstd::prelude::*;
use crate::decoded;
use crate::decoded::DvfmState;
use crate::error::{Error, Misalignment};
use crate::snapshot;
use crate::snapshot::MemoryMetrics;
use crate::text::str_equals;
use crate::units::{
    active_ratio, capped, freq_ratio, lemma_freq_ratio_bounds, mhz, power_mw, spec_active_ratio,
    spec_freq_ratio, spec_mhz, spec_power_mw, HZ_PER_MHZ, RATIO_ONE,
};

verus! {

/// The highest frequency among the states, 0 where there is none.
pub open spec fn max_freq(states: Seq<DvfmState>) -> u16
    decreases states.len(),
{
    if states.len() == 0 {
        0
    } else {
        let rest = max_freq(states.drop_last());
        if states.last().freq_mhz > rest {
            states.last().freq_mhz
        } else {
            rest
        }
    }
}

/// The lowest frequency among the states, the largest 16-bit number where
/// there is none.
pub open spec fn min_freq(states: Seq<DvfmState>) -> u16
    decreases states.len(),
{
    if states.len() == 0 {
        u16::MAX
    } else {
        let rest = min_freq(states.drop_last());
        if states.last().freq_mhz < rest {
            states.last().freq_mhz
        } else {
            rest
        }
    }
}

/// The highest frequency is no lower than any state's and, where there is a
/// state, it is the frequency of one; likewise the lowest.
pub proof fn lemma_freq_extremes(states: Seq<DvfmState>)
    ensures
        forall|i: int| 0 <= i < states.len() ==> states[i].freq_mhz <= max_freq(states),
        forall|i: int| 0 <= i < states.len() ==> states[i].freq_mhz >= min_freq(states),
        states.len() > 0 ==> exists|i: int|
            0 <= i < states.len() && states[i].freq_mhz == max_freq(states),
        states.len() > 0 ==> exists|i: int|
            0 <= i < states.len() && states[i].freq_mhz == min_freq(states),
        states.len() > 0 ==> min_freq(states) <= max_freq(states),
    decreases states.len(),
{
    if states.len() > 0 {
        let front = states.drop_last();
        lemma_freq_extremes(front);
        let last = states.len() - 1;
        assert forall|i: int| 0 <= i < states.len() implies states[i].freq_mhz <= max_freq(
            states,
        ) && states[i].freq_mhz >= min_freq(states) by {
            if i < last {
                assert(front[i] == states[i]);
            }
        }
        if front.len() == 0 {
            assert(states[last].freq_mhz == max_freq(states));
            assert(states[last].freq_mhz == min_freq(states));
        } else {
            let hi = choose|i: int| 0 <= i < front.len() && front[i].freq_mhz == max_freq(front);
            let lo = choose|i: int| 0 <= i < front.len() && front[i].freq_mhz == min_freq(front);
            assert(front[hi] == states[hi] && front[lo] == states[lo]);
            if states.last().freq_mhz > max_freq(front) {
                assert(states[last].freq_mhz == max_freq(states));
            } else {
                assert(states[hi].freq_mhz == max_freq(states));
            }
            if states.last().freq_mhz < min_freq(front) {
                assert(states[last].freq_mhz == min_freq(states));
            } else {
                assert(states[lo].freq_mhz == min_freq(states));
            }
        }
    }
}

/// The highest frequency among the states.
pub fn max_frequency_of(states: &Vec<DvfmState>) -> (r: u16)
    ensures
        r == max_freq(states@),
{
    let mut r: u16 = 0;
    let n: usize = states.len();
    let mut i: usize = 0;
    while i < n
        invariant
            i <= n,
            n == states@.len(),
            r == max_freq(states@.take(i as int)),
        decreases n - i,
    {
        assert(states@.take(i + 1).drop_last() =~= states@.take(i as int));
        if states[i].freq_mhz > r {
            r = states[i].freq_mhz;
        }
        i += 1;
    }
    assert(states@.take(n as int) =~= states@);
    r
}

/// The lowest frequency among the states.
pub fn min_frequency_of(states: &Vec<DvfmState>) -> (r: u16)
    ensures
        r == min_freq(states@),
{
    let mut r: u16 = u16::MAX;
    let n: usize = states.len();
    let mut i: usize = 0;
    while i < n
        invariant
            i <= n,
            n == states@.len(),
            r == min_freq(states@.take(i as int)),
        decreases n - i,
    {
        assert(states@.take(i + 1).drop_last() =~= states@.take(i as int));
        if states[i].freq_mhz < r {
            r = states[i].freq_mhz;
        }
        i += 1;
    }
    assert(states@.take(n as int) =~= states@);
    r
}

/// Where a frequency stands in the range of the given states.
pub open spec fn range_ratio(freq_hz: u64, states: Seq<DvfmState>) -> u64
    recommends
        max_freq(states) > 0,
{
    capped(spec_freq_ratio(freq_hz, min_freq(states), max_freq(states)))
}

/// The place of a frequency in the range of the states is a share between 0
/// and 1 for every frequency from the lowest state to the highest, and it
/// is 0, not below, for a frequency under the lowest state.
pub proof fn lemma_range_ratio_bounds(freq_hz: u64, states: Seq<DvfmState>)
    requires
        max_freq(states) > 0,
    ensures
        min_freq(states) * HZ_PER_MHZ <= freq_hz <= max_freq(states) * HZ_PER_MHZ ==> 0
            <= range_ratio(freq_hz, states) <= RATIO_ONE,
        freq_hz < min_freq(states) * HZ_PER_MHZ ==> range_ratio(freq_hz, states) == 0,
{
    lemma_freq_ratio_bounds(freq_hz, min_freq(states), max_freq(states));
}

/// One core of a sample.
#[derive(Debug, Clone, PartialEq, Eq)]
pub struct CpuMetrics {
    /// Identifier of the core.
    pub id: u16,
    /// Mean frequency, in Hz.
    pub freq_hz: u64,
    /// Active share.
    pub active_ratio: u64,
    /// Frequency states.
    pub dvfm_states: Vec<DvfmState>,
}

/// What a core of a sample is, mathematically.
pub struct CpuMetricsView {
    pub id: u16,
    pub freq_hz: u64,
    pub active_ratio: u64,
    pub dvfm_states: Seq<DvfmState>,
}

impl CpuMetricsView {
    /// The core as the decoder reports it: the active share is what the idle
    /// share leaves of 1, the rest is taken over.
    pub open spec fn of(c: decoded::CpuView) -> CpuMetricsView {
        CpuMetricsView {
            id: c.cpu_id,
            freq_hz: c.freq_hz,
            active_ratio: spec_active_ratio(c.idle_ratio),
            dvfm_states: c.dvfm_states,
        }
    }

    /// The core with another active share.
    pub open spec fn rated(self, active_ratio: u64) -> CpuMetricsView {
        CpuMetricsView { active_ratio, ..self }
    }

    /// The core has a state with a frequency above 0, so that its frequency
    /// has a place in a range.
    pub open spec fn ranged(self) -> bool {
        max_freq(self.dvfm_states) > 0
    }
}

impl View for CpuMetrics {
    type V = CpuMetricsView;

    open spec fn view(&self) -> CpuMetricsView {
        CpuMetricsView {
            id: self.id,
            freq_hz: self.freq_hz,
            active_ratio: self.active_ratio,
            dvfm_states: self.dvfm_states@,
        }
    }
}

impl CpuMetrics {
    /// Converts a decoded core.
    pub fn from_decoded(value: decoded::Cpu) -> (r: Self)
        ensures
            r@ == CpuMetricsView::of(value@),
    {
        Self {
            id: value.cpu_id,
            freq_hz: value.freq_hz,
            active_ratio: active_ratio(value.idle_ratio),
            dvfm_states: value.dvfm_states,
        }
    }

    /// Mean frequency in whole MHz.
    pub fn freq_mhz(&self) -> (r: u64)
        ensures
            r == spec_mhz(self.freq_hz),
    {
        mhz(self.freq_hz)
    }

    /// The highest frequency among the states of the core.
    pub fn max_frequency(&self) -> (r: u16)
        requires
            self.dvfm_states@.len() > 0,
        ensures
            r == max_freq(self.dvfm_states@),
    {
        max_frequency_of(&self.dvfm_states)
    }

    /// The lowest frequency among the states of the core.
    pub fn min_frequency(&self) -> (r: u16)
        requires
            self.dvfm_states@.len() > 0,
        ensures
            r == min_freq(self.dvfm_states@),
    {
        min_frequency_of(&self.dvfm_states)
    }

    /// Where the frequency of the core stands in the range of its states.
    pub fn freq_ratio(&self) -> (r: u64)
        requires
            self@.ranged(),
        ensures
            r == range_ratio(self.freq_hz, self.dvfm_states@),
    {
        let lo: u16 = min_frequency_of(&self.dvfm_states);
        let hi: u16 = max_frequency_of(&self.dvfm_states);
        freq_ratio(self.freq_hz, lo, hi)
    }
}

/// The GPU of a sample.
#[derive(Debug, Clone, PartialEq, Eq)]
pub struct GpuMetrics {
    /// Mean frequency, in Hz.
    pub freq_hz: u64,
    /// Active share.
    pub active_ratio: u64,
    /// Frequency states.
    pub dvfm_states: Vec<DvfmState>,
}

/// What the GPU of a sample is, mathematically.
pub struct GpuMetricsView {
    pub freq_hz: u64,
    pub active_ratio: u64,
    pub dvfm_states: Seq<DvfmState>,
}

impl GpuMetricsView {
    /// The GPU as the decoder reports it.
    pub open spec fn of(g: decoded::GpuView) -> GpuMetricsView {
        GpuMetricsView {
            freq_hz: g.freq_hz,
            active_ratio: spec_active_ratio(g.idle_ratio),
            dvfm_states: g.dvfm_states,
        }
    }

    /// The GPU has a state with a frequency above 0.
    pub open spec fn ranged(self) -> bool {
        max_freq(self.dvfm_states) > 0
    }
}

impl View for GpuMetrics {
    type V = GpuMetricsView;

    open spec fn view(&self) -> GpuMetricsView {
        GpuMetricsView {
            freq_hz: self.freq_hz,
            active_ratio: self.active_ratio,
            dvfm_states: self.dvfm_states@,
        }
    }
}

impl GpuMetrics {
    /// Converts the decoded GPU.
    pub fn from_decoded(value: decoded::GpuMetrics) -> (r: Self)
        ensures
            r@ == GpuMetricsView::of(value@),
    {
        Self {
            freq_hz: value.freq_hz,
            active_ratio: active_ratio(value.idle_ratio),
            dvfm_states: value.dvfm_states,
        }
    }

    /// Mean frequency in whole MHz.
    pub fn freq_mhz(&self) -> (r: u64)
        ensures
            r == spec_mhz(self.freq_hz),
    {
        mhz(self.freq_hz)
    }

    /// Where the frequency of the GPU stands in the range of its states.
    pub fn freq_ratio(&self) -> (r: u64)
        requires
            self@.ranged(),
        ensures
            r == range_ratio(self.freq_hz, self.dvfm_states@),
    {
        let lo: u16 = min_frequency_of(&self.dvfm_states);
        let hi: u16 = max_frequency_of(&self.dvfm_states);
        freq_ratio(self.freq_hz, lo, hi)
    }
}

/// The sum of the active shares of the cores.
pub open spec fn total_active(cpus: Seq<CpuMetricsView>) -> nat
    decreases cpus.len(),
{
    if cpus.len() == 0 {
        0
    } else {
        total_active(cpus.drop_last()) + cpus.last().active_ratio as nat
    }
}

/// The arithmetic mean of the active shares of the cores, rounded down to a
/// whole part per billion.
pub open spec fn mean_active(cpus: Seq<CpuMetricsView>) -> nat
    recommends
        cpus.len() > 0,
{
    total_active(cpus) / cpus.len()
}

/// The sum of the active shares lies between the number of cores times the
/// lowest share and the number of cores times the highest.
pub proof fn lemma_total_active_bounds(cpus: Seq<CpuMetricsView>, lo: u64, hi: u64)
    requires
        forall|i: int| 0 <= i < cpus.len() ==> lo <= (#[trigger] cpus[i]).active_ratio <= hi,
    ensures
        cpus.len() * lo <= total_active(cpus) <= cpus.len() * hi,
    decreases cpus.len(),
{
    if cpus.len() > 0 {
        let front = cpus.drop_last();
        assert forall|i: int| 0 <= i < front.len() implies lo <= (
        #[trigger] front[i]).active_ratio <= hi by {
            assert(front[i] == cpus[i]);
        }
        lemma_total_active_bounds(front, lo, hi);
        assert(lo <= cpus[cpus.len() - 1].active_ratio <= hi);
        assert(cpus.len() * lo == front.len() * lo + lo) by (nonlinear_arith)
            requires
                cpus.len() == front.len() + 1,
        ;
        assert(cpus.len() * hi == front.len() * hi + hi) by (nonlinear_arith)
            requires
                cpus.len() == front.len() + 1,
        ;
    }
}

/// The active share of a cluster is the arithmetic mean of the active shares
/// of its cores: it differs from the exact mean by less than one part per
/// billion, and it lies between the lowest and the highest share.
pub proof fn lemma_mean_active_exact(cpus: Seq<CpuMetricsView>, lo: u64, hi: u64)
    requires
        cpus.len() > 0,
        forall|i: int| 0 <= i < cpus.len() ==> lo <= (#[trigger] cpus[i]).active_ratio <= hi,
    ensures
        cpus.len() * mean_active(cpus) <= total_active(cpus) < cpus.len() * (mean_active(cpus) + 1),
        lo <= mean_active(cpus) <= hi,
{
    lemma_total_active_bounds(cpus, lo, hi);
    let n: int = cpus.len() as int;
    let t: int = total_active(cpus) as int;
    let m: int = t / n;
    assert(n * m <= t < n * (m + 1) && lo <= m <= hi) by (nonlinear_arith)
        requires
            n > 0,
            m == t / n,
            n * lo <= t <= n * hi,
    ;
}

/// One cluster of a sample.
#[derive(Debug, Clone, PartialEq, Eq)]
pub struct ClusterMetrics {
    /// Name of the cluster.
    pub name: String,
    /// Mean frequency, in Hz.
    pub freq_hz: u64,
    /// Frequency states.
    pub dvfm_states: Vec<DvfmState>,
    /// The cores of the cluster.
    pub cpus: Vec<CpuMetrics>,
}

/// What a cluster of a sample is, mathematically.
pub struct ClusterMetricsView {
    pub name: Seq<char>,
    pub freq_hz: u64,
    pub dvfm_states: Seq<DvfmState>,
    pub cpus: Seq<CpuMetricsView>,
}

impl ClusterMetricsView {
    /// The cluster as the decoder reports it, core by core.
    pub open spec fn of(c: decoded::ClusterView) -> ClusterMetricsView {
        ClusterMetricsView {
            name: c.name,
            freq_hz: c.freq_hz,
            dvfm_states: c.dvfm_states,
            cpus: c.cpus.map_values(|cpu: decoded::CpuView| CpuMetricsView::of(cpu)),
        }
    }
}

impl View for ClusterMetrics {
    type V = ClusterMetricsView;

    open spec fn view(&self) -> ClusterMetricsView {
        ClusterMetricsView {
            name: self.name@,
            freq_hz: self.freq_hz,
            dvfm_states: self.dvfm_states@,
            cpus: self.cpus@.map_values(|c: CpuMetrics| c@),
        }
    }
}

impl ClusterMetrics {
    /// Converts a decoded cluster.
    pub fn from_decoded(value: decoded::ClusterMetrics) -> (r: Self)
        ensures
            r@ == ClusterMetricsView::of(value@),
    {
        let mut cpus: Vec<CpuMetrics> = Vec::new();
        let ghost all = value.cpus@;
        for cpu in it: value.cpus
            invariant
                it.seq() == all,
                cpus@.len() == it.index(),
                forall|i: int| 0 <= i < cpus@.len() ==> cpus@[i]@ == CpuMetricsView::of(all[i]@),
        {
            cpus.push(CpuMetrics::from_decoded(cpu));
        }
        let r = Self {
            name: value.name,
            freq_hz: value.freq_hz,
            dvfm_states: value.dvfm_states,
            cpus,
        };
        assert(r@.cpus =~= ClusterMetricsView::of(value@).cpus);
        r
    }

    /// Mean frequency in whole MHz.
    pub fn freq_mhz(&self) -> (r: u64)
        ensures
            r == spec_mhz(self.freq_hz),
    {
        mhz(self.freq_hz)
    }

    /// Active share of the cluster: the mean of the active shares of its
    /// cores.
    pub fn active_ratio(&self) -> (r: u64)
        requires
            self.cpus@.len() > 0,
        ensures
            r == mean_active(self@.cpus),
    {
        let n: usize = self.cpus.len();
        let mut total: u128 = 0;
        let mut i: usize = 0;
        while i < n
            invariant
                i <= n,
                n == self.cpus@.len(),
                total == total_active(self@.cpus.take(i as int)),
                total <= i * u64::MAX,
            decreases n - i,
        {
            assert(self@.cpus.take(i + 1).drop_last() =~= self@.cpus.take(i as int));
            assert(self@.cpus.take(i + 1).last() == self.cpus@[i as int]@);
            assert((i + 1) * u64::MAX == i * u64::MAX + u64::MAX) by (nonlinear_arith);
            assert(i * u64::MAX + u64::MAX <= usize::MAX * u64::MAX) by (nonlinear_arith)
                requires
                    i < usize::MAX,
            ;
            total = total + self.cpus[i].active_ratio as u128;
            i += 1;
        }
        assert(self@.cpus.take(n as int) =~= self@.cpus);
        let mean: u128 = total / (n as u128);
        assert(mean <= u64::MAX) by (nonlinear_arith)
            requires
                mean == total / (n as u128),
                total <= n * u64::MAX,
                n > 0,
        ;
        mean as u64
    }
}

/// Power drawn over the sampling period, in milliwatts.
#[derive(Debug, Clone, Copy, PartialEq, Eq, Structural)]
pub struct PowerConsumption {
    /// Power of the CPU.
    pub cpu_mw: u64,
    /// Power of the GPU.
    pub gpu_mw: u64,
    /// Power of the neural engine.
    pub ane_mw: u64,
    /// Power of the package, as the sampler reports it.
    pub package_mw: u64,
}

/// How hard the machine is throttled for heat.
#[derive(Debug, Clone, Copy, PartialEq, Eq, Structural)]
pub enum ThermalPressure {
    Nominal,
    Moderate,
    Heavy,
    Sleeping,
    Trapping,
    /// Any wording that is none of the above.
    Undefined,
}

impl ThermalPressure {
    /// The level that a wording of the sampler names.
    pub open spec fn of(label: Seq<char>) -> ThermalPressure {
        if label == "Nominal"@ {
            ThermalPressure::Nominal
        } else if label == "Moderate"@ {
            ThermalPressure::Moderate
        } else if label == "Heavy"@ {
            ThermalPressure::Heavy
        } else if label == "Sleeping"@ {
            ThermalPressure::Sleeping
        } else if label == "Trapping"@ {
            ThermalPressure::Trapping
        } else {
            ThermalPressure::Undefined
        }
    }

    /// The level that a wording of the sampler names.
    pub fn from_label(value: &str) -> (r: Self)
        ensures
            r == ThermalPressure::of(value@),
    {
        if str_equals(value, "Nominal") {
            ThermalPressure::Nominal
        } else if str_equals(value, "Moderate") {
            ThermalPressure::Moderate
        } else if str_equals(value, "Heavy") {
            ThermalPressure::Heavy
        } else if str_equals(value, "Sleeping") {
            ThermalPressure::Sleeping
        } else if str_equals(value, "Trapping") {
            ThermalPressure::Trapping
        } else {
            ThermalPressure::Undefined
        }
    }

    /// The number under which an exporter reports the level: 0 to 4 for the
    /// known levels in the order nominal, moderate, heavy, trapping,
    /// sleeping, and -1 for any other wording.
    pub fn gauge_value(&self) -> (r: i64)
        ensures
            r == match *self {
                ThermalPressure::Nominal => 0i64,
                ThermalPressure::Moderate => 1i64,
                ThermalPressure::Heavy => 2i64,
                ThermalPressure::Trapping => 3i64,
                ThermalPressure::Sleeping => 4i64,
                ThermalPressure::Undefined => -1i64,
            },
    {
        match self {
            ThermalPressure::Nominal => 0,
            ThermalPressure::Moderate => 1,
            ThermalPressure::Heavy => 2,
            ThermalPressure::Trapping => 3,
            ThermalPressure::Sleeping => 4,
            ThermalPressure::Undefined => -1,
        }
    }
}

/// Whether a cluster name begins with the given letter.
pub open spec fn has_initial(name: Seq<char>, initial: char) -> bool {
    name.len() > 0 && name[0] == initial
}

/// The clusters whose name begins with `initial`, converted, in the order
/// of the document.
pub open spec fn clusters_of(clusters: Seq<decoded::ClusterView>, initial: char) -> Seq<
    ClusterMetricsView,
>
    decreases clusters.len(),
{
    if clusters.len() == 0 {
        Seq::empty()
    } else {
        let front = clusters_of(clusters.drop_last(), initial);
        if has_initial(clusters.last().name, initial) {
            front.push(ClusterMetricsView::of(clusters.last()))
        } else {
            front
        }
    }
}

/// The views of a list of clusters.
pub open spec fn cluster_views(clusters: Seq<ClusterMetrics>) -> Seq<ClusterMetricsView> {
    clusters.map_values(|c: ClusterMetrics| c@)
}

/// The cores of the clusters in the order of the walk: cluster by cluster,
/// and within a cluster core by core.
pub open spec fn cores_of(clusters: Seq<ClusterMetricsView>) -> Seq<CpuMetricsView>
    decreases clusters.len(),
{
    if clusters.len() == 0 {
        Seq::empty()
    } else {
        cores_of(clusters.drop_last()) + clusters.last().cpus
    }
}

/// The active shares that a snapshot reports, in its own order.
pub open spec fn ratios_of(snap: Seq<snapshot::CpuMetrics>) -> Seq<u64> {
    snap.map_values(|c: snapshot::CpuMetrics| c.active_ratio)
}

/// The first position from `from` on at which the identifiers of the cores
/// and of the snapshot differ; the number of cores where there is none.
pub open spec fn mismatch_from(
    cores: Seq<CpuMetricsView>,
    snap: Seq<snapshot::CpuMetrics>,
    from: int,
) -> int
    decreases cores.len() - from,
{
    if from < 0 || from >= cores.len() || from >= snap.len() {
        cores.len() as int
    } else if cores[from].id != snap[from].id {
        from
    } else {
        mismatch_from(cores, snap, from + 1)
    }
}

/// The clusters with the active share of every core replaced: the core at
/// position `k` of the walk gets `ratios[k]`.
pub open spec fn rated_clusters(clusters: Seq<ClusterMetricsView>, ratios: Seq<u64>) -> Seq<
    ClusterMetricsView,
>
    decreases clusters.len(),
{
    if clusters.len() == 0 {
        Seq::empty()
    } else {
        let front = clusters.drop_last();
        rated_clusters(front, ratios).push(
            clusters.last().rated(ratios.skip(cores_of(front).len() as int)),
        )
    }
}

impl ClusterMetricsView {
    /// The cluster with the active share of its core `j` replaced by
    /// `ratios[j]`.
    pub open spec fn rated(self, ratios: Seq<u64>) -> ClusterMetricsView {
        ClusterMetricsView {
            cpus: Seq::new(self.cpus.len(), |j: int| self.cpus[j].rated(ratios[j])),
            ..self
        }
    }
}

/// The walk over the first clusters is the beginning of the walk over all.
pub proof fn lemma_cores_of_prefix(clusters: Seq<ClusterMetricsView>, i: int)
    requires
        0 <= i <= clusters.len(),
    ensures
        cores_of(clusters.take(i)).is_prefix_of(cores_of(clusters)),
        i < clusters.len() ==> cores_of(clusters.take(i + 1)) == cores_of(clusters.take(i))
            + clusters[i].cpus,
    decreases clusters.len(),
{
    if i == clusters.len() {
        assert(clusters.take(i) =~= clusters);
    } else {
        let front = clusters.drop_last();
        assert(clusters.take(i) =~= front.take(i));
        lemma_cores_of_prefix(front, i);
        assert(clusters.take(i + 1).drop_last() =~= clusters.take(i));
        assert(clusters.take(i + 1).last() == clusters[i]);
    }
}

/// Where the cores of cluster `i` stand in the walk: after the cores of the
/// clusters before it, one after the other.
pub proof fn lemma_cluster_span(clusters: Seq<ClusterMetricsView>, i: int)
    requires
        0 <= i < clusters.len(),
    ensures
        cores_of(clusters.take(i + 1)).len() == cores_of(clusters.take(i)).len()
            + clusters[i].cpus.len(),
        cores_of(clusters.take(i + 1)).len() <= cores_of(clusters).len(),
        forall|m: int|
            0 <= m < clusters[i].cpus.len() ==> cores_of(clusters)[cores_of(clusters.take(i)).len()
                + m] == #[trigger] clusters[i].cpus[m],
{
    lemma_cores_of_prefix(clusters, i);
    lemma_cores_of_prefix(clusters, i + 1);
    let pos = cores_of(clusters.take(i)).len() as int;
    let upto = cores_of(clusters.take(i + 1));
    assert forall|m: int| 0 <= m < clusters[i].cpus.len() implies cores_of(clusters)[pos + m]
        == #[trigger] clusters[i].cpus[m] by {
        assert(cores_of(clusters).subrange(0, upto.len() as int)[pos + m] == upto[pos + m]);
    }
}

/// Replacing the active shares changes nothing but the active shares: the
/// clusters keep their number, names, frequencies and states, and the core
/// at position `k` of the walk is the old one with the share `ratios[k]`.
pub proof fn lemma_rated_clusters(clusters: Seq<ClusterMetricsView>, ratios: Seq<u64>)
    requires
        cores_of(clusters).len() <= ratios.len(),
    ensures
        rated_clusters(clusters, ratios).len() == clusters.len(),
        forall|i: int|
            0 <= i < clusters.len() ==> {
                let c = #[trigger] rated_clusters(clusters, ratios)[i];
                &&& c.name == clusters[i].name
                &&& c.freq_hz == clusters[i].freq_hz
                &&& c.dvfm_states == clusters[i].dvfm_states
                &&& c.cpus.len() == clusters[i].cpus.len()
            },
        cores_of(rated_clusters(clusters, ratios)) == Seq::new(
            cores_of(clusters).len(),
            |k: int| cores_of(clusters)[k].rated(ratios[k]),
        ),
    decreases clusters.len(),
{
    if clusters.len() > 0 {
        let front = clusters.drop_last();
        lemma_rated_clusters(front, ratios);
        let out = rated_clusters(clusters, ratios);
        assert(out.drop_last() =~= rated_clusters(front, ratios));
        assert forall|i: int| 0 <= i < clusters.len() implies {
            let c = #[trigger] out[i];
            &&& c.name == clusters[i].name
            &&& c.freq_hz == clusters[i].freq_hz
            &&& c.dvfm_states == clusters[i].dvfm_states
            &&& c.cpus.len() == clusters[i].cpus.len()
        } by {
            if i < front.len() {
                assert(out[i] == rated_clusters(front, ratios)[i]);
                assert(front[i] == clusters[i]);
            }
        }
        let n = cores_of(front).len() as int;
        let want = Seq::new(
            cores_of(clusters).len(),
            |k: int| cores_of(clusters)[k].rated(ratios[k]),
        );
        assert(cores_of(out) == cores_of(rated_clusters(front, ratios)) + out.last().cpus);
        assert(cores_of(out).len() == want.len());
        assert forall|k: int| 0 <= k < want.len() implies cores_of(out)[k] == want[k] by {
            if k < n {
                assert(cores_of(out)[k] == cores_of(front)[k].rated(ratios[k]));
            } else {
                assert(cores_of(out)[k] == out.last().cpus[k - n]);
                assert(ratios.skip(n)[k - n] == ratios[k]);
            }
        }
        assert(cores_of(out) =~= want);
    } else {
        assert(cores_of(rated_clusters(clusters, ratios)) =~= Seq::new(
            cores_of(clusters).len(),
            |k: int| cores_of(clusters)[k].rated(ratios[k]),
        ));
    }
}

/// A position at which the identifiers differ, with none before it, is the
/// first mismatch.
pub proof fn lemma_first_mismatch(
    cores: Seq<CpuMetricsView>,
    snap: Seq<snapshot::CpuMetrics>,
    from: int,
    k: int,
)
    requires
        0 <= from <= k <= cores.len(),
        cores.len() <= snap.len(),
        k < cores.len() ==> cores[k].id != snap[k].id,
        forall|m: int| from <= m < k ==> cores[m].id == snap[m].id,
    ensures
        mismatch_from(cores, snap, from) == k,
    decreases k - from,
{
    if from < k {
        lemma_first_mismatch(cores, snap, from + 1, k);
    }
}

/// One sample.
#[derive(Debug, Clone, PartialEq, Eq)]
pub struct Metrics {
    /// Efficiency clusters.
    pub e_clusters: Vec<ClusterMetrics>,
    /// Performance clusters.
    pub p_clusters: Vec<ClusterMetrics>,
    /// The GPU.
    pub gpu: GpuMetrics,
    /// Power drawn by the CPU, the GPU, the neural engine and the package.
    pub consumption: PowerConsumption,
    /// Memory and swap; all 0 until a snapshot is merged in.
    pub memory: MemoryMetrics,
    /// Thermal pressure, as the sampler words it.
    pub thermal_pressure: String,
}

/// What a sample is, mathematically.
pub struct MetricsView {
    pub e_clusters: Seq<ClusterMetricsView>,
    pub p_clusters: Seq<ClusterMetricsView>,
    pub gpu: GpuMetricsView,
    pub consumption: PowerConsumption,
    pub memory: MemoryMetrics,
    pub thermal_pressure: Seq<char>,
}

impl MetricsView {
    /// The sample that a decoded document gives: the clusters sorted by the
    /// initial of their name into efficiency ("E") and performance ("P")
    /// clusters, the energies turned into mean power over the period, the
    /// package power and the thermal pressure taken over, no memory figures.
    pub open spec fn of(d: decoded::MetricsView) -> MetricsView
        recommends
            d.elapsed_ns > 0,
    {
        MetricsView {
            e_clusters: clusters_of(d.clusters, 'E'),
            p_clusters: clusters_of(d.clusters, 'P'),
            gpu: GpuMetricsView::of(d.gpu),
            consumption: PowerConsumption {
                cpu_mw: spec_power_mw(d.cpu_mj, d.elapsed_ns),
                gpu_mw: spec_power_mw(d.gpu_mj, d.elapsed_ns),
                ane_mw: spec_power_mw(d.ane_mj as u32, d.elapsed_ns),
                package_mw: d.package_mw,
            },
            memory: MemoryMetrics { ram_total: 0, ram_used: 0, swap_total: 0, swap_used: 0 },
            thermal_pressure: d.thermal_pressure,
        }
    }
}

impl MetricsView {
    /// The cores of the sample in the order of the walk: the efficiency
    /// clusters first, then the performance clusters.
    pub open spec fn cores(self) -> Seq<CpuMetricsView> {
        cores_of(self.e_clusters) + cores_of(self.p_clusters)
    }

    /// Total number of cores.
    pub open spec fn num_cpus(self) -> nat {
        self.cores().len()
    }

    /// The snapshot lists as many cores as the sample, with the same
    /// identifiers at the same positions of the walk.
    pub open spec fn aligned(self, snap: Seq<snapshot::CpuMetrics>) -> bool {
        &&& self.cores().len() == snap.len()
        &&& forall|k: int| 0 <= k < snap.len() ==> self.cores()[k].id == snap[k].id
    }

    /// How a snapshot that is not aligned differs: in the number of cores
    /// (that of the sample capped at the largest machine word), or else in
    /// the identifiers at the first position where they differ.
    pub open spec fn misalignment(self, snap: Seq<snapshot::CpuMetrics>) -> Misalignment {
        if self.cores().len() != snap.len() {
            Misalignment::CoreCount {
                decoded_count: if self.cores().len() > usize::MAX {
                    usize::MAX
                } else {
                    self.cores().len() as usize
                },
                snapshot_count: snap.len() as usize,
            }
        } else {
            let k = mismatch_from(self.cores(), snap, 0);
            Misalignment::CoreId { decoded_id: self.cores()[k].id, snapshot_id: snap[k].id }
        }
    }

    /// The sample with the active share of every core replaced: the core at
    /// position `k` of the walk gets `ratios[k]`. Nothing else changes.
    pub open spec fn rated(self, ratios: Seq<u64>) -> MetricsView {
        MetricsView {
            e_clusters: rated_clusters(self.e_clusters, ratios),
            p_clusters: rated_clusters(
                self.p_clusters,
                ratios.skip(cores_of(self.e_clusters).len() as int),
            ),
            ..self
        }
    }

    /// The sample after the merge with an aligned snapshot: the active
    /// shares and the memory figures are the snapshot's.
    pub open spec fn merged(
        self,
        snap: Seq<snapshot::CpuMetrics>,
        memory: MemoryMetrics,
    ) -> MetricsView {
        MetricsView { memory, ..self.rated(ratios_of(snap)) }
    }

    /// The two ways in which a snapshot fails to be aligned. A snapshot with
    /// another number of cores is reported by the two numbers, whatever its
    /// identifiers are. A snapshot with the same number of cores whose
    /// identifiers agree before position `k` and differ there is reported by
    /// the two identifiers at `k`.
    pub proof fn lemma_misalignment_cases(self, snap: Seq<snapshot::CpuMetrics>, k: int)
        requires
            self.num_cpus() <= usize::MAX,
        ensures
            self.num_cpus() != snap.len() ==> !self.aligned(snap) && self.misalignment(snap) == (
            Misalignment::CoreCount {
                decoded_count: self.num_cpus() as usize,
                snapshot_count: snap.len() as usize,
            }),
            (self.num_cpus() == snap.len() && 0 <= k < snap.len() && self.cores()[k].id
                != snap[k].id && forall|m: int| 0 <= m < k ==> self.cores()[m].id == snap[m].id)
                ==> !self.aligned(snap) && self.misalignment(snap) == (Misalignment::CoreId {
                decoded_id: self.cores()[k].id,
                snapshot_id: snap[k].id,
            }),
    {
        if self.num_cpus() == snap.len() && 0 <= k < snap.len() && self.cores()[k].id
            != snap[k].id && forall|m: int| 0 <= m < k ==> self.cores()[m].id == snap[m].id {
            lemma_first_mismatch(self.cores(), snap, 0, k);
        }
    }

    /// After the active shares were replaced, the core at position `k` of
    /// the walk is the old one with the share `ratios[k]`: every core of the
    /// result carries the share given for it and not the one it had.
    pub proof fn lemma_rated_cores(self, ratios: Seq<u64>)
        requires
            self.cores().len() <= ratios.len(),
        ensures
            self.rated(ratios).cores() == Seq::new(
                self.cores().len(),
                |k: int| self.cores()[k].rated(ratios[k]),
            ),
            self.rated(ratios).e_clusters.len() == self.e_clusters.len(),
            self.rated(ratios).p_clusters.len() == self.p_clusters.len(),
    {
        let n = cores_of(self.e_clusters).len() as int;
        lemma_rated_clusters(self.e_clusters, ratios);
        lemma_rated_clusters(self.p_clusters, ratios.skip(n));
        let want = Seq::new(self.cores().len(), |k: int| self.cores()[k].rated(ratios[k]));
        let got = self.rated(ratios).cores();
        assert(got.len() == want.len());
        assert forall|k: int| 0 <= k < want.len() implies got[k] == want[k] by {
            if k >= n {
                assert(got[k] == cores_of(self.rated(ratios).p_clusters)[k - n]);
                assert(ratios.skip(n)[k - n] == ratios[k]);
            }
        }
        assert(got =~= want);
    }

    /// After a merge with an aligned snapshot every core carries the active
    /// share that the snapshot gives for the core of the same identifier at
    /// the same position, and keeps its identifier.
    pub proof fn lemma_merged_takes_snapshot(
        self,
        snap: Seq<snapshot::CpuMetrics>,
        memory: MemoryMetrics,
    )
        requires
            self.aligned(snap),
        ensures
            self.merged(snap, memory).cores().len() == snap.len(),
            forall|k: int|
                0 <= k < snap.len() ==> {
                    &&& (#[trigger] self.merged(snap, memory).cores()[k]).id == snap[k].id
                    &&& self.merged(snap, memory).cores()[k].active_ratio == snap[k].active_ratio
                },
            self.merged(snap, memory).memory == memory,
    {
        self.lemma_rated_cores(ratios_of(snap));
        assert(self.merged(snap, memory).cores() == self.rated(ratios_of(snap)).cores());
    }
}

impl View for Metrics {
    type V = MetricsView;

    open spec fn view(&self) -> MetricsView {
        MetricsView {
            e_clusters: cluster_views(self.e_clusters@),
            p_clusters: cluster_views(self.p_clusters@),
            gpu: self.gpu@,
            consumption: self.consumption,
            memory: self.memory,
            thermal_pressure: self.thermal_pressure@,
        }
    }
}

/// Whether the name begins with the given letter.
fn name_has_initial(name: &str, initial: char) -> (r: bool)
    ensures
        r == has_initial(name@, initial),
{
    name.unicode_len() > 0 && name.get_char(0) == initial
}

/// Number of cores in the clusters.
fn count_cores(clusters: &Vec<ClusterMetrics>) -> (n: usize)
    requires
        cores_of(cluster_views(clusters@)).len() <= usize::MAX,
    ensures
        n == cores_of(cluster_views(clusters@)).len(),
{
    let ghost views = cluster_views(clusters@);
    let mut total: usize = 0;
    let len: usize = clusters.len();
    let mut i: usize = 0;
    while i < len
        invariant
            i <= len,
            len == clusters@.len(),
            views == cluster_views(clusters@),
            cores_of(views).len() <= usize::MAX,
            total == cores_of(views.take(i as int)).len(),
        decreases len - i,
    {
        proof {
            lemma_cluster_span(views, i as int);
            assert(clusters@[i as int]@ == views[i as int]);
        }
        total = total + clusters[i].cpus.len();
        i += 1;
    }
    assert(views.take(len as int) =~= views);
    total
}

/// Number of cores in the clusters, where it is no more than `limit`.
fn count_cores_within(clusters: &Vec<ClusterMetrics>, limit: usize) -> (r: Option<usize>)
    ensures
        match r {
            Some(n) => n == cores_of(cluster_views(clusters@)).len() && n <= limit,
            None => cores_of(cluster_views(clusters@)).len() > limit,
        },
{
    let ghost views = cluster_views(clusters@);
    let mut total: usize = 0;
    let len: usize = clusters.len();
    let mut i: usize = 0;
    while i < len
        invariant
            i <= len,
            len == clusters@.len(),
            views == cluster_views(clusters@),
            total == cores_of(views.take(i as int)).len(),
            total <= limit,
        decreases len - i,
    {
        proof {
            lemma_cluster_span(views, i as int);
            assert(clusters@[i as int]@ == views[i as int]);
        }
        let n: usize = clusters[i].cpus.len();
        if n > limit - total {
            return None;
        }
        total = total + n;
        i += 1;
    }
    assert(views.take(len as int) =~= views);
    Some(total)
}

/// The first position of the walk over `clusters` at which the identifier
/// of the core differs from that of the snapshot entry `start` places
/// further on, with the identifier of that core.
fn find_mismatch(clusters: &Vec<ClusterMetrics>, snap: &[snapshot::CpuMetrics], start: usize) -> (r:
    Option<(usize, u16)>)
    requires
        start + cores_of(cluster_views(clusters@)).len() <= snap@.len(),
    ensures
        match r {
            Some((k, id)) => {
                &&& k < cores_of(cluster_views(clusters@)).len()
                &&& id == cores_of(cluster_views(clusters@))[k as int].id
                &&& id != snap@[start + k].id
                &&& forall|m: int|
                    0 <= m < k ==> cores_of(cluster_views(clusters@))[m].id == snap@[start + m].id
            },
            None => forall|m: int|
                0 <= m < cores_of(cluster_views(clusters@)).len() ==> cores_of(
                    cluster_views(clusters@),
                )[m].id == snap@[start + m].id,
        },
{
    let ghost views = cluster_views(clusters@);
    let ghost cores = cores_of(views);
    let len: usize = clusters.len();
    let limit: usize = snap.len();
    let mut pos: usize = 0;
    let mut i: usize = 0;
    while i < len
        invariant
            i <= len,
            len == clusters@.len(),
            limit == snap@.len(),
            views == cluster_views(clusters@),
            cores == cores_of(views),
            start + cores.len() <= snap@.len(),
            pos == cores_of(views.take(i as int)).len(),
            pos <= cores.len(),
            forall|m: int| 0 <= m < pos ==> cores[m].id == snap@[start + m].id,
        decreases len - i,
    {
        let cluster = &clusters[i];
        let n: usize = cluster.cpus.len();
        proof {
            lemma_cluster_span(views, i as int);
            assert(cluster@ == views[i as int]);
        }
        let mut j: usize = 0;
        while j < n
            invariant
                j <= n,
                n == cluster.cpus@.len(),
                limit == snap@.len(),
                0 <= i < views.len(),
                views == cluster_views(clusters@),
                cluster@ == views[i as int],
                cores == cores_of(views),
                start + cores.len() <= snap@.len(),
                pos + n <= cores.len(),
                forall|m: int| 0 <= m < n ==> cores[pos + m] == #[trigger] cluster@.cpus[m],
                forall|m: int| 0 <= m < pos + j ==> cores[m].id == snap@[start + m].id,
            decreases n - j,
        {
            assert(cluster@.cpus[j as int] == cluster.cpus@[j as int]@);
            assert(cores[pos + j] == cluster@.cpus[j as int]);
            if cluster.cpus[j].id != snap[start + pos + j].id {
                return Some((pos + j, cluster.cpus[j].id));
            }
            j += 1;
        }
        pos = pos + n;
        i += 1;
    }
    assert(views.take(len as int) =~= views);
    None
}

/// The cluster with the active shares of the snapshot entries from `start`
/// on, one entry per core.
fn rate_cluster(cluster: ClusterMetrics, snap: &[snapshot::CpuMetrics], start: usize) -> (r:
    ClusterMetrics)
    requires
        start + cluster.cpus@.len() <= snap@.len(),
    ensures
        r@ == cluster@.rated(ratios_of(snap@).skip(start as int)),
{
    let ghost before = cluster@;
    let ghost all = cluster.cpus@;
    let ghost ratios = ratios_of(snap@).skip(start as int);
    let mut cpus: Vec<CpuMetrics> = Vec::new();
    let limit: usize = snap.len();
    for cpu in it: cluster.cpus
        invariant
            it.seq() == all,
            limit == snap@.len(),
            start + all.len() <= snap@.len(),
            ratios == ratios_of(snap@).skip(start as int),
            cpus@.len() == it.index(),
            forall|j: int| 0 <= j < cpus@.len() ==> cpus@[j]@ == all[j]@.rated(ratios[j]),
    {
        assert(it.index() < all.len());
        let at: usize = start + cpus.len();
        cpus.push(
            CpuMetrics {
                id: cpu.id,
                freq_hz: cpu.freq_hz,
                active_ratio: snap[at].active_ratio,
                dvfm_states: cpu.dvfm_states,
            },
        );
    }
    let r = ClusterMetrics {
        name: cluster.name,
        freq_hz: cluster.freq_hz,
        dvfm_states: cluster.dvfm_states,
        cpus,
    };
    assert(r@.cpus =~= before.rated(ratios).cpus);
    r
}

/// The clusters with the active shares of the snapshot entries from
/// `start` on, one entry per core of the walk.
fn rate_clusters(clusters: Vec<ClusterMetrics>, snap: &[snapshot::CpuMetrics], start: usize) -> (r:
    Vec<ClusterMetrics>)
    requires
        start + cores_of(cluster_views(clusters@)).len() <= snap@.len(),
    ensures
        cluster_views(r@) == rated_clusters(
            cluster_views(clusters@),
            ratios_of(snap@).skip(start as int),
        ),
{
    let ghost all = clusters@;
    let ghost views = cluster_views(clusters@);
    let ghost ratios = ratios_of(snap@).skip(start as int);
    let mut out: Vec<ClusterMetrics> = Vec::new();
    let limit: usize = snap.len();
    let mut pos: usize = 0;
    for cluster in it: clusters
        invariant
            it.seq() == all,
            limit == snap@.len(),
            views == cluster_views(all),
            ratios == ratios_of(snap@).skip(start as int),
            start + cores_of(views).len() <= snap@.len(),
            pos == cores_of(views.take(it.index() as int)).len(),
            cluster_views(out@) == rated_clusters(views.take(it.index() as int), ratios),
    {
        let ghost i = it.index() as int;
        proof {
            assert(i < all.len());
            assert(cluster@ == views[i]);
            lemma_cluster_span(views, i);
            assert(views.take(i + 1).drop_last() =~= views.take(i));
            assert(views.take(i + 1).last() == cluster@);
            assert(ratios.skip(pos as int) =~= ratios_of(snap@).skip(start + pos));
        }
        let ghost out_before = out@;
        let n: usize = cluster.cpus.len();
        let rated = rate_cluster(cluster, snap, start + pos);
        out.push(rated);
        assert(cluster_views(out@) =~= cluster_views(out_before).push(rated@));
        pos = pos + n;
    }
    assert(views.take(views.len() as int) =~= views);
    out
}

impl Metrics {
    /// Whether the total number of cores fits a machine word.
    pub fn is_countable(&self) -> (r: bool)
        ensures
            r == (self@.num_cpus() <= usize::MAX),
    {
        match count_cores_within(&self.e_clusters, usize::MAX) {
            None => false,
            Some(e) => match count_cores_within(&self.p_clusters, usize::MAX - e) {
                None => false,
                Some(_) => true,
            },
        }
    }

    /// Total number of cores of the sample.
    pub fn num_cpus(&self) -> (n: usize)
        requires
            self@.num_cpus() <= usize::MAX,
        ensures
            n == self@.num_cpus(),
    {
        count_cores(&self.e_clusters) + count_cores(&self.p_clusters)
    }

    /// Replaces the active share of every core by the one that the snapshot
    /// gives for it. The snapshot must list as many cores as the sample, and
    /// along the walk over the sample every core must carry the identifier
    /// of the snapshot entry at the same position; otherwise nothing is
    /// merged and the error says how the two differ.
    pub fn set_cpus_active_ratio(self, sysinfo_metrics: &[snapshot::CpuMetrics]) -> (r: Result<
        Self,
        Error,
    >)
        ensures
            match r {
                Ok(m) => self@.aligned(sysinfo_metrics@) && m@ == self@.rated(
                    ratios_of(sysinfo_metrics@),
                ),
                Err(e) => !self@.aligned(sysinfo_metrics@) && e == Error::MisalignedCpuId(
                    self@.misalignment(sysinfo_metrics@),
                ),
            },
    {
        let ghost snap = sysinfo_metrics@;
        let ghost cores = self@.cores();
        let snapshot_count: usize = sysinfo_metrics.len();
        let counted: Option<(usize, usize)> = match count_cores_within(
            &self.e_clusters,
            usize::MAX,
        ) {
            None => None,
            Some(e) => match count_cores_within(&self.p_clusters, usize::MAX - e) {
                None => None,
                Some(p) => Some((e, p)),
            },
        };
        let (e_count, p_count) = match counted {
            Some((e, p)) if e + p == snapshot_count => (e, p),
            Some((e, p)) => {
                return Err(
                    Error::MisalignedCpuId(
                        Misalignment::CoreCount { decoded_count: e + p, snapshot_count },
                    ),
                );
            },
            None => {
                return Err(
                    Error::MisalignedCpuId(
                        Misalignment::CoreCount { decoded_count: usize::MAX, snapshot_count },
                    ),
                );
            },
        };
        match find_mismatch(&self.e_clusters, sysinfo_metrics, 0) {
            Some((k, decoded_id)) => {
                proof {
                    lemma_first_mismatch(cores, snap, 0, k as int);
                }
                return Err(
                    Error::MisalignedCpuId(
                        Misalignment::CoreId { decoded_id, snapshot_id: sysinfo_metrics[k].id },
                    ),
                );
            },
            None => {},
        }
        match find_mismatch(&self.p_clusters, sysinfo_metrics, e_count) {
            Some((k, decoded_id)) => {
                proof {
                    lemma_first_mismatch(cores, snap, 0, e_count + k);
                }
                return Err(
                    Error::MisalignedCpuId(
                        Misalignment::CoreId {
                            decoded_id,
                            snapshot_id: sysinfo_metrics[e_count + k].id,
                        },
                    ),
                );
            },
            None => {},
        }
        let e_clusters = rate_clusters(self.e_clusters, sysinfo_metrics, 0);
        let p_clusters = rate_clusters(self.p_clusters, sysinfo_metrics, e_count);
        assert(ratios_of(snap).skip(0) =~= ratios_of(snap));
        Ok(
            Self {
                e_clusters,
                p_clusters,
                gpu: self.gpu,
                consumption: self.consumption,
                memory: self.memory,
                thermal_pressure: self.thermal_pressure,
            },
        )
    }

    /// Merges a snapshot into the sample: the active share of every core and
    /// the memory figures become the snapshot's. Fails, merging nothing,
    /// where the snapshot is not aligned with the sample.
    pub fn merge_sysinfo_metrics(self, sysinfo_metrics: snapshot::Metrics) -> (r: Result<
        Self,
        Error,
    >)
        ensures
            match r {
                Ok(m) => self@.aligned(sysinfo_metrics.cpu_metrics@) && m@ == self@.merged(
                    sysinfo_metrics.cpu_metrics@,
                    sysinfo_metrics.memory_metrics,
                ),
                Err(e) => !self@.aligned(sysinfo_metrics.cpu_metrics@) && e
                    == Error::MisalignedCpuId(self@.misalignment(sysinfo_metrics.cpu_metrics@)),
            },
    {
        match self.set_cpus_active_ratio(sysinfo_metrics.cpu_metrics.as_slice()) {
            Ok(m) => {
                let mut m = m;
                m.memory = sysinfo_metrics.memory_metrics;
                Ok(m)
            },
            Err(e) => Err(e),
        }
    }

    /// Converts a decoded document.
    pub fn from_decoded(value: decoded::Metrics) -> (r: Self)
        requires
            value.elapsed_ns > 0,
        ensures
            r@ == MetricsView::of(value@),
    {
        let ghost all = value.processor.clusters@;
        let ghost views = value@.clusters;
        let mut e_clusters: Vec<ClusterMetrics> = Vec::new();
        let mut p_clusters: Vec<ClusterMetrics> = Vec::new();
        for cluster in it: value.processor.clusters
            invariant
                it.seq() == all,
                views == all.map_values(|c: decoded::ClusterMetrics| c@),
                cluster_views(e_clusters@) == clusters_of(views.take(it.index() as int), 'E'),
                cluster_views(p_clusters@) == clusters_of(views.take(it.index() as int), 'P'),
        {
            proof {
                let i = it.index() as int;
                assert(views.take(i + 1).drop_last() =~= views.take(i));
                assert(views.take(i + 1).last() == cluster@);
            }
            let ghost e_before = e_clusters@;
            let ghost p_before = p_clusters@;
            if name_has_initial(cluster.name.as_str(), 'E') {
                e_clusters.push(ClusterMetrics::from_decoded(cluster));
                assert(cluster_views(e_clusters@) =~= cluster_views(e_before).push(
                    e_clusters@.last()@,
                ));
            } else if name_has_initial(cluster.name.as_str(), 'P') {
                p_clusters.push(ClusterMetrics::from_decoded(cluster));
                assert(cluster_views(p_clusters@) =~= cluster_views(p_before).push(
                    p_clusters@.last()@,
                ));
            }
        }
        assert(views.take(views.len() as int) =~= views);
        let elapsed_ns: u64 = value.elapsed_ns;
        Self {
            e_clusters,
            p_clusters,
            gpu: GpuMetrics::from_decoded(value.gpu),
            consumption: PowerConsumption {
                cpu_mw: power_mw(value.processor.cpu_mj, elapsed_ns),
                gpu_mw: power_mw(value.processor.gpu_mj, elapsed_ns),
                ane_mw: power_mw(value.processor.ane_mj as u32, elapsed_ns),
                package_mw: value.processor.package_mw,
            },
            memory: MemoryMetrics { ram_total: 0, ram_used: 0, swap_total: 0, swap_used: 0 },
            thermal_pressure: value.thermal_pressure,
        }
    }
}

} // verus!
