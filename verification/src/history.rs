//! The history store: one bounded series per charted quantity.

use vstd::prelude::*;
use std::collections::HashMap;
use vstd::std_specs::hash::*;
use crate::metric_key::{ClusterId, ClusterKind, MetricKey};
use crate::metrics::{
    cluster_views, max_frequency_of, mean_active, range_ratio, ClusterMetrics, ClusterMetricsView,
    CpuMetrics, CpuMetricsView, Metrics, MetricsView,
};
use crate::signal::{Series, Signal};
use crate::soc::{SocInfo, SocInfoView};
use crate::units::{capped, percent, percent_of, spec_percent, spec_percent_of, PERCENT_FULL};

verus! {

/// The store after one reading: the series of the key, made empty with the
/// store's capacity and the given nominal maximum if the key is new, takes
/// the reading; every other series stays as it is.
pub open spec fn recorded(
    history: Map<MetricKey, Series>,
    capacity: nat,
    key: MetricKey,
    value: u64,
    nominal_max: u64,
) -> Map<MetricKey, Series> {
    let before = if history.contains_key(key) {
        history[key]
    } else {
        Series::fresh(capacity, nominal_max)
    };
    history.insert(key, before.pushed(value))
}

/// One reading of one quantity, with the nominal maximum of the quantity.
#[derive(Debug, Clone, Copy, PartialEq, Eq, Structural)]
pub struct Reading {
    pub key: MetricKey,
    pub value: u64,
    pub nominal_max: u64,
}

/// The store after the readings were recorded one by one.
pub open spec fn recorded_all(
    history: Map<MetricKey, Series>,
    capacity: nat,
    readings: Seq<Reading>,
) -> Map<MetricKey, Series>
    decreases readings.len(),
{
    if readings.len() == 0 {
        history
    } else {
        let last = readings.last();
        recorded(
            recorded_all(history, capacity, readings.drop_last()),
            capacity,
            last.key,
            last.value,
            last.nominal_max,
        )
    }
}

/// The two readings of a core: its active share and the place of its
/// frequency in the range of its states, both in thousandths of a percent.
pub open spec fn core_readings(c: CpuMetricsView) -> Seq<Reading> {
    seq![
        Reading {
            key: MetricKey::CpuActivePercent(c.id),
            value: spec_percent(c.active_ratio),
            nominal_max: PERCENT_FULL,
        },
        Reading {
            key: MetricKey::CpuFreqPercent(c.id),
            value: spec_percent(range_ratio(c.freq_hz, c.dvfm_states)),
            nominal_max: PERCENT_FULL,
        },
    ]
}

/// The readings of the cores, core by core.
pub open spec fn cores_readings(cpus: Seq<CpuMetricsView>) -> Seq<Reading>
    decreases cpus.len(),
{
    if cpus.len() == 0 {
        Seq::empty()
    } else {
        cores_readings(cpus.drop_last()) + core_readings(cpus.last())
    }
}

/// The readings of a cluster: its active share, the mean of its cores',
/// then the readings of its cores.
pub open spec fn cluster_readings(c: ClusterMetricsView, id: ClusterId) -> Seq<Reading> {
    seq![
        Reading {
            key: MetricKey::ClusterActivePercent(id),
            value: spec_percent(mean_active(c.cpus) as u64),
            nominal_max: PERCENT_FULL,
        },
    ] + cores_readings(c.cpus)
}

/// The readings of the clusters of one kind, cluster by cluster; a cluster
/// is named by its kind and its position in the list.
pub open spec fn clusters_readings(clusters: Seq<ClusterMetricsView>, kind: ClusterKind) -> Seq<
    Reading,
>
    decreases clusters.len(),
{
    if clusters.len() == 0 {
        Seq::empty()
    } else {
        clusters_readings(clusters.drop_last(), kind) + cluster_readings(
            clusters.last(),
            ClusterId { kind, index: (clusters.len() - 1) as u8 },
        )
    }
}

/// The readings of the GPU, the neural engine, the power channels and the
/// memory channels, in the order in which they are recorded. The activity of
/// the neural engine is its power as a share of its ceiling.
pub open spec fn device_readings(m: MetricsView, soc: SocInfoView) -> Seq<Reading> {
    seq![
        Reading {
            key: MetricKey::GpuActivePercent,
            value: spec_percent(m.gpu.active_ratio),
            nominal_max: PERCENT_FULL,
        },
        Reading {
            key: MetricKey::GpuFreqPercent,
            value: spec_percent(range_ratio(m.gpu.freq_hz, m.gpu.dvfm_states)),
            nominal_max: PERCENT_FULL,
        },
        Reading {
            key: MetricKey::AneActivePercent,
            value: capped(spec_percent_of(m.consumption.ane_mw, soc.max_ane_mw)),
            nominal_max: PERCENT_FULL,
        },
        Reading {
            key: MetricKey::CpuPowerW,
            value: m.consumption.cpu_mw,
            nominal_max: soc.max_cpu_mw,
        },
        Reading {
            key: MetricKey::GpuPowerW,
            value: m.consumption.gpu_mw,
            nominal_max: soc.max_gpu_mw,
        },
        Reading {
            key: MetricKey::AnePowerW,
            value: m.consumption.ane_mw,
            nominal_max: soc.max_ane_mw,
        },
        Reading {
            key: MetricKey::PackagePowerW,
            value: m.consumption.package_mw,
            nominal_max: soc.max_package_mw,
        },
        Reading {
            key: MetricKey::RamUsageBytes,
            value: m.memory.ram_used,
            nominal_max: m.memory.ram_total,
        },
        Reading {
            key: MetricKey::SwapUsageBytes,
            value: m.memory.swap_used,
            nominal_max: m.memory.swap_total,
        },
    ]
}

/// All readings that one sample gives, in the order in which they are
/// recorded: efficiency clusters, performance clusters, then the rest.
pub open spec fn sample_readings(m: MetricsView, soc: SocInfoView) -> Seq<Reading> {
    clusters_readings(m.e_clusters, ClusterKind::Efficiency) + clusters_readings(
        m.p_clusters,
        ClusterKind::Performance,
    ) + device_readings(m, soc)
}

/// Every cluster of the list has a core, and every core has a state with a
/// frequency above 0.
pub open spec fn clusters_chartable(clusters: Seq<ClusterMetricsView>) -> bool {
    &&& clusters.len() <= 256
    &&& forall|i: int| 0 <= i < clusters.len() ==> (#[trigger] clusters[i]).cpus.len() > 0
    &&& forall|i: int, j: int|
        0 <= i < clusters.len() && 0 <= j < clusters[i].cpus.len() ==> (
        #[trigger] clusters[i].cpus[j]).ranged()
}

/// The sample can be charted: there are at most 256 clusters of each kind,
/// every cluster has a core, and every core and the GPU have a state with a
/// frequency above 0.
pub open spec fn chartable(m: MetricsView) -> bool {
    &&& clusters_chartable(m.e_clusters)
    &&& clusters_chartable(m.p_clusters)
    &&& m.gpu.ranged()
}

/// Whether the clusters of the list can be charted.
pub fn clusters_are_chartable(clusters: &Vec<ClusterMetrics>) -> (b: bool)
    ensures
        b == clusters_chartable(cluster_views(clusters@)),
{
    let ghost views = cluster_views(clusters@);
    let n: usize = clusters.len();
    if n > 256 {
        return false;
    }
    let mut i: usize = 0;
    while i < n
        invariant
            i <= n,
            n == clusters@.len(),
            n <= 256,
            views == cluster_views(clusters@),
            forall|a: int| 0 <= a < i ==> (#[trigger] views[a]).cpus.len() > 0,
            forall|a: int, j: int|
                0 <= a < i && 0 <= j < views[a].cpus.len() ==> (#[trigger] views[a].cpus[j]).ranged(),
        decreases n - i,
    {
        let cluster = &clusters[i];
        assert(cluster@ == views[i as int]);
        let m: usize = cluster.cpus.len();
        if m == 0 {
            return false;
        }
        let mut j: usize = 0;
        while j < m
            invariant
                j <= m,
                m == cluster.cpus@.len(),
                0 <= i < views.len(),
                views == cluster_views(clusters@),
                cluster@ == views[i as int],
                forall|b: int| 0 <= b < j ==> (#[trigger] views[i as int].cpus[b]).ranged(),
            decreases m - j,
        {
            assert(views[i as int].cpus[j as int] == cluster.cpus@[j as int]@);
            if max_frequency_of(&cluster.cpus[j].dvfm_states) == 0 {
                assert(!views[i as int].cpus[j as int].ranged());
                return false;
            }
            j += 1;
        }
        i += 1;
    }
    true
}

/// Whether the sample can be charted.
pub fn is_chartable(metrics: &Metrics) -> (b: bool)
    ensures
        b == chartable(metrics@),
{
    clusters_are_chartable(&metrics.e_clusters) && clusters_are_chartable(&metrics.p_clusters)
        && max_frequency_of(&metrics.gpu.dvfm_states) > 0
}

/// Recording readings one after the other is recording them all.
pub proof fn lemma_recorded_all_append(
    history: Map<MetricKey, Series>,
    capacity: nat,
    first: Seq<Reading>,
    second: Seq<Reading>,
)
    ensures
        recorded_all(history, capacity, first + second) == recorded_all(
            recorded_all(history, capacity, first),
            capacity,
            second,
        ),
    decreases second.len(),
{
    if second.len() == 0 {
        assert(first + second =~= first);
    } else {
        lemma_recorded_all_append(history, capacity, first, second.drop_last());
        assert((first + second).drop_last() =~= first + second.drop_last());
    }
}

/// Recording one more reading after a run of readings.
pub proof fn lemma_recorded_all_push(
    history: Map<MetricKey, Series>,
    capacity: nat,
    readings: Seq<Reading>,
    next: Reading,
)
    ensures
        recorded_all(history, capacity, readings.push(next)) == recorded(
            recorded_all(history, capacity, readings),
            capacity,
            next.key,
            next.value,
            next.nominal_max,
        ),
{
    assert(readings.push(next).drop_last() =~= readings);
}

/// The series of all charted quantities, by key.
pub struct History {
    capacity: usize,
    series: HashMap<u64, Signal>,
}

impl View for History {
    type V = Map<MetricKey, Series>;

    closed spec fn view(&self) -> Map<MetricKey, Series> {
        Map::new(
            |k: MetricKey| self.series@.contains_key(k.spec_code()),
            |k: MetricKey| self.series@[k.spec_code()]@,
        )
    }
}

impl History {
    /// The capacity that every new series gets.
    pub closed spec fn spec_capacity(&self) -> nat {
        self.capacity as nat
    }

    /// An empty store whose series will hold `capacity` readings each.
    pub fn new(capacity: usize) -> (r: Self)
        ensures
            r@ == Map::<MetricKey, Series>::empty(),
            r.spec_capacity() == capacity,
    {
        let r = History { capacity, series: HashMap::new() };
        assert(r@ =~= Map::<MetricKey, Series>::empty());
        r
    }

    /// The capacity that every new series gets.
    pub fn capacity(&self) -> (r: usize)
        ensures
            r == self.spec_capacity(),
    {
        self.capacity
    }

    /// Records one reading of the quantity `key`.
    pub fn record(&mut self, key: MetricKey, value: u64, nominal_max: u64)
        ensures
            final(self)@ == recorded(
                old(self)@,
                old(self).spec_capacity(),
                key,
                value,
                nominal_max,
            ),
            final(self).spec_capacity() == old(self).spec_capacity(),
    {
        broadcast use group_hash_axioms;

        let code: u64 = key.code();
        let capacity: usize = self.capacity;
        self.series.entry(code).or_insert(Signal::with_capacity(capacity, nominal_max)).push(value);
        proof {
            let want = recorded(old(self)@, old(self).spec_capacity(), key, value, nominal_max);
            assert forall|k: MetricKey| self@.contains_key(k) == want.contains_key(k) by {
                MetricKey::lemma_code_injective(k, key);
            }
            assert forall|k: MetricKey| self@.contains_key(k) implies self@[k] == want[k] by {
                MetricKey::lemma_code_injective(k, key);
            }
            assert(self@ =~= want);
        }
    }

    /// The series of the quantity `key`, if a reading of it was recorded.
    pub fn get(&self, key: &MetricKey) -> (r: Option<&Signal>)
        ensures
            match r {
                Some(s) => self@.contains_key(*key) && s@ == self@[*key] && s@.bounded(),
                None => !self@.contains_key(*key),
            },
    {
        broadcast use group_hash_axioms;

        let code: u64 = key.code();
        let r = self.series.get(&code);
        match r {
            Some(s) => {
                let _ = s.len();
            },
            None => {},
        }
        r
    }

    /// The last `n` readings of the quantity `key`, oldest first: all that
    /// are kept where they are fewer than `n`, none for a key without
    /// readings.
    pub fn window(&self, key: &MetricKey, n: usize) -> (r: Vec<u64>)
        ensures
            r@ == if self@.contains_key(*key) {
                self@[*key].window(n as nat)
            } else {
                Seq::<u64>::empty()
            },
    {
        match self.get(key) {
            Some(s) => s.as_slice_last_n(n),
            None => Vec::new(),
        }
    }

    /// The highest reading of the quantity `key` so far, 0 for a key without
    /// readings.
    pub fn peak(&self, key: &MetricKey) -> (r: u64)
        ensures
            r == if self@.contains_key(*key) {
                self@[*key].peak
            } else {
                0
            },
    {
        match self.get(key) {
            Some(s) => s.peak(),
            None => 0,
        }
    }

    /// Records the two readings of every core of the list.
    fn record_cores(&mut self, cpus: &Vec<CpuMetrics>)
        requires
            forall|j: int| 0 <= j < cpus@.len() ==> (#[trigger] cpus@[j])@.ranged(),
        ensures
            final(self)@ == recorded_all(
                old(self)@,
                old(self).spec_capacity(),
                cores_readings(cpus@.map_values(|c: CpuMetrics| c@)),
            ),
            final(self).spec_capacity() == old(self).spec_capacity(),
    {
        let ghost views = cpus@.map_values(|c: CpuMetrics| c@);
        let ghost start = self@;
        let ghost capacity = self.spec_capacity();
        let n: usize = cpus.len();
        let mut j: usize = 0;
        while j < n
            invariant
                j <= n,
                n == cpus@.len(),
                views == cpus@.map_values(|c: CpuMetrics| c@),
                forall|j: int| 0 <= j < cpus@.len() ==> (#[trigger] cpus@[j])@.ranged(),
                self.spec_capacity() == capacity,
                self@ == recorded_all(start, capacity, cores_readings(views.take(j as int))),
            decreases n - j,
        {
            let cpu = &cpus[j];
            let ghost done = cores_readings(views.take(j as int));
            let ghost first = core_readings(cpu@)[0];
            let ghost second = core_readings(cpu@)[1];
            proof {
                assert(cpus@[j as int]@.ranged());
                assert(views.take(j + 1).drop_last() =~= views.take(j as int));
                assert(views.take(j + 1).last() == cpu@);
                assert(cores_readings(views.take(j + 1)) =~= done.push(first).push(second));
                lemma_recorded_all_push(start, capacity, done, first);
                lemma_recorded_all_push(start, capacity, done.push(first), second);
            }
            self.record(MetricKey::CpuActivePercent(cpu.id), percent(cpu.active_ratio), PERCENT_FULL);
            self.record(MetricKey::CpuFreqPercent(cpu.id), percent(cpu.freq_ratio()), PERCENT_FULL);
            j += 1;
        }
        assert(views.take(n as int) =~= views);
    }

    /// Records the readings of every cluster of the list, which holds the
    /// clusters of the given kind.
    fn record_clusters(&mut self, clusters: &Vec<ClusterMetrics>, kind: ClusterKind)
        requires
            clusters_chartable(cluster_views(clusters@)),
        ensures
            final(self)@ == recorded_all(
                old(self)@,
                old(self).spec_capacity(),
                clusters_readings(cluster_views(clusters@), kind),
            ),
            final(self).spec_capacity() == old(self).spec_capacity(),
    {
        let ghost views = cluster_views(clusters@);
        let ghost start = self@;
        let ghost capacity = self.spec_capacity();
        let n: usize = clusters.len();
        let mut i: usize = 0;
        while i < n
            invariant
                i <= n,
                n == clusters@.len(),
                n <= 256,
                views == cluster_views(clusters@),
                clusters_chartable(views),
                self.spec_capacity() == capacity,
                self@ == recorded_all(start, capacity, clusters_readings(views.take(i as int), kind)),
            decreases n - i,
        {
            let cluster = &clusters[i];
            let id = ClusterId { kind, index: i as u8 };
            let ghost done = clusters_readings(views.take(i as int), kind);
            let ghost head = cluster_readings(cluster@, id)[0];
            proof {
                assert(cluster@ == views[i as int]);
                assert(views[i as int].cpus.len() > 0);
                assert forall|j: int| 0 <= j < cluster.cpus@.len() implies (
                #[trigger] cluster.cpus@[j])@.ranged() by {
                    assert(views[i as int].cpus[j].ranged());
                }
                assert(views.take(i + 1).drop_last() =~= views.take(i as int));
                assert(views.take(i + 1).last() == cluster@);
                assert(clusters_readings(views.take(i + 1), kind) =~= done.push(head)
                    + cores_readings(cluster@.cpus));
                lemma_recorded_all_push(start, capacity, done, head);
                lemma_recorded_all_append(
                    start,
                    capacity,
                    done.push(head),
                    cores_readings(cluster@.cpus),
                );
            }
            self.record(
                MetricKey::ClusterActivePercent(id),
                percent(cluster.active_ratio()),
                PERCENT_FULL,
            );
            self.record_cores(&cluster.cpus);
            i += 1;
        }
        assert(views.take(n as int) =~= views);
    }

    /// Records every reading that the sample gives: for each cluster its
    /// active share and the two readings of each of its cores, then the GPU,
    /// the neural engine, the four power channels, memory and swap.
    pub fn update(&mut self, metrics: &Metrics, soc: &SocInfo)
        requires
            chartable(metrics@),
            soc.max_ane_mw > 0,
        ensures
            final(self)@ == recorded_all(
                old(self)@,
                old(self).spec_capacity(),
                sample_readings(metrics@, soc@),
            ),
            final(self).spec_capacity() == old(self).spec_capacity(),
    {
        let ghost start = self@;
        let ghost capacity = self.spec_capacity();
        let ghost e = clusters_readings(metrics@.e_clusters, ClusterKind::Efficiency);
        let ghost p = clusters_readings(metrics@.p_clusters, ClusterKind::Performance);
        let ghost d = device_readings(metrics@, soc@);
        self.record_clusters(&metrics.e_clusters, ClusterKind::Efficiency);
        self.record_clusters(&metrics.p_clusters, ClusterKind::Performance);
        let ghost mid = self@;
        proof {
            lemma_recorded_all_append(start, capacity, e, p);
            assert(mid == recorded_all(start, capacity, e + p));
        }
        self.record(MetricKey::GpuActivePercent, percent(metrics.gpu.active_ratio), PERCENT_FULL);
        self.record(MetricKey::GpuFreqPercent, percent(metrics.gpu.freq_ratio()), PERCENT_FULL);
        self.record(
            MetricKey::AneActivePercent,
            percent_of(metrics.consumption.ane_mw, soc.max_ane_mw),
            PERCENT_FULL,
        );
        self.record(MetricKey::CpuPowerW, metrics.consumption.cpu_mw, soc.max_cpu_mw);
        self.record(MetricKey::GpuPowerW, metrics.consumption.gpu_mw, soc.max_gpu_mw);
        self.record(MetricKey::AnePowerW, metrics.consumption.ane_mw, soc.max_ane_mw);
        self.record(MetricKey::PackagePowerW, metrics.consumption.package_mw, soc.max_package_mw);
        self.record(MetricKey::RamUsageBytes, metrics.memory.ram_used, metrics.memory.ram_total);
        self.record(MetricKey::SwapUsageBytes, metrics.memory.swap_used, metrics.memory.swap_total);
        proof {
            let d0 = Seq::<Reading>::empty();
            let d1 = d0.push(d[0]);
            let d2 = d1.push(d[1]);
            let d3 = d2.push(d[2]);
            let d4 = d3.push(d[3]);
            let d5 = d4.push(d[4]);
            let d6 = d5.push(d[5]);
            let d7 = d6.push(d[6]);
            let d8 = d7.push(d[7]);
            let d9 = d8.push(d[8]);
            lemma_recorded_all_push(mid, capacity, d0, d[0]);
            lemma_recorded_all_push(mid, capacity, d1, d[1]);
            lemma_recorded_all_push(mid, capacity, d2, d[2]);
            lemma_recorded_all_push(mid, capacity, d3, d[3]);
            lemma_recorded_all_push(mid, capacity, d4, d[4]);
            lemma_recorded_all_push(mid, capacity, d5, d[5]);
            lemma_recorded_all_push(mid, capacity, d6, d[6]);
            lemma_recorded_all_push(mid, capacity, d7, d[7]);
            lemma_recorded_all_push(mid, capacity, d8, d[8]);
            assert(d9 =~= d);
            lemma_recorded_all_append(start, capacity, e + p, d);
        }
    }
}

} // verus!
