use pumas::decoded;
use pumas::decoded::DvfmState;
use pumas::history::{clusters_are_chartable, is_chartable, History};
use pumas::metric_key::{ClusterId, ClusterKind, MetricKey};
use pumas::metrics::Metrics;
use pumas::snapshot;
use pumas::snapshot::MemoryMetrics;
use pumas::soc::SocInfo;

fn states(freqs: &[u16]) -> Vec<DvfmState> {
    freqs
        .iter()
        .map(|f| DvfmState { freq_mhz: *f, active_ratio: 0 })
        .collect()
}

fn raw_cpu(id: u16, freq_hz: u64, idle_ratio: u64) -> decoded::Cpu {
    decoded::Cpu { cpu_id: id, freq_hz, idle_ratio, dvfm_states: states(&[600, 972, 2064]) }
}

fn document() -> decoded::Metrics {
    decoded::Metrics {
        elapsed_ns: 1_000_000_000,
        processor: decoded::ProcessorMetrics {
            clusters: vec![
                decoded::ClusterMetrics {
                    name: "E-Cluster".to_string(),
                    freq_hz: 1_000_000_000,
                    dvfm_states: states(&[600, 2064]),
                    cpus: vec![raw_cpu(0, 1_046_150_000, 0), raw_cpu(1, 600_000_000, 0)],
                },
                decoded::ClusterMetrics {
                    name: "P0-Cluster".to_string(),
                    freq_hz: 2_000_000_000,
                    dvfm_states: states(&[600, 2064]),
                    cpus: vec![raw_cpu(2, 2_064_000_000, 0)],
                },
                decoded::ClusterMetrics {
                    name: "P1-Cluster".to_string(),
                    freq_hz: 2_000_000_000,
                    dvfm_states: states(&[600, 2064]),
                    cpus: vec![raw_cpu(3, 0, 0)],
                },
            ],
            ane_mj: 3000,
            cpu_mj: 4500,
            gpu_mj: 1200,
            package_mw: 8700,
        },
        thermal_pressure: "Nominal".to_string(),
        gpu: decoded::GpuMetrics {
            freq_hz: 714_000_000,
            idle_ratio: 946_000_000,
            dvfm_states: states(&[396, 1278]),
        },
    }
}

fn sample(ratios: [u64; 4]) -> Metrics {
    let cpu_metrics: Vec<snapshot::CpuMetrics> = ratios
        .iter()
        .enumerate()
        .map(|(k, r)| snapshot::CpuMetrics { id: k as u16, active_ratio: *r })
        .collect();
    Metrics::from_decoded(document())
        .merge_sysinfo_metrics(snapshot::Metrics {
            cpu_metrics,
            memory_metrics: MemoryMetrics {
                ram_total: 17_179_869_184,
                ram_used: 9_000_000_000,
                swap_total: 2_147_483_648,
                swap_used: 1_000,
            },
        })
        .unwrap()
}

fn soc() -> SocInfo {
    SocInfo::from_parts("Apple M1".to_string(), 8, 4, 4, 8)
}

#[test]
fn new_history_is_empty() {
    let history = History::new(7);
    assert_eq!(history.capacity(), 7);
    assert!(history.get(&MetricKey::CpuPowerW).is_none());
    assert_eq!(history.window(&MetricKey::CpuPowerW, 5), Vec::<u64>::new());
    assert_eq!(history.peak(&MetricKey::CpuPowerW), 0);
}

#[test]
fn record_creates_a_series_with_capacity_and_nominal_max() {
    let mut history = History::new(3);
    history.record(MetricKey::GpuPowerW, 12, 20_000);
    let series = history.get(&MetricKey::GpuPowerW).unwrap();
    assert_eq!(series.capacity(), 3);
    assert_eq!(series.max(), 20_000);
    assert_eq!(series.peak(), 12);
    assert_eq!(series.as_slice(), vec![12]);
    assert!(history.get(&MetricKey::CpuPowerW).is_none());
}

#[test]
fn nominal_max_is_fixed_at_creation() {
    let mut history = History::new(3);
    history.record(MetricKey::RamUsageBytes, 1, 100);
    history.record(MetricKey::RamUsageBytes, 2, 999);
    assert_eq!(history.get(&MetricKey::RamUsageBytes).unwrap().max(), 100);
    assert_eq!(history.window(&MetricKey::RamUsageBytes, 10), vec![1, 2]);
}

#[test]
fn history_bounded_fifo_and_peak() {
    let mut history = History::new(3);
    let key = MetricKey::CpuActivePercent(0);
    for v in [1u64, 2, 3, 4] {
        history.record(key, v, 4);
    }
    for _ in 0..10 {
        history.record(key, 0, 4);
    }
    history.record(key, 1, 4);
    history.record(key, 1, 4);
    history.record(key, 0, 4);
    assert_eq!(history.window(&key, 3), vec![1, 1, 0]);
    assert_eq!(history.window(&key, 100), vec![1, 1, 0]);
    assert_eq!(history.peak(&key), 4);
    assert_eq!(history.get(&key).unwrap().len(), 3);
}

#[test]
fn window_never_exceeds_history() {
    let mut history = History::new(10);
    let key = MetricKey::SwapUsageBytes;
    history.record(key, 5, 0);
    history.record(key, 6, 0);
    assert_eq!(history.window(&key, 0), Vec::<u64>::new());
    assert_eq!(history.window(&key, 1), vec![6]);
    assert_eq!(history.window(&key, 2), vec![5, 6]);
    assert_eq!(history.window(&key, 3), vec![5, 6]);
    assert_eq!(history.window(&key, 3), vec![5, 6]);
}

#[test]
fn series_are_kept_apart() {
    let mut history = History::new(4);
    let keys = vec![
        MetricKey::ClusterActivePercent(ClusterId::efficiency(0)),
        MetricKey::ClusterActivePercent(ClusterId::performance(0)),
        MetricKey::ClusterActivePercent(ClusterId::efficiency(1)),
        MetricKey::CpuActivePercent(0),
        MetricKey::CpuFreqPercent(0),
        MetricKey::CpuActivePercent(1),
        MetricKey::GpuActivePercent,
        MetricKey::GpuFreqPercent,
        MetricKey::AneActivePercent,
        MetricKey::CpuPowerW,
        MetricKey::GpuPowerW,
        MetricKey::AnePowerW,
        MetricKey::PackagePowerW,
        MetricKey::RamUsageBytes,
        MetricKey::SwapUsageBytes,
    ];
    for (k, key) in keys.iter().enumerate() {
        history.record(*key, k as u64 + 100, 0);
    }
    for (k, key) in keys.iter().enumerate() {
        assert_eq!(history.window(key, 4), vec![k as u64 + 100]);
    }
}

#[test]
fn same_calls_give_same_history() {
    let mut a = History::new(2);
    let mut b = History::new(2);
    for v in [9u64, 3, 7, 7, 1] {
        a.record(MetricKey::GpuFreqPercent, v, 50);
        b.record(MetricKey::GpuFreqPercent, v, 50);
    }
    assert_eq!(a.window(&MetricKey::GpuFreqPercent, 2), b.window(&MetricKey::GpuFreqPercent, 2));
    assert_eq!(a.peak(&MetricKey::GpuFreqPercent), b.peak(&MetricKey::GpuFreqPercent));
    assert_eq!(a.window(&MetricKey::GpuFreqPercent, 2), vec![7, 1]);
}

#[test]
fn metric_key_codes_are_distinct() {
    let mut keys: Vec<MetricKey> = vec![
        MetricKey::GpuActivePercent,
        MetricKey::GpuFreqPercent,
        MetricKey::AneActivePercent,
        MetricKey::CpuPowerW,
        MetricKey::GpuPowerW,
        MetricKey::AnePowerW,
        MetricKey::PackagePowerW,
        MetricKey::RamUsageBytes,
        MetricKey::SwapUsageBytes,
    ];
    for i in [0u8, 1, 2, 255] {
        keys.push(MetricKey::ClusterActivePercent(ClusterId::efficiency(i)));
        keys.push(MetricKey::ClusterActivePercent(ClusterId::performance(i)));
    }
    for i in [0u16, 1, 255, 256, 65535] {
        keys.push(MetricKey::CpuActivePercent(i));
        keys.push(MetricKey::CpuFreqPercent(i));
    }
    for a in 0..keys.len() {
        for b in 0..keys.len() {
            assert_eq!(keys[a].code() == keys[b].code(), a == b);
        }
    }
    assert_eq!(MetricKey::GpuActivePercent.code(), 0);
    assert_eq!(MetricKey::SwapUsageBytes.code(), 8);
    assert_eq!(MetricKey::ClusterActivePercent(ClusterId::efficiency(3)).code(), 0x1_0003);
    assert_eq!(MetricKey::ClusterActivePercent(ClusterId::performance(3)).code(), 0x1_0103);
    assert_eq!(MetricKey::CpuActivePercent(7).code(), 0x2_0007);
    assert_eq!(MetricKey::CpuFreqPercent(7).code(), 0x3_0007);
}

#[test]
fn cluster_ids() {
    assert_eq!(
        ClusterId::efficiency(2),
        ClusterId { kind: ClusterKind::Efficiency, index: 2 }
    );
    assert_eq!(
        ClusterId::performance(5),
        ClusterId { kind: ClusterKind::Performance, index: 5 }
    );
    assert_ne!(ClusterId::efficiency(0), ClusterId::performance(0));
}

#[test]
fn update_records_every_reading_of_a_sample() {
    let mut history = History::new(128);
    let m = sample([250_000_000, 750_000_000, 100_000_000, 999_999_999]);
    assert!(is_chartable(&m));
    history.update(&m, &soc());

    let one = |key: MetricKey| -> (Vec<u64>, u64) {
        let s = history.get(&key).unwrap();
        (s.as_slice(), s.max())
    };
    assert_eq!(
        one(MetricKey::ClusterActivePercent(ClusterId::efficiency(0))),
        (vec![50_000], 100_000)
    );
    assert_eq!(
        one(MetricKey::ClusterActivePercent(ClusterId::performance(0))),
        (vec![10_000], 100_000)
    );
    assert_eq!(
        one(MetricKey::ClusterActivePercent(ClusterId::performance(1))),
        (vec![99_999], 100_000)
    );
    assert_eq!(one(MetricKey::CpuActivePercent(0)), (vec![25_000], 100_000));
    assert_eq!(one(MetricKey::CpuActivePercent(1)), (vec![75_000], 100_000));
    assert_eq!(one(MetricKey::CpuActivePercent(2)), (vec![10_000], 100_000));
    assert_eq!(one(MetricKey::CpuActivePercent(3)), (vec![99_999], 100_000));
    assert_eq!(one(MetricKey::CpuFreqPercent(0)), (vec![21_615], 100_000));
    assert_eq!(one(MetricKey::CpuFreqPercent(1)), (vec![0], 100_000));
    assert_eq!(
        one(MetricKey::CpuFreqPercent(2)),
        (vec![(2064 - 600) * 100_000 / 2064], 100_000)
    );
    assert_eq!(one(MetricKey::CpuFreqPercent(3)), (vec![0], 100_000));
    assert_eq!(one(MetricKey::GpuActivePercent), (vec![5_400], 100_000));
    assert_eq!(
        one(MetricKey::GpuFreqPercent),
        (vec![(714_000_000u64 - 396_000_000) * 1000 / 1278 / 10_000], 100_000)
    );
    assert_eq!(one(MetricKey::AneActivePercent), (vec![37_500], 100_000));
    assert_eq!(one(MetricKey::CpuPowerW), (vec![4500], 20_000));
    assert_eq!(one(MetricKey::GpuPowerW), (vec![1200], 20_000));
    assert_eq!(one(MetricKey::AnePowerW), (vec![3000], 8_000));
    assert_eq!(one(MetricKey::PackagePowerW), (vec![8700], 48_000));
    assert_eq!(one(MetricKey::RamUsageBytes), (vec![9_000_000_000], 17_179_869_184));
    assert_eq!(one(MetricKey::SwapUsageBytes), (vec![1_000], 2_147_483_648));
    assert!(history.get(&MetricKey::ClusterActivePercent(ClusterId::efficiency(1))).is_none());
    assert!(history.get(&MetricKey::CpuActivePercent(4)).is_none());
}

#[test]
fn update_appends_sample_after_sample() {
    let mut history = History::new(2);
    history.update(&sample([0, 0, 0, 0]), &soc());
    history.update(&sample([500_000_000, 0, 0, 0]), &soc());
    history.update(&sample([250_000_000, 0, 0, 0]), &soc());
    assert_eq!(history.window(&MetricKey::CpuActivePercent(0), 5), vec![50_000, 25_000]);
    assert_eq!(history.peak(&MetricKey::CpuActivePercent(0)), 50_000);
    assert_eq!(history.window(&MetricKey::CpuPowerW, 1), vec![4500]);
}

#[test]
fn repeated_core_identifier_shares_a_series() {
    let mut doc = document();
    doc.processor.clusters[1].cpus[0].cpu_id = 0;
    let m = Metrics::from_decoded(doc);
    let mut history = History::new(8);
    history.update(&m, &soc());
    assert_eq!(history.get(&MetricKey::CpuActivePercent(0)).unwrap().len(), 2);
}

#[test]
fn samples_that_cannot_be_charted_are_told_apart() {
    assert!(is_chartable(&sample([0, 0, 0, 0])));

    let mut doc = document();
    doc.processor.clusters[0].cpus.clear();
    assert!(!is_chartable(&Metrics::from_decoded(doc)));

    let mut doc = document();
    doc.processor.clusters[1].cpus[0].dvfm_states.clear();
    assert!(!is_chartable(&Metrics::from_decoded(doc)));

    let mut doc = document();
    doc.processor.clusters[2].cpus[0].dvfm_states = states(&[0, 0]);
    assert!(!is_chartable(&Metrics::from_decoded(doc)));

    let mut doc = document();
    doc.gpu.dvfm_states.clear();
    assert!(!is_chartable(&Metrics::from_decoded(doc)));

    let mut doc = document();
    let one = doc.processor.clusters[0].clone();
    doc.processor.clusters = (0..257).map(|_| one.clone()).collect();
    let many = Metrics::from_decoded(doc);
    assert!(!clusters_are_chartable(&many.e_clusters));
    assert!(clusters_are_chartable(&many.p_clusters));

    let mut doc = document();
    let one = doc.processor.clusters[0].clone();
    doc.processor.clusters = (0..256).map(|_| one.clone()).collect();
    assert!(is_chartable(&Metrics::from_decoded(doc)));
}
