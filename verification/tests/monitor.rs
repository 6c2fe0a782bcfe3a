use pumas::config::{RunConfig, UiColors};
use pumas::decoded;
use pumas::decoded::DvfmState;
use pumas::metric_key::MetricKey;
use pumas::metrics::Metrics;
use pumas::monitor::{Action, Event, Stage, Transition};
use pumas::soc::SocInfo;
use pumas::state::{num_blocks_for, App, TabsState};

const STAGES: [Stage; 8] = [
    Stage::Idle,
    Stage::ProcessSpawned,
    Stage::Streaming,
    Stage::DocumentComplete,
    Stage::Decoding,
    Stage::Reconciling,
    Stage::Published,
    Stage::Terminated,
];

const EVENTS: [Event; 4] = [Event::Done, Event::EndMarker, Event::EndOfStream, Event::Failed];

#[test]
fn actions_by_stage() {
    assert_eq!(Stage::Idle.action(), Action::Spawn);
    assert_eq!(Stage::ProcessSpawned.action(), Action::OpenOutput);
    assert_eq!(Stage::Streaming.action(), Action::ReadLine);
    assert_eq!(Stage::DocumentComplete.action(), Action::Finalize);
    assert_eq!(Stage::Decoding.action(), Action::Decode);
    assert_eq!(Stage::Reconciling.action(), Action::Reconcile);
    assert_eq!(Stage::Published.action(), Action::Publish);
    assert_eq!(Stage::Terminated.action(), Action::Exit);
}

#[test]
fn one_sample_goes_through_every_stage() {
    let mut stage = Stage::Idle;
    let mut seen = vec![stage];
    for event in [
        Event::Done,
        Event::Done,
        Event::Done,
        Event::Done,
        Event::EndMarker,
        Event::Done,
        Event::Done,
        Event::Done,
        Event::Done,
        Event::Done,
        Event::EndOfStream,
    ] {
        let t = stage.next(event);
        stage = t.stage;
        seen.push(stage);
        assert_eq!(t.kill, stage == Stage::Terminated);
    }
    assert_eq!(
        seen,
        vec![
            Stage::Idle,
            Stage::ProcessSpawned,
            Stage::Streaming,
            Stage::Streaming,
            Stage::Streaming,
            Stage::DocumentComplete,
            Stage::Decoding,
            Stage::Reconciling,
            Stage::Published,
            Stage::Streaming,
            Stage::Streaming,
            Stage::Terminated,
        ]
    );
}

#[test]
fn every_failure_ends_the_loop_and_stops_a_running_sampler() {
    for stage in STAGES {
        for event in [Event::Failed, Event::EndOfStream] {
            let running = stage != Stage::Idle && stage != Stage::Terminated;
            assert_eq!(
                stage.next(event),
                Transition { stage: Stage::Terminated, kill: running }
            );
        }
    }
}

#[test]
fn terminated_stays_terminated() {
    for event in EVENTS {
        assert_eq!(
            Stage::Terminated.next(event),
            Transition { stage: Stage::Terminated, kill: false }
        );
    }
}

#[test]
fn end_marker_counts_only_while_streaming() {
    assert_eq!(
        Stage::Streaming.next(Event::EndMarker),
        Transition { stage: Stage::DocumentComplete, kill: false }
    );
    for stage in STAGES {
        if stage != Stage::Streaming {
            assert_eq!(stage.next(Event::EndMarker).stage, Stage::Terminated);
        }
    }
    assert_eq!(
        Stage::Idle.next(Event::EndMarker),
        Transition { stage: Stage::Terminated, kill: false }
    );
}

#[test]
fn tabs_wrap_around() {
    let mut tabs = TabsState::new(vec!["Overview", "CPU", "GPU", "SoC"]);
    assert_eq!(tabs.index, 0);
    tabs.previous();
    assert_eq!(tabs.index, 3);
    tabs.next();
    assert_eq!(tabs.index, 0);
    tabs.next();
    tabs.next();
    assert_eq!(tabs.index, 2);
    tabs.previous();
    assert_eq!(tabs.index, 1);
    assert_eq!(tabs.titles, vec!["Overview", "CPU", "GPU", "SoC"]);
    let mut one = TabsState::new(vec!["only"]);
    one.next();
    assert_eq!(one.index, 0);
    one.previous();
    assert_eq!(one.index, 0);
}

#[test]
fn blocks_come_two_by_two() {
    assert_eq!(num_blocks_for(0), 0);
    assert_eq!(num_blocks_for(1), 1);
    assert_eq!(num_blocks_for(2), 1);
    assert_eq!(num_blocks_for(3), 2);
    assert_eq!(num_blocks_for(4), 2);
    assert_eq!(num_blocks_for(usize::MAX), usize::MAX / 2 + 1);
}

#[test]
fn app_keys_and_tabs() {
    let soc = SocInfo::from_parts("Apple M1".to_string(), 8, 4, 4, 8);
    let mut app = App::new(soc, 128);
    assert!(!app.should_quit);
    assert!(app.metrics.is_none());
    assert_eq!(app.tabs.titles, vec!["Overview", "CPU", "GPU", "SoC"]);
    assert_eq!(app.history.capacity(), 128);
    app.on_key('a');
    app.on_key('Q');
    assert!(!app.should_quit);
    app.on_right();
    assert_eq!(app.tabs.index, 1);
    app.on_left();
    app.on_left();
    assert_eq!(app.tabs.index, 3);
    app.on_key('q');
    assert!(app.should_quit);
    app.on_key('a');
    assert!(app.should_quit);
    let mut other = App::new(SocInfo::from_parts("Apple M2".to_string(), 8, 4, 4, 10), 1);
    other.on_key('x');
    assert!(other.should_quit);
}

#[test]
fn app_takes_samples() {
    let soc = SocInfo::from_parts("Apple M2".to_string(), 8, 4, 4, 10);
    let mut app = App::new(soc, 2);
    let doc = decoded::Metrics {
        elapsed_ns: 2_000_000_000,
        processor: decoded::ProcessorMetrics {
            clusters: vec![decoded::ClusterMetrics {
                name: "E-Cluster".to_string(),
                freq_hz: 1,
                dvfm_states: vec![],
                cpus: vec![decoded::Cpu {
                    cpu_id: 0,
                    freq_hz: 1_500_000_000,
                    idle_ratio: 400_000_000,
                    dvfm_states: vec![
                        DvfmState { freq_mhz: 1000, active_ratio: 0 },
                        DvfmState { freq_mhz: 2000, active_ratio: 0 },
                    ],
                }],
            }],
            ane_mj: 16,
            cpu_mj: 1000,
            gpu_mj: 3,
            package_mw: 600,
        },
        thermal_pressure: "Heavy".to_string(),
        gpu: decoded::GpuMetrics {
            freq_hz: 0,
            idle_ratio: 1_000_000_000,
            dvfm_states: vec![DvfmState { freq_mhz: 444, active_ratio: 0 }],
        },
    };
    let sample = Metrics::from_decoded(doc);
    app.on_metrics(sample.clone());
    assert_eq!(app.metrics, Some(sample));
    assert_eq!(app.history.window(&MetricKey::CpuActivePercent(0), 9), vec![60_000]);
    assert_eq!(app.history.window(&MetricKey::CpuFreqPercent(0), 9), vec![25_000]);
    assert_eq!(app.history.window(&MetricKey::CpuPowerW, 9), vec![500]);
    assert_eq!(app.history.get(&MetricKey::CpuPowerW).unwrap().max(), 25_000);
    assert_eq!(app.history.window(&MetricKey::AnePowerW, 9), vec![8]);
    assert_eq!(app.history.window(&MetricKey::AneActivePercent, 9), vec![100]);
    assert_eq!(app.history.window(&MetricKey::GpuActivePercent, 9), vec![0]);
}

#[test]
fn colors_of_a_configuration() {
    let config = RunConfig {
        sample_rate_ms: 1000,
        history_size: 128,
        accent_color: 2,
        gauge_fg_color: 3,
        gauge_bg_color: 7,
        history_fg_color: 4,
        history_bg_color: 8,
        json: false,
    };
    assert_eq!(
        config.colors(),
        UiColors { accent: 2, gauge_fg: 3, gauge_bg: 7, history_fg: 4, history_bg: 8 }
    );
}
