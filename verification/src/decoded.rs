//! One decoded document of the sampler, as it was reported: frequencies in
//! Hz, idle shares in parts per billion, energies in millijoules.

use vstd::prelude::*;
use crate::units::{active_ratio, mhz, spec_active_ratio, spec_mhz};

verus! {

/// One frequency state of a core or of the GPU, and the share of time spent
/// in it.
#[derive(Debug, Clone, Copy, PartialEq, Eq, Structural)]
pub struct DvfmState {
    /// Frequency of the state, in MHz.
    pub freq_mhz: u16,
    /// Share of the sampling period spent in the state.
    pub active_ratio: u64,
}

/// One core, as reported.
#[derive(Debug, Clone, PartialEq, Eq)]
pub struct Cpu {
    /// Identifier of the core.
    pub cpu_id: u16,
    /// Mean frequency, in Hz.
    pub freq_hz: u64,
    /// Idle share.
    pub idle_ratio: u64,
    /// Frequency states.
    pub dvfm_states: Vec<DvfmState>,
}

/// What a reported core is, mathematically.
pub struct CpuView {
    pub cpu_id: u16,
    pub freq_hz: u64,
    pub idle_ratio: u64,
    pub dvfm_states: Seq<DvfmState>,
}

impl View for Cpu {
    type V = CpuView;

    open spec fn view(&self) -> CpuView {
        CpuView {
            cpu_id: self.cpu_id,
            freq_hz: self.freq_hz,
            idle_ratio: self.idle_ratio,
            dvfm_states: self.dvfm_states@,
        }
    }
}

impl Cpu {
    /// Mean frequency in whole MHz.
    pub fn freq_mhz(&self) -> (r: u64)
        ensures
            r == spec_mhz(self.freq_hz),
    {
        mhz(self.freq_hz)
    }

    /// Active share: what the idle share leaves of 1.
    pub fn active_ratio(&self) -> (r: u64)
        ensures
            r == spec_active_ratio(self.idle_ratio),
    {
        active_ratio(self.idle_ratio)
    }
}

/// One cluster of cores, as reported.
#[derive(Debug, Clone, PartialEq, Eq)]
pub struct ClusterMetrics {
    /// Name of the cluster, such as "E-Cluster" or "P0-Cluster".
    pub name: String,
    /// Mean frequency, in Hz.
    pub freq_hz: u64,
    /// Frequency states.
    pub dvfm_states: Vec<DvfmState>,
    /// The cores of the cluster.
    pub cpus: Vec<Cpu>,
}

/// What a reported cluster is, mathematically.
pub struct ClusterView {
    pub name: Seq<char>,
    pub freq_hz: u64,
    pub dvfm_states: Seq<DvfmState>,
    pub cpus: Seq<CpuView>,
}

impl View for ClusterMetrics {
    type V = ClusterView;

    open spec fn view(&self) -> ClusterView {
        ClusterView {
            name: self.name@,
            freq_hz: self.freq_hz,
            dvfm_states: self.dvfm_states@,
            cpus: self.cpus@.map_values(|c: Cpu| c@),
        }
    }
}

impl ClusterMetrics {
    /// Mean frequency in whole MHz.
    pub fn freq_mhz(&self) -> (r: u64)
        ensures
            r == spec_mhz(self.freq_hz),
    {
        mhz(self.freq_hz)
    }
}

/// The GPU, as reported.
#[derive(Debug, Clone, PartialEq, Eq)]
pub struct GpuMetrics {
    /// Mean frequency, in Hz.
    pub freq_hz: u64,
    /// Idle share.
    pub idle_ratio: u64,
    /// Frequency states.
    pub dvfm_states: Vec<DvfmState>,
}

/// What the reported GPU is, mathematically.
pub struct GpuView {
    pub freq_hz: u64,
    pub idle_ratio: u64,
    pub dvfm_states: Seq<DvfmState>,
}

impl View for GpuMetrics {
    type V = GpuView;

    open spec fn view(&self) -> GpuView {
        GpuView {
            freq_hz: self.freq_hz,
            idle_ratio: self.idle_ratio,
            dvfm_states: self.dvfm_states@,
        }
    }
}

impl GpuMetrics {
    /// Active share: what the idle share leaves of 1.
    pub fn active_ratio(&self) -> (r: u64)
        ensures
            r == spec_active_ratio(self.idle_ratio),
    {
        active_ratio(self.idle_ratio)
    }
}

/// The processor part of a document: the clusters and the energy counters.
#[derive(Debug, Clone, PartialEq, Eq)]
pub struct ProcessorMetrics {
    /// The clusters, in the order of the document.
    pub clusters: Vec<ClusterMetrics>,
    /// Energy used by the neural engine over the period, in mJ.
    pub ane_mj: u16,
    /// Energy used by the CPU over the period, in mJ.
    pub cpu_mj: u32,
    /// Energy used by the GPU over the period, in mJ.
    pub gpu_mj: u32,
    /// Mean power of the package over the period, in mW.
    pub package_mw: u64,
}

/// One decoded document.
#[derive(Debug, Clone, PartialEq, Eq)]
pub struct Metrics {
    /// Length of the sampling period, in nanoseconds.
    pub elapsed_ns: u64,
    /// Clusters and energy counters.
    pub processor: ProcessorMetrics,
    /// Thermal pressure, as the sampler words it.
    pub thermal_pressure: String,
    /// The GPU.
    pub gpu: GpuMetrics,
}

/// What a decoded document is, mathematically.
pub struct MetricsView {
    pub elapsed_ns: u64,
    pub clusters: Seq<ClusterView>,
    pub ane_mj: u16,
    pub cpu_mj: u32,
    pub gpu_mj: u32,
    pub package_mw: u64,
    pub thermal_pressure: Seq<char>,
    pub gpu: GpuView,
}

impl View for Metrics {
    type V = MetricsView;

    open spec fn view(&self) -> MetricsView {
        MetricsView {
            elapsed_ns: self.elapsed_ns,
            clusters: self.processor.clusters@.map_values(|c: ClusterMetrics| c@),
            ane_mj: self.processor.ane_mj,
            cpu_mj: self.processor.cpu_mj,
            gpu_mj: self.processor.gpu_mj,
            package_mw: self.processor.package_mw,
            thermal_pressure: self.thermal_pressure@,
            gpu: self.gpu@,
        }
    }
}

} // verus!
