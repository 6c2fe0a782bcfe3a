//! Keys that name the charted quantities.

use vstd::prelude::*;

verus! {

/// The kind of CPU cluster.
#[derive(Debug, Clone, Copy, PartialEq, Eq, Hash, Structural)]
pub enum ClusterKind {
    /// Efficiency cores.
    Efficiency,
    /// Performance cores.
    Performance,
}

/// Identifies a CPU cluster by its kind and its position among the clusters
/// of that kind.
#[derive(Debug, Clone, Copy, PartialEq, Eq, Hash, Structural)]
pub struct ClusterId {
    pub kind: ClusterKind,
    pub index: u8,
}

impl ClusterId {
    /// The efficiency cluster at position `index`.
    pub fn efficiency(index: u8) -> (r: Self)
        ensures
            r == (ClusterId { kind: ClusterKind::Efficiency, index }),
    {
        Self { kind: ClusterKind::Efficiency, index }
    }

    /// The performance cluster at position `index`.
    pub fn performance(index: u8) -> (r: Self)
        ensures
            r == (ClusterId { kind: ClusterKind::Performance, index }),
    {
        Self { kind: ClusterKind::Performance, index }
    }
}

/// Names one charted quantity.
#[derive(Debug, Clone, Copy, PartialEq, Eq, Hash, Structural)]
pub enum MetricKey {
    /// Active share of a CPU cluster.
    ClusterActivePercent(ClusterId),
    /// Active share of the core with this identifier.
    CpuActivePercent(u16),
    /// Frequency of the core with this identifier, as a share of its range.
    CpuFreqPercent(u16),
    /// Active share of the GPU.
    GpuActivePercent,
    /// Frequency of the GPU, as a share of its range.
    GpuFreqPercent,
    /// Power of the neural engine, as a share of its ceiling.
    AneActivePercent,
    /// Power drawn by the CPU.
    CpuPowerW,
    /// Power drawn by the GPU.
    GpuPowerW,
    /// Power drawn by the neural engine.
    AnePowerW,
    /// Power drawn by the package.
    PackagePowerW,
    /// Memory in use.
    RamUsageBytes,
    /// Swap space in use.
    SwapUsageBytes,
}

impl MetricKey {
    /// The number under which the key is filed. Different keys have
    /// different numbers.
    pub open spec fn spec_code(self) -> u64 {
        match self {
            MetricKey::GpuActivePercent => 0,
            MetricKey::GpuFreqPercent => 1,
            MetricKey::AneActivePercent => 2,
            MetricKey::CpuPowerW => 3,
            MetricKey::GpuPowerW => 4,
            MetricKey::AnePowerW => 5,
            MetricKey::PackagePowerW => 6,
            MetricKey::RamUsageBytes => 7,
            MetricKey::SwapUsageBytes => 8,
            MetricKey::ClusterActivePercent(id) => match id.kind {
                ClusterKind::Efficiency => (0x1_0000 + id.index) as u64,
                ClusterKind::Performance => (0x1_0100 + id.index) as u64,
            },
            MetricKey::CpuActivePercent(id) => (0x2_0000 + id) as u64,
            MetricKey::CpuFreqPercent(id) => (0x3_0000 + id) as u64,
        }
    }

    /// The number under which the key is filed.
    pub fn code(&self) -> (r: u64)
        ensures
            r == self.spec_code(),
    {
        match self {
            MetricKey::GpuActivePercent => 0,
            MetricKey::GpuFreqPercent => 1,
            MetricKey::AneActivePercent => 2,
            MetricKey::CpuPowerW => 3,
            MetricKey::GpuPowerW => 4,
            MetricKey::AnePowerW => 5,
            MetricKey::PackagePowerW => 6,
            MetricKey::RamUsageBytes => 7,
            MetricKey::SwapUsageBytes => 8,
            MetricKey::ClusterActivePercent(id) => match id.kind {
                ClusterKind::Efficiency => 0x1_0000 + id.index as u64,
                ClusterKind::Performance => 0x1_0100 + id.index as u64,
            },
            MetricKey::CpuActivePercent(id) => 0x2_0000 + *id as u64,
            MetricKey::CpuFreqPercent(id) => 0x3_0000 + *id as u64,
        }
    }

    /// No two observables share a number.
    pub proof fn lemma_code_injective(a: MetricKey, b: MetricKey)
        ensures
            a.spec_code() == b.spec_code() <==> a == b,
    {
    }
}

} // verus!
