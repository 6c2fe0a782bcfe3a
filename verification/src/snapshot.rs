//! The second source: per-core activity and memory figures, read from the
//! operating system once per sample.

use vstd::prelude::*;
use vstd::string::*;
use crate::text::{chars_of, parse_unsigned, parse_unsigned_in};
use crate::vm_stat::VmStats;

verus! {

/// Activity of one core.
#[derive(Debug, Clone, Copy, PartialEq, Eq, Structural)]
pub struct CpuMetrics {
    /// Identifier of the core.
    pub id: u16,
    /// Active share.
    pub active_ratio: u64,
}

/// Memory and swap figures, in bytes.
#[derive(Debug, Clone, Copy, PartialEq, Eq, Structural)]
pub struct MemoryMetrics {
    pub ram_total: u64,
    pub ram_used: u64,
    pub swap_total: u64,
    pub swap_used: u64,
}

/// One snapshot.
#[derive(Debug, Clone, PartialEq, Eq)]
pub struct Metrics {
    /// The cores, in the order in which the system lists them.
    pub cpu_metrics: Vec<CpuMetrics>,
    /// Memory and swap.
    pub memory_metrics: MemoryMetrics,
}

/// The identifier of the core that the system lists under `name`: the
/// number that the name denotes, less one; 0 for the name "0" and for a name
/// that denotes no 16-bit number.
pub open spec fn core_id(name: Seq<char>) -> u16 {
    match parse_unsigned(name, u16::MAX as nat) {
        Ok(v) => if v > 0 {
            (v - 1) as u16
        } else {
            0
        },
        Err(_) => 0,
    }
}

/// The identifier of the core that the system lists under `name`.
pub fn core_id_of_name(name: &str) -> (id: u16)
    ensures
        id == core_id(name@),
{
    let chars = chars_of(name);
    assert(chars@.subrange(0, chars@.len() as int) =~= name@);
    match parse_unsigned_in(&chars, 0, chars.len(), 65535) {
        Ok(v) => if v > 0 {
            (v - 1) as u16
        } else {
            0
        },
        Err(_) => 0,
    }
}

impl MemoryMetrics {
    /// The memory figures of a snapshot. Memory in use is what the page
    /// statistics give where there are any, and the system's own figure
    /// otherwise; the other three figures are the system's.
    pub fn from_sources(
        ram_total: u64,
        ram_used: u64,
        swap_total: u64,
        swap_used: u64,
        vm_stats: Option<VmStats>,
    ) -> (r: Self)
        requires
            vm_stats is Some ==> vm_stats->0.spec_memory_used() <= u64::MAX,
        ensures
            r == (MemoryMetrics {
                ram_total,
                ram_used: match vm_stats {
                    Some(v) => v.spec_memory_used() as u64,
                    None => ram_used,
                },
                swap_total,
                swap_used,
            }),
    {
        let used: u64 = match vm_stats {
            Some(v) => v.activity_monitor_memory_used(),
            None => ram_used,
        };
        MemoryMetrics { ram_total, ram_used: used, swap_total, swap_used }
    }
}

} // verus!
