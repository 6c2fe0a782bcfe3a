//! The fixed units of the crate and the arithmetic between them.
//!
//! A share (of time, of a frequency range, of a power ceiling) is a whole
//! number of parts per billion, a frequency a whole number of Hz, a power a
//! whole number of milliwatts. Charts hold shares as thousandths of a percent.

use vstd::prelude::*;

verus! {

/// The share 1, in parts per billion.
pub const RATIO_ONE: u64 = 1_000_000_000;

/// Hz in one MHz.
pub const HZ_PER_MHZ: u64 = 1_000_000;

/// Nanoseconds in one second.
pub const NS_PER_S: u64 = 1_000_000_000;

/// The share 1 as charts hold it, in thousandths of a percent.
pub const PERCENT_FULL: u64 = 100_000;

/// Parts per billion in one thousandth of a percent.
pub const PPB_PER_MILLIPERCENT: u64 = 10_000;

/// `n` where it fits 64 bits, the largest 64-bit number otherwise.
pub open spec fn capped(n: nat) -> u64 {
    if n > u64::MAX {
        u64::MAX
    } else {
        n as u64
    }
}

/// The active share that goes with an idle share: what is missing to 1, and
/// 0 where the idle share is above 1.
pub open spec fn spec_active_ratio(idle_ratio: u64) -> u64 {
    if idle_ratio <= RATIO_ONE {
        (RATIO_ONE - idle_ratio) as u64
    } else {
        0
    }
}

/// The active share that goes with an idle share.
pub fn active_ratio(idle_ratio: u64) -> (r: u64)
    ensures
        r == spec_active_ratio(idle_ratio),
        r <= RATIO_ONE,
{
    if idle_ratio <= RATIO_ONE {
        RATIO_ONE - idle_ratio
    } else {
        0
    }
}

/// Whole MHz in a frequency given in Hz.
pub open spec fn spec_mhz(freq_hz: u64) -> u64 {
    freq_hz / HZ_PER_MHZ
}

/// Whole MHz in a frequency given in Hz.
pub fn mhz(freq_hz: u64) -> (r: u64)
    ensures
        r == spec_mhz(freq_hz),
{
    freq_hz / HZ_PER_MHZ
}

/// Where a frequency stands in the range of its states: the distance from
/// the lowest state as a share of the highest state, in parts per billion
/// rounded down; 0 at and below the lowest state.
pub open spec fn spec_freq_ratio(freq_hz: u64, min_mhz: u16, max_mhz: u16) -> nat
    recommends
        max_mhz > 0,
{
    if freq_hz <= min_mhz * HZ_PER_MHZ {
        0
    } else {
        ((freq_hz - min_mhz * HZ_PER_MHZ) * 1000 / (max_mhz as int)) as nat
    }
}

/// Where a frequency stands in the range of its states, capped at the
/// largest 64-bit number.
pub fn freq_ratio(freq_hz: u64, min_mhz: u16, max_mhz: u16) -> (r: u64)
    requires
        max_mhz > 0,
    ensures
        r == capped(spec_freq_ratio(freq_hz, min_mhz, max_mhz)),
{
    let floor: u64 = min_mhz as u64 * HZ_PER_MHZ;
    if freq_hz <= floor {
        return 0;
    }
    let above: u128 = (freq_hz - floor) as u128;
    let q: u128 = above * 1000 / (max_mhz as u128);
    if q > u64::MAX as u128 {
        u64::MAX
    } else {
        q as u64
    }
}

/// A frequency inside the range of the states has a share between 0 and 1,
/// and a frequency below the lowest state has the share 0.
pub proof fn lemma_freq_ratio_bounds(freq_hz: u64, min_mhz: u16, max_mhz: u16)
    requires
        max_mhz > 0,
    ensures
        freq_hz <= max_mhz * HZ_PER_MHZ ==> 0 <= spec_freq_ratio(freq_hz, min_mhz, max_mhz)
            <= RATIO_ONE,
        freq_hz <= max_mhz * HZ_PER_MHZ ==> capped(spec_freq_ratio(freq_hz, min_mhz, max_mhz))
            == spec_freq_ratio(freq_hz, min_mhz, max_mhz),
        freq_hz < min_mhz * HZ_PER_MHZ ==> spec_freq_ratio(freq_hz, min_mhz, max_mhz) == 0,
{
    if freq_hz <= max_mhz * HZ_PER_MHZ && freq_hz > min_mhz * HZ_PER_MHZ {
        let above: int = freq_hz - min_mhz * HZ_PER_MHZ;
        let m: int = max_mhz as int;
        assert(above * 1000 <= m * 1_000_000_000);
        assert(above * 1000 / m <= 1_000_000_000) by (nonlinear_arith)
            requires
                above * 1000 <= m * 1_000_000_000,
                m > 0,
        ;
        assert(above * 1000 / m >= 0) by (nonlinear_arith)
            requires
                above >= 0,
                m > 0,
        ;
    }
}

/// Mean power over a sampling period, in milliwatts rounded down: the energy
/// in millijoules divided by the period in seconds.
pub open spec fn spec_power_mw(energy_mj: u32, elapsed_ns: u64) -> u64
    recommends
        elapsed_ns > 0,
{
    (energy_mj * NS_PER_S / (elapsed_ns as int)) as u64
}

/// Mean power over a sampling period, in milliwatts.
pub fn power_mw(energy_mj: u32, elapsed_ns: u64) -> (r: u64)
    requires
        elapsed_ns > 0,
    ensures
        r == spec_power_mw(energy_mj, elapsed_ns),
        r == energy_mj * NS_PER_S / (elapsed_ns as int),
{
    let scaled: u64 = energy_mj as u64 * NS_PER_S;
    proof {
        let s: int = scaled as int;
        let e: int = elapsed_ns as int;
        assert(0 <= s / e <= s) by (nonlinear_arith)
            requires
                s >= 0,
                e > 0,
        ;
    }
    scaled / elapsed_ns
}

/// A share in thousandths of a percent, rounded down.
pub open spec fn spec_percent(ratio: u64) -> u64 {
    ratio / PPB_PER_MILLIPERCENT
}

/// A share in thousandths of a percent.
pub fn percent(ratio: u64) -> (r: u64)
    ensures
        r == spec_percent(ratio),
{
    ratio / PPB_PER_MILLIPERCENT
}

/// `part` as a share of `whole`, in thousandths of a percent rounded down.
pub open spec fn spec_percent_of(part: u64, whole: u64) -> nat
    recommends
        whole > 0,
{
    (part * PERCENT_FULL / (whole as int)) as nat
}

/// `part` as a share of `whole`, in thousandths of a percent, capped at the
/// largest 64-bit number.
pub fn percent_of(part: u64, whole: u64) -> (r: u64)
    requires
        whole > 0,
    ensures
        r == capped(spec_percent_of(part, whole)),
{
    let q: u128 = part as u128 * (PERCENT_FULL as u128) / (whole as u128);
    if q > u64::MAX as u128 {
        u64::MAX
    } else {
        q as u64
    }
}

} // verus!
