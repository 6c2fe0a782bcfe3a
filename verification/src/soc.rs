//! The machine description: the chip, its core counts and the power
//! ceilings of its parts.

use vstd::prelude::*;
use vstd::string::*;
use crate::error::{Error, IntErrorKind};
use crate::text::{
    as_line, chars_of, field, field_range, find_char, last_piece, last_piece_start, line_at,
    parse_unsigned, parse_unsigned_in, range_starts_with, skip_whitespace, str_equals, trim_start,
    until,
};

verus! {

/// Power ceilings of the CPU, the GPU and the neural engine, in milliwatts.
#[derive(Debug, Clone, Copy, PartialEq, Eq, Structural)]
pub struct PowerCeilings {
    pub cpu_mw: u64,
    pub gpu_mw: u64,
    pub ane_mw: u64,
}

impl PowerCeilings {
    /// The ceilings of the chip with the given brand name; those of the
    /// "Apple M1" for a name that is not listed.
    pub open spec fn of(brand: Seq<char>) -> PowerCeilings {
        if brand == "Apple M1 Max"@ {
            PowerCeilings { cpu_mw: 30_000, gpu_mw: 60_000, ane_mw: 8_000 }
        } else if brand == "Apple M1 Pro"@ {
            PowerCeilings { cpu_mw: 30_000, gpu_mw: 30_000, ane_mw: 8_000 }
        } else if brand == "Apple M1 Ultra"@ {
            PowerCeilings { cpu_mw: 60_000, gpu_mw: 120_000, ane_mw: 8_000 }
        } else if brand == "Apple M2"@ {
            PowerCeilings { cpu_mw: 25_000, gpu_mw: 15_000, ane_mw: 8_000 }
        } else {
            PowerCeilings { cpu_mw: 20_000, gpu_mw: 20_000, ane_mw: 8_000 }
        }
    }

    /// The ceilings of the chip with the given brand name.
    pub fn for_brand(brand: &str) -> (r: Self)
        ensures
            r == PowerCeilings::of(brand@),
            r.ane_mw > 0,
            r.cpu_mw + r.gpu_mw + r.ane_mw <= 188_000,
    {
        if str_equals(brand, "Apple M1 Max") {
            PowerCeilings { cpu_mw: 30_000, gpu_mw: 60_000, ane_mw: 8_000 }
        } else if str_equals(brand, "Apple M1 Pro") {
            PowerCeilings { cpu_mw: 30_000, gpu_mw: 30_000, ane_mw: 8_000 }
        } else if str_equals(brand, "Apple M1 Ultra") {
            PowerCeilings { cpu_mw: 60_000, gpu_mw: 120_000, ane_mw: 8_000 }
        } else if str_equals(brand, "Apple M2") {
            PowerCeilings { cpu_mw: 25_000, gpu_mw: 15_000, ane_mw: 8_000 }
        } else {
            PowerCeilings { cpu_mw: 20_000, gpu_mw: 20_000, ane_mw: 8_000 }
        }
    }
}

/// The machine description.
#[derive(Debug, Clone, PartialEq, Eq)]
pub struct SocInfo {
    /// Brand name of the chip, such as "Apple M1".
    pub cpu_brand_name: String,
    /// Number of CPU cores.
    pub num_cpu_cores: u16,
    /// Number of efficiency cores.
    pub num_efficiency_cores: u16,
    /// Number of performance cores.
    pub num_performance_cores: u16,
    /// Number of GPU cores.
    pub num_gpu_cores: u16,
    /// Power ceiling of the CPU, in milliwatts.
    pub max_cpu_mw: u64,
    /// Power ceiling of the GPU, in milliwatts.
    pub max_gpu_mw: u64,
    /// Power ceiling of the neural engine, in milliwatts.
    pub max_ane_mw: u64,
    /// Power ceiling of the package: the sum of the three.
    pub max_package_mw: u64,
}

/// What a machine description is, mathematically.
pub struct SocInfoView {
    pub cpu_brand_name: Seq<char>,
    pub num_cpu_cores: u16,
    pub num_efficiency_cores: u16,
    pub num_performance_cores: u16,
    pub num_gpu_cores: u16,
    pub max_cpu_mw: u64,
    pub max_gpu_mw: u64,
    pub max_ane_mw: u64,
    pub max_package_mw: u64,
}

impl SocInfoView {
    /// The description made of the given brand name and counts: the
    /// ceilings are those of the brand, the package ceiling their sum.
    pub open spec fn of(
        brand: Seq<char>,
        num_cpu_cores: u16,
        num_efficiency_cores: u16,
        num_performance_cores: u16,
        num_gpu_cores: u16,
    ) -> SocInfoView {
        let c = PowerCeilings::of(brand);
        SocInfoView {
            cpu_brand_name: brand,
            num_cpu_cores,
            num_efficiency_cores,
            num_performance_cores,
            num_gpu_cores,
            max_cpu_mw: c.cpu_mw,
            max_gpu_mw: c.gpu_mw,
            max_ane_mw: c.ane_mw,
            max_package_mw: (c.cpu_mw + c.gpu_mw + c.ane_mw) as u64,
        }
    }
}

impl View for SocInfo {
    type V = SocInfoView;

    open spec fn view(&self) -> SocInfoView {
        SocInfoView {
            cpu_brand_name: self.cpu_brand_name@,
            num_cpu_cores: self.num_cpu_cores,
            num_efficiency_cores: self.num_efficiency_cores,
            num_performance_cores: self.num_performance_cores,
            num_gpu_cores: self.num_gpu_cores,
            max_cpu_mw: self.max_cpu_mw,
            max_gpu_mw: self.max_gpu_mw,
            max_ane_mw: self.max_ane_mw,
            max_package_mw: self.max_package_mw,
        }
    }
}

impl SocInfo {
    /// The description made of the given brand name and counts.
    pub fn from_parts(
        cpu_brand_name: String,
        num_cpu_cores: u16,
        num_efficiency_cores: u16,
        num_performance_cores: u16,
        num_gpu_cores: u16,
    ) -> (r: Self)
        ensures
            r@ == SocInfoView::of(
                cpu_brand_name@,
                num_cpu_cores,
                num_efficiency_cores,
                num_performance_cores,
                num_gpu_cores,
            ),
            r.max_ane_mw > 0,
    {
        let c = PowerCeilings::for_brand(cpu_brand_name.as_str());
        SocInfo {
            cpu_brand_name,
            num_cpu_cores,
            num_efficiency_cores,
            num_performance_cores,
            num_gpu_cores,
            max_cpu_mw: c.cpu_mw,
            max_gpu_mw: c.gpu_mw,
            max_ane_mw: c.ane_mw,
            max_package_mw: c.cpu_mw + c.gpu_mw + c.ane_mw,
        }
    }
}

/// Why a text does not give the number that is looked for in it.
#[derive(Debug, Clone, Copy, PartialEq, Eq, Structural)]
pub enum Failure {
    /// The text has no place for the number.
    Missing,
    /// The place holds something that is no number of the right size.
    Malformed(IntErrorKind),
}

/// Whether the error reports the failure: a missing place is reported with
/// the whole text, a malformed number with what is wrong with it.
pub open spec fn reports(e: Error, f: Failure, buffer: Seq<char>) -> bool {
    match f {
        Failure::Missing => match e {
            Error::SocInfoParsingError(text) => text@ == buffer,
            _ => false,
        },
        Failure::Malformed(kind) => e == (Error::ParseIntError { source: kind }),
    }
}

/// The 16-bit number that a text denotes.
pub open spec fn number_of(text: Seq<char>) -> Result<u16, Failure> {
    match parse_unsigned(text, u16::MAX as nat) {
        Ok(v) => Ok(v as u16),
        Err(e) => Err(Failure::Malformed(e)),
    }
}

/// The 16-bit number on line `k` of the text, lines counted from 0.
pub open spec fn number_field(buffer: Seq<char>, k: nat) -> Result<u16, Failure> {
    match field(buffer, k) {
        None => Err(Failure::Missing),
        Some(f) => number_of(f),
    }
}

/// What the text says of the CPU: the brand name on the first line, then
/// the number of cores, of performance cores and of efficiency cores, one
/// per line. The result lists the efficiency cores before the performance
/// cores. The first number that is missing or malformed decides the failure.
pub open spec fn cpu_info(buffer: Seq<char>) -> Result<(Seq<char>, u16, u16, u16), Failure> {
    match number_field(buffer, 1) {
        Err(f) => Err(f),
        Ok(cores) => match number_field(buffer, 2) {
            Err(f) => Err(f),
            Ok(performance) => match number_field(buffer, 3) {
                Err(f) => Err(f),
                Ok(efficiency) => Ok(
                    (buffer.take(until(buffer, '\n') as int), cores, efficiency, performance),
                ),
            },
        },
    }
}

/// The 16-bit number that the characters from `from` up to `to` denote.
fn number_in(chars: &Vec<char>, from: usize, to: usize) -> (r: Result<u16, Failure>)
    requires
        from <= to <= chars@.len(),
    ensures
        r == number_of(chars@.subrange(from as int, to as int)),
{
    match parse_unsigned_in(chars, from, to, 65535) {
        Ok(v) => Ok(v as u16),
        Err(e) => Err(Failure::Malformed(e)),
    }
}

/// The 16-bit number on line `k` of the text.
fn number_on_line(chars: &Vec<char>, k: usize) -> (r: Result<u16, Failure>)
    ensures
        r == number_field(chars@, k as nat),
{
    match field_range(chars, k) {
        None => Err(Failure::Missing),
        Some((from, to)) => number_in(chars, from, to),
    }
}

/// The error that reports a failure to read `buffer`.
fn failure_error(f: Failure, buffer: &str) -> (e: Error)
    ensures
        reports(e, f, buffer@),
{
    match f {
        Failure::Missing => Error::SocInfoParsingError(String::from_str(buffer)),
        Failure::Malformed(kind) => Error::ParseIntError { source: kind },
    }
}

/// Reads the brand name and the core counts of the CPU from the text that
/// the system prints for them. Returns the brand name, the number of cores,
/// of efficiency cores and of performance cores.
pub fn parse_cpu_info(buffer: &str) -> (r: Result<(String, u16, u16, u16), Error>)
    ensures
        match (r, cpu_info(buffer@)) {
            (Ok((brand, cores, efficiency, performance)), Ok(want)) => {
                &&& brand@ == want.0
                &&& cores == want.1
                &&& efficiency == want.2
                &&& performance == want.3
            },
            (Err(e), Err(f)) => reports(e, f, buffer@),
            _ => false,
        },
{
    let chars = chars_of(buffer);
    let brand_end: usize = find_char(&chars, 0, '\n');
    assert(chars@.skip(0) =~= chars@);
    let num_cpu_cores: u16 = match number_on_line(&chars, 1) {
        Ok(v) => v,
        Err(f) => {
            return Err(failure_error(f, buffer));
        },
    };
    let num_performance_cores: u16 = match number_on_line(&chars, 2) {
        Ok(v) => v,
        Err(f) => {
            return Err(failure_error(f, buffer));
        },
    };
    let num_efficiency_cores: u16 = match number_on_line(&chars, 3) {
        Ok(v) => v,
        Err(f) => {
            return Err(failure_error(f, buffer));
        },
    };
    let cpu_brand_name = String::from_str(buffer.substring_char(0, brand_end));
    assert(buffer@.subrange(0, brand_end as int) =~= buffer@.take(brand_end as int));
    Ok((cpu_brand_name, num_cpu_cores, num_efficiency_cores, num_performance_cores))
}

/// The words before the number of GPU cores.
pub open spec fn cores_marker() -> Seq<char> {
    "Total Number of Cores:"@
}

/// Whether the line, after the white space at its beginning, begins with
/// the marker.
pub open spec fn is_cores_line(line: Seq<char>) -> bool {
    cores_marker().is_prefix_of(trim_start(line))
}

/// The first line of the text that is a line of the GPU core count.
pub open spec fn cores_line(s: Seq<char>) -> Option<Seq<char>>
    decreases s.len(),
{
    if s.len() == 0 {
        None
    } else {
        let n = until(s, '\n');
        let line = as_line(s.take(n as int), n < s.len());
        if is_cores_line(line) {
            Some(line)
        } else if n < s.len() {
            cores_line(s.skip(n as int + 1))
        } else {
            None
        }
    }
}

/// What the text says of the GPU: the number after the last ": " of the
/// first line of the core count.
pub open spec fn gpu_info(buffer: Seq<char>) -> Result<u16, Failure> {
    match cores_line(buffer) {
        None => Err(Failure::Missing),
        Some(line) => number_of(last_piece(line, ": "@)),
    }
}

/// Where the first line of the GPU core count stands.
fn find_cores_line(chars: &Vec<char>) -> (r: Option<(usize, usize)>)
    ensures
        match r {
            Some((from, to)) => from <= to <= chars@.len() && cores_line(chars@) == Some(
                chars@.subrange(from as int, to as int),
            ),
            None => cores_line(chars@) is None,
        },
{
    let marker = chars_of("Total Number of Cores:");
    let n: usize = chars.len();
    let mut from: usize = 0;
    assert(chars@.skip(0) =~= chars@);
    while from < n
        invariant
            from <= n,
            n == chars@.len(),
            marker@ == cores_marker(),
            cores_line(chars@) == cores_line(chars@.skip(from as int)),
        decreases n - from,
    {
        let ghost rest = chars@.skip(from as int);
        let (end, to) = line_at(chars, from);
        let ended: bool = to < n;
        let start: usize = skip_whitespace(chars, from, end);
        if range_starts_with(chars, start, end, &marker) {
            return Some((from, end));
        }
        if !ended {
            return None;
        }
        assert(rest.skip(to - from + 1) =~= chars@.skip(to + 1));
        from = to + 1;
    }
    None
}

/// Reads the number of GPU cores from the text that the system prints for
/// the displays.
pub fn parse_gpu_info(buffer: &str) -> (r: Result<u16, Error>)
    ensures
        match (r, gpu_info(buffer@)) {
            (Ok(cores), Ok(want)) => cores == want,
            (Err(e), Err(f)) => reports(e, f, buffer@),
            _ => false,
        },
{
    let chars = chars_of(buffer);
    match find_cores_line(&chars) {
        None => Err(failure_error(Failure::Missing, buffer)),
        Some((from, to)) => {
            let sep = chars_of(": ");
            proof {
                reveal_strlit(": ");
            }
            let at: usize = last_piece_start(&chars, from, to, &sep);
            match number_in(&chars, at, to) {
                Ok(v) => Ok(v),
                Err(f) => Err(failure_error(f, buffer)),
            }
        },
    }
}

impl SocInfo {
    /// The machine description that the two texts give: the one printed for
    /// the CPU and the one printed for the displays. The CPU text is read
    /// first, and the first failure is the error.
    pub fn parse(cpu_text: &str, gpu_text: &str) -> (r: Result<SocInfo, Error>)
        ensures
            match r {
                Ok(soc) => match (cpu_info(cpu_text@), gpu_info(gpu_text@)) {
                    (Ok(cpu), Ok(gpu)) => soc@ == SocInfoView::of(cpu.0, cpu.1, cpu.2, cpu.3, gpu)
                        && soc.max_ane_mw > 0,
                    _ => false,
                },
                Err(e) => match cpu_info(cpu_text@) {
                    Err(f) => reports(e, f, cpu_text@),
                    Ok(_) => match gpu_info(gpu_text@) {
                        Err(f) => reports(e, f, gpu_text@),
                        Ok(_) => false,
                    },
                },
            },
    {
        let (brand, cores, efficiency, performance) = match parse_cpu_info(cpu_text) {
            Ok(t) => t,
            Err(e) => {
                return Err(e);
            },
        };
        let gpu_cores: u16 = match parse_gpu_info(gpu_text) {
            Ok(v) => v,
            Err(e) => {
                return Err(e);
            },
        };
        Ok(SocInfo::from_parts(brand, cores, efficiency, performance, gpu_cores))
    }
}

} // verus!
