//! Memory statistics as the system's `vm_stat` tool prints them, and the
//! memory figures derived from them.

use vstd::prelude::*;
use vstd::string::*;
use crate::text::{
    as_line, chars_of, find_char, lemma_until, lemma_until_is, line_at, parse_unsigned,
    parse_unsigned_in, range_ends_with, range_equals, range_starts_with, skip_char_back,
    skip_whitespace, skip_whitespace_back, trim, trim_end_of, until,
};

verus! {

/// Page counts and the page size.
#[derive(Debug, Default, Clone, Copy, PartialEq, Eq, Structural)]
pub struct VmStats {
    pub page_size: u64,
    pub pages_active: u64,
    pub pages_inactive: u64,
    pub pages_wired: u64,
    pub pages_file_backed: u64,
    pub pages_anonymous: u64,
    pub pages_compressed: u64,
    pub pages_free: u64,
}

/// The page size that is taken where the header names none that can be read.
pub const DEFAULT_PAGE_SIZE: u64 = 4096;

/// The words of the header line before the page size.
pub open spec fn header_prefix() -> Seq<char> {
    "Mach Virtual Memory Statistics: (page size of "@
}

/// The words of the header line after the page size.
pub open spec fn header_suffix() -> Seq<char> {
    " bytes)"@
}

/// The number that a text denotes, if it denotes one that fits 64 bits.
pub open spec fn number_of(text: Seq<char>) -> Option<u64> {
    match parse_unsigned(text, u64::MAX as nat) {
        Ok(v) => Some(v as u64),
        Err(_) => None,
    }
}

/// The name and the number of a line of the form "name: number.": the line
/// holds exactly one colon, the name is what stands before it without the
/// white space around it, and the number is what stands after it without
/// the white space around it and without the full stops at its end.
pub open spec fn entry(line: Seq<char>) -> Option<(Seq<char>, u64)> {
    let colon = until(line, ':');
    if colon >= line.len() {
        None
    } else {
        let rest = line.skip(colon as int + 1);
        if until(rest, ':') < rest.len() {
            None
        } else {
            match number_of(trim_end_of(trim(rest), '.')) {
                Some(v) => Some((trim(line.take(colon as int)), v)),
                None => None,
            }
        }
    }
}

impl VmStats {
    /// All counts and the page size 0.
    pub open spec fn zero() -> VmStats {
        VmStats {
            page_size: 0,
            pages_active: 0,
            pages_inactive: 0,
            pages_wired: 0,
            pages_file_backed: 0,
            pages_anonymous: 0,
            pages_compressed: 0,
            pages_free: 0,
        }
    }

    /// The statistics with the count of the given name set; unchanged for a
    /// name that is not one of the seven counts.
    pub open spec fn with(self, name: Seq<char>, value: u64) -> VmStats {
        if name == "Pages active"@ {
            VmStats { pages_active: value, ..self }
        } else if name == "Pages inactive"@ {
            VmStats { pages_inactive: value, ..self }
        } else if name == "Pages wired down"@ {
            VmStats { pages_wired: value, ..self }
        } else if name == "File-backed pages"@ {
            VmStats { pages_file_backed: value, ..self }
        } else if name == "Anonymous pages"@ {
            VmStats { pages_anonymous: value, ..self }
        } else if name == "Pages stored in compressor"@ {
            VmStats { pages_compressed: value, ..self }
        } else if name == "Pages free"@ {
            VmStats { pages_free: value, ..self }
        } else {
            self
        }
    }

    /// The statistics after one more line was read. A line that begins with
    /// the header words sets the page size if it also ends with the closing
    /// words: to the number between them, or to `DEFAULT_PAGE_SIZE` where
    /// that is no number. Any other line with a name and a number sets the
    /// count of that name.
    pub open spec fn absorbed(self, line: Seq<char>) -> VmStats {
        if header_prefix().is_prefix_of(line) {
            let rest = line.skip(header_prefix().len() as int);
            if header_suffix().is_suffix_of(rest) {
                let size = match number_of(rest.take(rest.len() - header_suffix().len())) {
                    Some(v) => v,
                    None => DEFAULT_PAGE_SIZE,
                };
                VmStats { page_size: size, ..self }
            } else {
                self
            }
        } else {
            match entry(line) {
                Some((name, value)) => self.with(name, value),
                None => self,
            }
        }
    }

    /// The statistics after every line of the text was read, from the first
    /// to the last.
    pub open spec fn read(self, text: Seq<char>) -> VmStats
        decreases text.len(),
    {
        if text.len() == 0 {
            self
        } else {
            let n = until(text, '\n');
            let next = self.absorbed(as_line(text.take(n as int), n < text.len()));
            if n < text.len() {
                next.read(text.skip(n as int + 1))
            } else {
                next
            }
        }
    }

    /// Memory in use as the system's activity monitor counts it: anonymous,
    /// wired and compressed pages, in bytes.
    pub open spec fn spec_memory_used(self) -> nat {
        ((self.pages_anonymous + self.pages_wired + self.pages_compressed) * self.page_size) as nat
    }

    /// Physical memory: free, active, inactive and wired pages, in bytes.
    pub open spec fn spec_total_memory(self) -> nat {
        ((self.pages_free + self.pages_active + self.pages_inactive + self.pages_wired)
            * self.page_size) as nat
    }

    /// Reads the statistics from the text that the tool prints.
    pub fn parse(output: &str) -> (r: Self)
        ensures
            r == VmStats::zero().read(output@),
    {
        let chars = chars_of(output);
        let prefix = chars_of("Mach Virtual Memory Statistics: (page size of ");
        let suffix = chars_of(" bytes)");
        let names = KeyNames::new();
        let mut stats = VmStats {
            page_size: 0,
            pages_active: 0,
            pages_inactive: 0,
            pages_wired: 0,
            pages_file_backed: 0,
            pages_anonymous: 0,
            pages_compressed: 0,
            pages_free: 0,
        };
        let n: usize = chars.len();
        let mut from: usize = 0;
        assert(chars@.skip(0) =~= chars@);
        while from < n
            invariant
                from <= n,
                n == chars@.len(),
                chars@ == output@,
                prefix@ == header_prefix(),
                suffix@ == header_suffix(),
                names.wf(),
                VmStats::zero().read(chars@) == stats.read(chars@.skip(from as int)),
            decreases n - from,
        {
            let ghost rest = chars@.skip(from as int);
            let (end, stop) = line_at(&chars, from);
            stats = stats.absorb_range(&chars, from, end, &prefix, &suffix, &names);
            if stop >= n {
                return stats;
            }
            assert(rest.skip(stop - from + 1) =~= chars@.skip(stop + 1));
            from = stop + 1;
        }
        stats
    }

    /// The statistics after the line from `from` up to `to` was read.
    fn absorb_range(
        self,
        chars: &Vec<char>,
        from: usize,
        to: usize,
        prefix: &Vec<char>,
        suffix: &Vec<char>,
        names: &KeyNames,
    ) -> (r: Self)
        requires
            from <= to <= chars@.len(),
            prefix@ == header_prefix(),
            suffix@ == header_suffix(),
            names.wf(),
        ensures
            r == self.absorbed(chars@.subrange(from as int, to as int)),
    {
        let ghost line = chars@.subrange(from as int, to as int);
        if range_starts_with(chars, from, to, prefix) {
            let body: usize = from + prefix.len();
            assert(line.skip(prefix@.len() as int) =~= chars@.subrange(body as int, to as int));
            if range_ends_with(chars, body, to, suffix) {
                let close: usize = to - suffix.len();
                assert(chars@.subrange(body as int, to as int).take(to - body - suffix@.len())
                    =~= chars@.subrange(body as int, close as int));
                let size: u64 = match parse_unsigned_in(chars, body, close, u64::MAX) {
                    Ok(v) => v,
                    Err(_) => DEFAULT_PAGE_SIZE,
                };
                let mut r = self;
                r.page_size = size;
                r
            } else {
                self
            }
        } else {
            let colon: usize = find_char(chars, from, ':');
            proof {
                assert(chars@.skip(from as int).take(to - from) =~= line);
                lemma_until_within(chars@, from as int, to as int, ':');
            }
            if colon >= to {
                return self;
            }
            let second: usize = find_char(chars, colon + 1, ':');
            proof {
                lemma_until_within(chars@, colon + 1, to as int, ':');
                assert(line.skip(colon - from + 1) =~= chars@.subrange(colon + 1, to as int));
                assert(line.take(colon - from) =~= chars@.subrange(from as int, colon as int));
            }
            if second < to {
                return self;
            }
            let name_from: usize = skip_whitespace(chars, from, colon);
            let name_to: usize = skip_whitespace_back(chars, name_from, colon);
            let value_from: usize = skip_whitespace(chars, colon + 1, to);
            let value_mid: usize = skip_whitespace_back(chars, value_from, to);
            let value_to: usize = skip_char_back(chars, value_from, value_mid, '.');
            match parse_unsigned_in(chars, value_from, value_to, u64::MAX) {
                Ok(v) => self.set(chars, name_from, name_to, v, names),
                Err(_) => self,
            }
        }
    }

    /// The statistics with the count whose name stands from `from` up to
    /// `to` set.
    fn set(self, chars: &Vec<char>, from: usize, to: usize, value: u64, names: &KeyNames) -> (r:
        Self)
        requires
            from <= to <= chars@.len(),
            names.wf(),
        ensures
            r == self.with(chars@.subrange(from as int, to as int), value),
    {
        let mut r = self;
        if range_equals(chars, from, to, &names.active) {
            r.pages_active = value;
        } else if range_equals(chars, from, to, &names.inactive) {
            r.pages_inactive = value;
        } else if range_equals(chars, from, to, &names.wired) {
            r.pages_wired = value;
        } else if range_equals(chars, from, to, &names.file_backed) {
            r.pages_file_backed = value;
        } else if range_equals(chars, from, to, &names.anonymous) {
            r.pages_anonymous = value;
        } else if range_equals(chars, from, to, &names.compressed) {
            r.pages_compressed = value;
        } else if range_equals(chars, from, to, &names.free) {
            r.pages_free = value;
        }
        r
    }

    /// Whether memory in use fits 64 bits.
    pub fn memory_used_fits(&self) -> (r: bool)
        ensures
            r == (self.spec_memory_used() <= u64::MAX),
    {
        let pages: u128 = self.pages_anonymous as u128 + self.pages_wired as u128
            + self.pages_compressed as u128;
        let p: u128 = self.page_size as u128;
        if p == 0 {
            assert(pages * p == 0) by (nonlinear_arith)
                requires
                    p == 0,
            ;
            return true;
        }
        if pages > u64::MAX as u128 {
            assert(pages * p > u64::MAX) by (nonlinear_arith)
                requires
                    p >= 1,
                    pages > u64::MAX,
            ;
            return false;
        }
        assert(pages * p <= 0xffff_ffff_ffff_ffff * 0xffff_ffff_ffff_ffff) by (nonlinear_arith)
            requires
                0 <= pages <= 0xffff_ffff_ffff_ffff,
                0 <= p <= 0xffff_ffff_ffff_ffff,
        ;
        pages * p <= u64::MAX as u128
    }

    /// Whether physical memory fits 64 bits.
    pub fn total_memory_fits(&self) -> (r: bool)
        ensures
            r == (self.spec_total_memory() <= u64::MAX),
    {
        let pages: u128 = self.pages_free as u128 + self.pages_active as u128
            + self.pages_inactive as u128 + self.pages_wired as u128;
        let p: u128 = self.page_size as u128;
        if p == 0 {
            assert(pages * p == 0) by (nonlinear_arith)
                requires
                    p == 0,
            ;
            return true;
        }
        if pages > u64::MAX as u128 {
            assert(pages * p > u64::MAX) by (nonlinear_arith)
                requires
                    p >= 1,
                    pages > u64::MAX,
            ;
            return false;
        }
        assert(pages * p <= 0xffff_ffff_ffff_ffff * 0xffff_ffff_ffff_ffff) by (nonlinear_arith)
            requires
                0 <= pages <= 0xffff_ffff_ffff_ffff,
                0 <= p <= 0xffff_ffff_ffff_ffff,
        ;
        pages * p <= u64::MAX as u128
    }

    /// Memory in use as the system's activity monitor counts it, in bytes.
    pub fn activity_monitor_memory_used(&self) -> (r: u64)
        requires
            self.spec_memory_used() <= u64::MAX,
        ensures
            r == self.spec_memory_used(),
    {
        let p: u64 = self.page_size;
        let a: u64 = self.pages_anonymous;
        let w: u64 = self.pages_wired;
        let c: u64 = self.pages_compressed;
        proof {
            assert((a + w + c) * p == a * p + w * p + c * p) by (nonlinear_arith);
            assert(a * p >= 0 && w * p >= 0 && c * p >= 0) by (nonlinear_arith)
                requires
                    a >= 0,
                    w >= 0,
                    c >= 0,
                    p >= 0,
            ;
        }
        let app_memory: u64 = a * p;
        let wired_memory: u64 = w * p;
        let compressed_memory: u64 = c * p;
        app_memory + wired_memory + compressed_memory
    }

    /// Physical memory, in bytes.
    pub fn total_memory(&self) -> (r: u64)
        requires
            self.spec_total_memory() <= u64::MAX,
        ensures
            r == self.spec_total_memory(),
    {
        let p: u64 = self.page_size;
        if p == 0 {
            assert(self.spec_total_memory() == 0) by (nonlinear_arith)
                requires
                    self.page_size == 0,
                    self.spec_total_memory() == ((self.pages_free + self.pages_active
                        + self.pages_inactive + self.pages_wired) * self.page_size) as nat,
            ;
            return 0;
        }
        let pages: u128 = self.pages_free as u128 + self.pages_active as u128
            + self.pages_inactive as u128 + self.pages_wired as u128;
        assert(pages <= pages * p <= u64::MAX) by (nonlinear_arith)
            requires
                p >= 1,
                pages >= 0,
                pages * p <= u64::MAX,
        ;
        (pages as u64) * p
    }
}

/// The names of the seven counts, as characters.
struct KeyNames {
    active: Vec<char>,
    inactive: Vec<char>,
    wired: Vec<char>,
    file_backed: Vec<char>,
    anonymous: Vec<char>,
    compressed: Vec<char>,
    free: Vec<char>,
}

impl KeyNames {
    spec fn wf(&self) -> bool {
        &&& self.active@ == "Pages active"@
        &&& self.inactive@ == "Pages inactive"@
        &&& self.wired@ == "Pages wired down"@
        &&& self.file_backed@ == "File-backed pages"@
        &&& self.anonymous@ == "Anonymous pages"@
        &&& self.compressed@ == "Pages stored in compressor"@
        &&& self.free@ == "Pages free"@
    }

    fn new() -> (r: Self)
        ensures
            r.wf(),
    {
        KeyNames {
            active: chars_of("Pages active"),
            inactive: chars_of("Pages inactive"),
            wired: chars_of("Pages wired down"),
            file_backed: chars_of("File-backed pages"),
            anonymous: chars_of("Anonymous pages"),
            compressed: chars_of("Pages stored in compressor"),
            free: chars_of("Pages free"),
        }
    }
}

/// Where a character first stands in a part of a text that ends at `to`,
/// seen from the whole text and seen from the part.
proof fn lemma_until_within(s: Seq<char>, from: int, to: int, c: char)
    requires
        0 <= from <= to <= s.len(),
    ensures
        until(s.subrange(from, to), c) == if until(s.skip(from), c) < to - from {
            until(s.skip(from), c)
        } else {
            (to - from) as nat
        },
{
    let whole = s.skip(from);
    let part = s.subrange(from, to);
    lemma_until(whole, c);
    let n = until(whole, c) as int;
    let m = if n < to - from { n } else { to - from };
    assert forall|i: int| 0 <= i < m implies part[i] != c by {
        assert(part[i] == whole[i]);
    }
    if m < part.len() {
        assert(part[m] == whole[m]);
    }
    lemma_until_is(part, c, m);
}

} // verus!
