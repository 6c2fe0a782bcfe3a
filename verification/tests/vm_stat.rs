use pumas::snapshot::{core_id_of_name, MemoryMetrics};
use pumas::vm_stat::{VmStats, DEFAULT_PAGE_SIZE};

const OUTPUT: &str = "Mach Virtual Memory Statistics: (page size of 16384 bytes)
Pages free:                               12345.
Pages active:                            234567.
Pages inactive:                          222222.
Pages speculative:                         5555.
Pages throttled:                              0.
Pages wired down:                        111111.
Pages purgeable:                           4444.
\"Translation faults\":                 987654321.
Pages copy-on-write:                    1234567.
Anonymous pages:                         333333.
File-backed pages:                       123456.
Pages stored in compressor:              444444.
Pages occupied by compressor:            100000.
Swapins:                                      0.
Swapouts:                                     0.
";

#[test]
fn parse_reads_page_size_and_counts() {
    let stats = VmStats::parse(OUTPUT);
    assert_eq!(
        stats,
        VmStats {
            page_size: 16384,
            pages_active: 234567,
            pages_inactive: 222222,
            pages_wired: 111111,
            pages_file_backed: 123456,
            pages_anonymous: 333333,
            pages_compressed: 444444,
            pages_free: 12345,
        }
    );
}

#[test]
fn parse_of_empty_text_is_all_zero() {
    assert_eq!(VmStats::parse(""), VmStats::default());
    assert_eq!(VmStats::parse("\n\n"), VmStats::default());
    assert_eq!(VmStats::default().page_size, 0);
}

#[test]
fn page_size_falls_back_when_unreadable() {
    assert_eq!(DEFAULT_PAGE_SIZE, 4096);
    let stats = VmStats::parse("Mach Virtual Memory Statistics: (page size of many bytes)\n");
    assert_eq!(stats.page_size, 4096);
    let stats = VmStats::parse("Mach Virtual Memory Statistics: (page size of  bytes)\n");
    assert_eq!(stats.page_size, 4096);
    let stats =
        VmStats::parse("Mach Virtual Memory Statistics: (page size of 99999999999999999999 bytes)");
    assert_eq!(stats.page_size, 4096);
}

#[test]
fn header_without_closing_words_is_skipped() {
    let stats = VmStats::parse("Mach Virtual Memory Statistics: (page size of 16384 bytes).\n");
    assert_eq!(stats.page_size, 0);
    let stats = VmStats::parse("Mach Virtual Memory Statistics: (page size of 16384\n");
    assert_eq!(stats.page_size, 0);
    let stats = VmStats::parse("Mach Virtual Memory Statistics: (page size of  bytes");
    assert_eq!(stats.page_size, 0);
}

#[test]
fn later_lines_override_earlier_ones() {
    let stats = VmStats::parse("Pages free: 1.\nPages free: 2.\nPages free: x.\n");
    assert_eq!(stats.pages_free, 2);
}

#[test]
fn lines_with_other_shapes_are_skipped() {
    let text = "Pages free 7.\nPages free: 7: 8.\n: 9\nPages active:\nPages inactive: -3.\nPages wired down : 6...\n  Anonymous pages\t:\t+5\r\nPages Free: 4.\nFile-backed pages: 1 .\nPages stored in compressor: 3.";
    let stats = VmStats::parse(text);
    assert_eq!(
        stats,
        VmStats {
            page_size: 0,
            pages_active: 0,
            pages_inactive: 0,
            pages_wired: 6,
            pages_file_backed: 0,
            pages_anonymous: 5,
            pages_compressed: 3,
            pages_free: 0,
        }
    );
}

#[test]
fn memory_used_counts_anonymous_wired_and_compressed() {
    let stats = VmStats::parse(OUTPUT);
    assert!(stats.memory_used_fits());
    assert_eq!(
        stats.activity_monitor_memory_used(),
        (333333 + 111111 + 444444) * 16384
    );
}

#[test]
fn total_memory_counts_free_active_inactive_and_wired() {
    let stats = VmStats::parse(OUTPUT);
    assert!(stats.total_memory_fits());
    assert_eq!(stats.total_memory(), (12345 + 234567 + 222222 + 111111) * 16384);
}

#[test]
fn memory_figures_with_page_size_zero() {
    let stats = VmStats {
        page_size: 0,
        pages_active: u64::MAX,
        pages_inactive: u64::MAX,
        pages_wired: u64::MAX,
        pages_file_backed: 0,
        pages_anonymous: u64::MAX,
        pages_compressed: u64::MAX,
        pages_free: u64::MAX,
    };
    assert!(stats.memory_used_fits());
    assert!(stats.total_memory_fits());
    assert_eq!(stats.activity_monitor_memory_used(), 0);
    assert_eq!(stats.total_memory(), 0);
}

#[test]
fn memory_figures_that_do_not_fit() {
    let stats = VmStats {
        page_size: 2,
        pages_active: 0,
        pages_inactive: 0,
        pages_wired: 1,
        pages_file_backed: 0,
        pages_anonymous: u64::MAX / 2,
        pages_compressed: 0,
        pages_free: u64::MAX / 2,
    };
    assert!(!stats.memory_used_fits());
    assert!(!stats.total_memory_fits());
    let stats = VmStats { pages_wired: 0, ..stats };
    assert!(stats.memory_used_fits());
    assert!(stats.total_memory_fits());
    assert_eq!(stats.activity_monitor_memory_used(), u64::MAX - 1);
    assert_eq!(stats.total_memory(), u64::MAX - 1);
    let stats = VmStats { page_size: 1, pages_wired: u64::MAX, pages_anonymous: 1, ..stats };
    assert!(!stats.memory_used_fits());
}

#[test]
fn core_identifiers_from_names() {
    assert_eq!(core_id_of_name("1"), 0);
    assert_eq!(core_id_of_name("8"), 7);
    assert_eq!(core_id_of_name("0"), 0);
    assert_eq!(core_id_of_name("65535"), 65534);
    assert_eq!(core_id_of_name("65536"), 0);
    assert_eq!(core_id_of_name("cpu1"), 0);
    assert_eq!(core_id_of_name(""), 0);
    assert_eq!(core_id_of_name("+3"), 2);
}

#[test]
fn memory_prefers_page_statistics() {
    let stats = VmStats::parse(OUTPUT);
    assert_eq!(
        MemoryMetrics::from_sources(100, 50, 10, 5, Some(stats)),
        MemoryMetrics {
            ram_total: 100,
            ram_used: (333333 + 111111 + 444444) * 16384,
            swap_total: 10,
            swap_used: 5,
        }
    );
    assert_eq!(
        MemoryMetrics::from_sources(100, 50, 10, 5, None),
        MemoryMetrics { ram_total: 100, ram_used: 50, swap_total: 10, swap_used: 5 }
    );
}
