use stem::memory::{footprint_from_status, physical_memory_from_meminfo, proc_field_value, FALLBACK_PHYSICAL_MEMORY};

const MEMINFO: &str = "MemTotal:        3882924 kB\nMemFree:          123456 kB\nMemAvailable:    2000000 kB\n";

#[test]
fn meminfo_total_in_bytes() {
    assert_eq!(physical_memory_from_meminfo(Some(MEMINFO)), 3882924 * 1024);
    assert_eq!(physical_memory_from_meminfo(None), FALLBACK_PHYSICAL_MEMORY);
    assert_eq!(physical_memory_from_meminfo(Some("MemFree: 1 kB\n")), 2 * 1024 * 1024 * 1024);
    assert_eq!(physical_memory_from_meminfo(Some("MemTotal: lots\n")), FALLBACK_PHYSICAL_MEMORY);
    assert_eq!(physical_memory_from_meminfo(Some("MemTotal: 18446744073709551615 kB\n")), FALLBACK_PHYSICAL_MEMORY);
}

#[test]
fn status_rss_in_bytes() {
    let status = "Name:\tstem\nVmPeak:\t  1000 kB\nVmRSS:\t   2048 kB\r\nThreads:\t4\n";
    assert_eq!(footprint_from_status(Some(status)), 2048 * 1024);
    assert_eq!(footprint_from_status(Some("VmRSS:\n")), 0);
    assert_eq!(footprint_from_status(None), 0);
}

#[test]
fn first_matching_line_and_second_field() {
    assert_eq!(proc_field_value("A: 1\nA: 2\n", "A:"), Some(1));
    assert_eq!(proc_field_value("xA: 1\nA:\t+7 kB", "A:"), Some(7));
    assert_eq!(proc_field_value("A:5 6\n", "A:"), Some(6));
    assert_eq!(proc_field_value("", "A:"), None);
    assert_eq!(proc_field_value("A: -1\n", "A:"), None);
}
