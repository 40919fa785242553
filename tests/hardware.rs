use monitor_server::errors::SystemError;
use monitor_server::hardware::{
    disk_figures, extract_memory_value, kernel_version_from, memory_from_meminfo,
    network_from_report, sensor_reading, system_version_from, uptime_text,
};

const MEMINFO: &str = "MemTotal:        8000000 kB\nMemFree:          500000 kB\nMemAvailable:    3000000 kB\n";

#[test]
fn system_version_reads_pretty_name() {
    let release = "NAME=\"Debian GNU/Linux\"\nPRETTY_NAME=\"Debian GNU/Linux 12 (bookworm)\"\nID=debian\n";
    assert_eq!(system_version_from(Some(release)), "Debian GNU/Linux 12 (bookworm)");
    assert_eq!(system_version_from(Some("PRETTY_NAME=a=b\n")), "a");
    assert_eq!(system_version_from(Some("ID=debian\n")), "Unknown System");
    assert_eq!(system_version_from(None), "Unknown System");
}

#[test]
fn kernel_version_is_trimmed_output() {
    assert_eq!(kernel_version_from(Some("6.1.0-18-amd64\n")), "6.1.0-18-amd64");
    assert_eq!(kernel_version_from(None), "Unknown Kernel");
}

#[test]
fn memory_entries_are_read_in_bytes() {
    assert_eq!(extract_memory_value(MEMINFO, "MemTotal"), Ok(8000000 * 1024));
    assert_eq!(extract_memory_value(MEMINFO, "MemAvailable"), Ok(3000000 * 1024));
    assert_eq!(
        extract_memory_value(MEMINFO, "SwapTotal"),
        Err(SystemError::MemoryInfoUnavailable)
    );
    assert_eq!(
        extract_memory_value("MemTotal: lots kB\n", "MemTotal"),
        Err(SystemError::MemoryInfoUnavailable)
    );
    assert_eq!(
        extract_memory_value("MemTotal: 18446744073709551615 kB\n", "MemTotal"),
        Err(SystemError::MemoryInfoUnavailable)
    );
}

#[test]
fn memory_is_used_and_total() {
    assert_eq!(
        memory_from_meminfo(MEMINFO),
        Ok((5000000 * 1024, 8000000 * 1024))
    );
    assert_eq!(
        memory_from_meminfo("MemTotal: 10 kB\n"),
        Err(SystemError::MemoryInfoUnavailable)
    );
    assert_eq!(
        memory_from_meminfo("MemTotal: 10 kB\nMemAvailable: 20 kB\n"),
        Err(SystemError::MemoryInfoUnavailable)
    );
}

#[test]
fn network_counters_are_summed() {
    let dev = "Inter-|   Receive                                                |  Transmit\n face |bytes    packets errs drop fifo frame compressed multicast|bytes    packets errs drop fifo colls carrier compressed\n    lo: 1000      10    0    0    0     0          0         0     1000      10    0    0    0     0       0          0\n  eth0: 2500      20    0    0    0     0          0         0      700      15    0    0    0     0       0          0\n";
    assert_eq!(network_from_report(dev), Ok((3500, 1700)));
    assert_eq!(network_from_report("a\nb\n"), Ok((0, 0)));
    assert_eq!(network_from_report("a\nb\nx: y\n"), Ok((0, 0)));
    let big = "h\nh\na 18446744073709551615 0 0 0 0 0 0 0 1\nb 1 0 0 0 0 0 0 0 1\n";
    assert_eq!(
        network_from_report(big),
        Err(SystemError::NetworkTrafficUnavailable)
    );
}

#[test]
fn disk_space_is_blocks_times_fragment_size() {
    assert_eq!(disk_figures(10, 40, 4096), Ok((40960, 163840)));
    assert_eq!(
        disk_figures(1, u64::MAX, 2),
        Err(SystemError::DiskInfoUnavailable)
    );
}

#[test]
fn sensor_readings_are_millidegrees() {
    assert_eq!(sensor_reading("41500\n"), Some(41500));
    assert_eq!(sensor_reading(" -2000 "), Some(-2000));
    assert_eq!(sensor_reading("hot"), None);
    assert_eq!(sensor_reading(""), None);
}

#[test]
fn uptime_is_days_hours_minutes() {
    assert_eq!(uptime_text(93780), "1 days, 2 hours, 3 minutes");
    assert_eq!(uptime_text(59), "0 days, 0 hours, 0 minutes");
}
