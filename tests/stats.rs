use pyserver::html::{format_file_size, DirectoryFile};
use pyserver::logger::{status_line, update_stats, BandwithTracker, LogMsg, Stats, StatsMsg};

#[test]
fn file_size_bytes() {
    assert_eq!(format_file_size(0), "0 B");
    assert_eq!(format_file_size(999), "999 B");
}

#[test]
fn file_size_larger_units() {
    assert_eq!(format_file_size(1000), "1.00 KB");
    assert_eq!(format_file_size(1500), "1.50 KB");
    assert_eq!(format_file_size(1_234_567), "1.23 MB");
    assert_eq!(format_file_size(5_000_000_000), "5.00 GB");
    assert_eq!(format_file_size(u64::MAX), "18446744073.71 GB");
}

#[test]
fn directory_rows() {
    let d = DirectoryFile::from_entry(true, "sub", 4096);
    assert!(d.is_dir);
    assert_eq!(d.file_name, "sub/");
    assert_eq!(d.file_size, "");
    let f = DirectoryFile::from_entry(false, "a.txt", 2500);
    assert!(!f.is_dir);
    assert_eq!(f.file_name, "a.txt");
    assert_eq!(f.file_size, "2.50 KB");
}

#[test]
fn bandwidth_window_scenario() {
    let mut t = BandwithTracker::new();
    t.add_bytes(0, 100);
    t.add_bytes(500, 200);
    assert_eq!(t.get_bandwith(900), 300);
    // the first sample is 1400 ms old here, the second 900 ms
    assert_eq!(t.get_bandwith(1400), 200);
    // at 1600 ms the second sample is 1100 ms old: it has left the window too
    assert_eq!(t.get_bandwith(1600), 0);
}

#[test]
fn bandwidth_window_boundary() {
    let mut t = BandwithTracker::new();
    t.add_bytes(0, 100);
    assert_eq!(t.get_bandwith(1000), 100);
    assert_eq!(t.get_bandwith(1001), 0);
}

#[test]
fn bandwidth_out_of_order_timestamp() {
    let mut t = BandwithTracker::new();
    t.add_bytes(2000, 10);
    t.add_bytes(500, 20);
    // the late sample counts as taken at 2000 ms
    assert_eq!(t.get_bandwith(2900), 30);
    assert_eq!(t.get_bandwith(3001), 0);
}

#[test]
fn in_flight_never_negative() {
    let mut s = Stats::new();
    assert!(update_stats(&mut s, StatsMsg::RequestEnded, 0).is_none());
    assert_eq!(s.requests, 0);
    update_stats(&mut s, StatsMsg::NewRequest, 0);
    update_stats(&mut s, StatsMsg::NewRequest, 0);
    update_stats(&mut s, StatsMsg::RequestEnded, 0);
    assert_eq!(s.requests, 1);
    assert_eq!(s.total_requests, 2);
    update_stats(&mut s, StatsMsg::RequestEnded, 0);
    update_stats(&mut s, StatsMsg::RequestEnded, 0);
    assert_eq!(s.requests, 0);
    assert_eq!(s.total_requests, 2);
}

#[test]
fn refresh_draws_status_line() {
    let mut s = Stats::new();
    update_stats(&mut s, StatsMsg::NewRequest, 0);
    update_stats(&mut s, StatsMsg::SendedBytes(100), 0);
    update_stats(&mut s, StatsMsg::SendedBytes(1400), 500);
    let line = update_stats(&mut s, StatsMsg::Refresh, 900).unwrap();
    assert_eq!(line, "Total requests: 1 | Current requests: 1 | Bytes/s: 1.50 KB/s");
    let line = update_stats(&mut s, StatsMsg::Refresh, 1200).unwrap();
    assert_eq!(line, "Total requests: 1 | Current requests: 1 | Bytes/s: 1.40 KB/s");
}

#[test]
fn status_line_text() {
    assert_eq!(
        status_line(12, 3, 999),
        "Total requests: 12 | Current requests: 3 | Bytes/s: 999 B/s"
    );
}

#[test]
fn fatal_error_exit_code() {
    assert_eq!(LogMsg::Error("bind".to_string(), true, 2).exit_code(), Some(2));
    assert_eq!(LogMsg::Error("log".to_string(), false, 0).exit_code(), None);
    assert_eq!(LogMsg::Info("hi".to_string()).exit_code(), None);
    assert_eq!(LogMsg::Stats(StatsMsg::Refresh).exit_code(), None);
}

#[test]
fn log_file_lines() {
    assert_eq!(LogMsg::Error("disk".to_string(), false, 0).log_text(), Some("disk".to_string()));
    assert_eq!(LogMsg::Info("up".to_string()).log_text(), Some("up".to_string()));
    assert_eq!(LogMsg::Request("GET /".to_string()).log_text(), Some("GET /".to_string()));
    assert_eq!(LogMsg::Stats(StatsMsg::NewRequest).log_text(), None);
}
