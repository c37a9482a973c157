use zdmr::planner::throughput_bps;
use zdmr::settings::{settings_from_raw, with_bootstrap_defaults, RawSettings};

fn raw() -> RawSettings {
    RawSettings {
        default_download_dir: None,
        bandwidth_limit_bps: None,
        minimize_to_tray: None,
        theme: None,
        skin: None,
        global_hotkey: None,
        global_proxy_enabled: None,
        global_proxy_url: None,
        local_api_port: None,
    }
}

#[test]
fn settings_defaults_when_nothing_stored() {
    let s = settings_from_raw(raw());
    assert_eq!(s.default_download_dir, "");
    assert_eq!(s.bandwidth_limit_bps, None);
    assert!(s.minimize_to_tray);
    assert_eq!(s.theme, "dark");
    assert!(!s.global_proxy_enabled);
    assert_eq!(s.global_proxy_url, None);
    assert_eq!(s.local_api_port, 17777);
}

#[test]
fn settings_read_stored_text() {
    let mut r = raw();
    r.bandwidth_limit_bps = Some("1024".to_string());
    r.minimize_to_tray = Some("0".to_string());
    r.global_proxy_enabled = Some("1".to_string());
    r.global_proxy_url = Some("   ".to_string());
    r.local_api_port = Some("abc".to_string());
    let s = settings_from_raw(r);
    assert_eq!(s.bandwidth_limit_bps, Some(1024));
    assert!(!s.minimize_to_tray);
    assert!(s.global_proxy_enabled);
    assert_eq!(s.global_proxy_url, None);
    assert_eq!(s.local_api_port, 17777);
    let mut z = raw();
    z.bandwidth_limit_bps = Some("0".to_string());
    assert_eq!(settings_from_raw(z).bandwidth_limit_bps, None);
}

#[test]
fn bootstrap_fills_missing_settings() {
    let mut r = raw();
    r.theme = Some(" ".to_string());
    r.local_api_port = Some("-1".to_string());
    let mut s = settings_from_raw(r);
    with_bootstrap_defaults(&mut s, "/home/u/Downloads".to_string());
    assert_eq!(s.default_download_dir, "/home/u/Downloads");
    assert_eq!(s.theme, "dark");
    assert_eq!(s.local_api_port, 17777);
}

#[test]
fn warmup_throughput() {
    assert_eq!(throughput_bps(1_048_576, 40_000), Some(26_214_400));
    assert_eq!(throughput_bps(10, 0), None);
    assert_eq!(throughput_bps(u64::MAX, 1), Some(u64::MAX));
}
