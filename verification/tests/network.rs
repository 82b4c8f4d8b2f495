use vibe_easytier_service::network::{connectivity_level_available, NetworkMonitor, NetworkProbeError};

#[test]
fn monitor_only_emits_confirmed_transitions() {
    let mut monitor = NetworkMonitor::with_initial(true);

    assert_eq!(monitor.observe(true), None);
    assert_eq!(monitor.observe(false), Some(false));
    assert!(!monitor.available());
    assert_eq!(monitor.observe(false), None);
    assert_eq!(monitor.observe(true), Some(true));
    assert!(monitor.available());
}

#[test]
fn a_failed_first_probe_assumes_the_network_is_available() {
    let monitor = NetworkMonitor::new(Err(NetworkProbeError::windows(5)));
    assert!(monitor.available());
    let offline = NetworkMonitor::new(Ok(false));
    assert!(!offline.available());
}

#[test]
fn a_failed_refresh_keeps_the_last_known_state() {
    let mut monitor = NetworkMonitor::with_initial(false);
    let error = NetworkProbeError::windows(87);
    assert_eq!(monitor.refresh(Err(error.clone())), Err(error));
    assert!(!monitor.available());
    assert_eq!(monitor.refresh(Ok(true)), Ok(Some(true)));
    assert_eq!(monitor.refresh(Ok(true)), Ok(None));
}

#[test]
fn probe_errors_name_the_windows_error_code() {
    assert_eq!(
        NetworkProbeError::windows(1231).message(),
        "network availability probe failed: GetNetworkConnectivityHint returned Windows error 1231"
    );
}

#[test]
fn only_local_access_and_internet_levels_count_as_available() {
    assert!(!connectivity_level_available(0));
    assert!(!connectivity_level_available(1));
    assert!(connectivity_level_available(2));
    assert!(connectivity_level_available(3));
    assert!(connectivity_level_available(4));
    assert!(!connectivity_level_available(5));
}
