use rest_countries_plugin::config::{ServiceCfg, ServiceState, SweeperStatus};
use rest_countries_plugin::digits::dec_string;
use rest_countries_plugin::errors::{error_response, AppError, ErrorKind};

#[test]
fn apply_config_uses_default_url_when_none_is_given() {
    let mut state = ServiceState::new();
    state.apply_config(&ServiceCfg { ttl: 60, countries_url: None });
    assert_eq!(state.countries_url, "https://restcountries.com");
    assert_eq!(state.ttl, 60);
}

#[test]
fn apply_config_uses_the_configured_url() {
    let mut state = ServiceState::new();
    state.apply_config(&ServiceCfg {
        ttl: 30,
        countries_url: Some("http://localhost:8080".to_string()),
    });
    assert_eq!(state.countries_url, "http://localhost:8080");
    assert_eq!(state.ttl, 30);
}

#[test]
fn start_registers_the_sweeper_with_the_configured_ttl() {
    let mut state = ServiceState::new();
    let r = state.on_start(&ServiceCfg { ttl: 100, countries_url: None }, true);
    assert!(r.is_ok());
    assert!(matches!(state.sweeper, SweeperStatus::Running(100)));
}

#[test]
fn failed_start_registration_is_a_config_error() {
    let mut state = ServiceState::new();
    let err = state.on_start(&ServiceCfg { ttl: 100, countries_url: None }, false).unwrap_err();
    assert_eq!(err.kind, ErrorKind::Config);
    assert_eq!(err.status(), 500);
    assert!(matches!(state.sweeper, SweeperStatus::Stopped));
}

#[test]
fn reconfiguration_replaces_the_sweeper_with_the_new_ttl() {
    let mut state = ServiceState::new();
    state.on_start(&ServiceCfg { ttl: 100, countries_url: None }, true).unwrap();
    let r = state.on_config_change(&ServiceCfg { ttl: 5, countries_url: None }, true, true);
    assert!(r.is_ok());
    assert!(matches!(state.sweeper, SweeperStatus::Running(5)));
}

#[test]
fn failed_cancel_on_reconfiguration_is_fatal_and_leaves_the_old_sweeper() {
    let mut state = ServiceState::new();
    state.on_start(&ServiceCfg { ttl: 100, countries_url: None }, true).unwrap();
    let err = state
        .on_config_change(&ServiceCfg { ttl: 5, countries_url: None }, false, true)
        .unwrap_err();
    assert_eq!(err.kind, ErrorKind::Config);
    assert!(err.message().contains("cancel"));
    assert!(matches!(state.sweeper, SweeperStatus::Running(100)));
}

#[test]
fn failed_register_on_reconfiguration_is_fatal_and_leaves_no_sweeper() {
    let mut state = ServiceState::new();
    state.on_start(&ServiceCfg { ttl: 100, countries_url: None }, true).unwrap();
    let err = state
        .on_config_change(&ServiceCfg { ttl: 5, countries_url: None }, true, false)
        .unwrap_err();
    assert_eq!(err.kind, ErrorKind::Config);
    assert!(err.message().contains("register"));
    assert!(matches!(state.sweeper, SweeperStatus::Stopped));
}

#[test]
fn stop_cancels_the_sweeper() {
    let mut state = ServiceState::new();
    state.on_start(&ServiceCfg { ttl: 100, countries_url: None }, true).unwrap();
    assert!(state.on_stop(true).is_ok());
    assert!(matches!(state.sweeper, SweeperStatus::Stopped));
}

#[test]
fn failed_stop_is_a_config_error() {
    let mut state = ServiceState::new();
    state.on_start(&ServiceCfg { ttl: 100, countries_url: None }, true).unwrap();
    let err = state.on_stop(false).unwrap_err();
    assert_eq!(err.kind, ErrorKind::Config);
    assert!(matches!(state.sweeper, SweeperStatus::Running(100)));
}

#[test]
fn decimal_rendering_is_exact() {
    assert_eq!(dec_string(0), "0");
    assert_eq!(dec_string(7), "7");
    assert_eq!(dec_string(42), "42");
    assert_eq!(dec_string(503), "503");
    assert_eq!(dec_string(65535), "65535");
    assert_eq!(dec_string(u64::MAX), "18446744073709551615");
}

#[test]
fn upstream_failure_message_carries_status_and_body() {
    let e = AppError::upstream_failure(404, "not found");
    assert_eq!(
        e.message(),
        "Upstream API returned non-OK status: 404. Body: not found"
    );
    assert_eq!(e.status(), 500);
}

#[test]
fn error_response_maps_kinds_to_statuses() {
    let v = AppError::bad_request("Country name is required");
    let (status, body) = error_response(&v);
    assert_eq!(status, 400);
    assert_eq!(body, "Country name is required");

    let s = AppError::storage("failed to retrieve data");
    let (status, body) = error_response(&s);
    assert_eq!(status, 500);
    assert_eq!(body, "failed to retrieve data");
}
