use std::sync::Arc;

use fluvio_control::health::{
    health_address, health_response, HealthState, HTTP_200, HTTP_503, SPU_HEALTH_PORT,
};
use fluvio_control::otel::{otel_settings, RECORDS_RECEIVED};
use fluvio_types::event::StickyEvent;

#[test]
fn a_unit_is_ready_when_both_parts_are() {
    let mut state = HealthState::new();
    assert!(!state.is_ready());
    state.set_sc_connected(true);
    assert!(!state.is_ready());
    state.set_storage_ready(true);
    assert!(state.is_ready());
    state.set_sc_connected(false);
    assert!(!state.is_ready());
}

#[test]
fn all_registered_events_are_told() {
    let mut state = HealthState::new();
    let events = [StickyEvent::shared(), StickyEvent::shared()];
    for event in &events {
        state.register_shutdown_event(Arc::clone(event));
    }
    let other = StickyEvent::shared();
    assert!(events.iter().all(|event| !event.is_set()));
    state.trigger_shutdown();
    assert!(events.iter().all(|event| event.is_set()));
    assert!(!other.is_set());
}

#[test]
fn answers_to_health_checks() {
    assert_eq!(health_response(b"GET /readyz HTTP/1.1\r\n", true), HTTP_200);
    assert_eq!(health_response(b"GET /readyz", false), HTTP_503);
    assert_eq!(health_response(b"GET /ready", false), HTTP_200);
    assert_eq!(health_response(b"GET /livez HTTP/1.1", false), HTTP_200);
    assert_eq!(health_response(b"", false), HTTP_200);
    assert_eq!(HTTP_200, "HTTP/1.1 200 OK\r\nContent-Length: 2\r\n\r\nok");
    assert_eq!(
        HTTP_503,
        "HTTP/1.1 503 Service Unavailable\r\nContent-Length: 9\r\n\r\nnot ready"
    );
}

#[test]
fn where_health_checks_are_answered() {
    assert_eq!(SPU_HEALTH_PORT, 9008);
    assert_eq!(health_address(&None), "0.0.0.0:9008");
    assert_eq!(health_address(&Some("80".to_string())), "0.0.0.0:80");
    assert_eq!(health_address(&Some("65536".to_string())), "0.0.0.0:9008");
    assert_eq!(health_address(&Some("x".to_string())), "0.0.0.0:9008");
}

#[test]
fn where_observations_go() {
    let settings = otel_settings(None, None);
    assert_eq!(settings.service_name, "fluvio-sc");
    assert_eq!(settings.endpoint, "http://localhost:4317");
    let settings = otel_settings(Some("s".to_string()), Some("e".to_string()));
    assert_eq!((settings.service_name.as_str(), settings.endpoint.as_str()), ("s", "e"));
    assert_eq!(RECORDS_RECEIVED, "fluvio.spu.records.received");
}
