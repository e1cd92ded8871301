use axum::http::{HeaderMap, HeaderValue};
use vela::api::{
    answer_request, apply_security_headers, bind_address, bind_error,
    extract_and_validate_bearer, handle_get_checks, handle_get_service, handle_list_services,
    handle_liveness, handle_status, key_bytes, validate_bearer, Answer, Route,
};
use vela::clock::Timestamp;
use vela::models::{
    AlertKind, AlertRecord, HealthCheckConfig, HealthCheckKind, HealthRecord, RestartRecord,
    ServiceConfig,
};
use vela::state::VelaState;

const TEST_API_KEY: &str = "test-api-key-for-unit-tests";

fn make_test_service(id: &str) -> ServiceConfig {
    ServiceConfig {
        id: id.to_string(),
        name: format!("Test Service {}", id),
        host: Some("127.0.0.1".to_string()),
        port: Some(9999),
        command: None,
        upstreams: vec![],
        restart: None,
        check_interval_secs: 10,
        failure_threshold: 3,
        max_restarts: 3,
        health_check: HealthCheckConfig {
            kind: HealthCheckKind::Tcp,
            http_path: None,
            timeout_ms: 1000,
        },
        proxy: None,
        alerts: vec![],
    }
}

fn headers(authorization: &str) -> HeaderMap {
    let mut headers = HeaderMap::new();
    headers.insert(
        "authorization",
        HeaderValue::from_bytes(authorization.as_bytes()).unwrap(),
    );
    headers
}

fn make_test_app() -> (VelaState, Vec<ServiceConfig>) {
    let mut state = VelaState::new();
    state.register_service("test-svc".to_string()).unwrap();
    (state, vec![make_test_service("test-svc")])
}

fn ask(headers: &HeaderMap, route: Route) -> Answer {
    let (state, services) = make_test_app();
    answer_request(&state, &services, TEST_API_KEY.as_bytes(), headers, &route)
}

fn ask_with_key(route: Route) -> Answer {
    ask(&headers(&format!("Bearer {}", TEST_API_KEY)), route)
}

fn refusal(answer: Answer) -> (u16, String) {
    match answer {
        Answer::Refused(refusal) => {
            assert!(!refusal.body.ok);
            assert_eq!(refusal.body.version, "1");
            (refusal.status, refusal.body.error)
        }
        other => panic!("unexpected answer {:?}", other),
    }
}

#[test]
fn valid_bearer_token_is_accepted() {
    let key = b"my-secret-key";
    assert!(extract_and_validate_bearer(&headers("Bearer my-secret-key"), key).is_ok());
}

#[test]
fn wrong_bearer_token_is_rejected() {
    let key = b"correct-key";
    assert_eq!(
        extract_and_validate_bearer(&headers("Bearer wrong-key"), key),
        Err("Bearer token does not match configured API key")
    );
}

#[test]
fn missing_authorization_header_is_rejected() {
    let key = b"any-key";
    assert_eq!(
        extract_and_validate_bearer(&HeaderMap::new(), key),
        Err("missing Authorization header")
    );
}

#[test]
fn non_bearer_auth_scheme_is_rejected() {
    let key = b"any-key";
    assert_eq!(
        extract_and_validate_bearer(&headers("Basic dXNlcjpwYXNz"), key),
        Err("Authorization header is not a Bearer token")
    );
}

#[test]
fn constant_time_comparison_different_lengths_is_rejected() {
    let key = b"long-correct-key";
    assert!(extract_and_validate_bearer(&headers("Bearer long"), key).is_err());
}

#[test]
fn authorization_outside_ascii_is_rejected() {
    assert_eq!(
        extract_and_validate_bearer(&headers("Bearer schlüssel"), "schlüssel".as_bytes()),
        Err("Authorization header contains non-ASCII characters")
    );
}

#[test]
fn header_values_are_judged_as_bytes() {
    assert!(validate_bearer(&Some(b"Bearer k\ty".to_vec()), b"k\ty").is_ok());
    assert!(validate_bearer(&Some(b"Bearer ".to_vec()), b"").is_ok());
    assert!(validate_bearer(&Some(b"bearer k".to_vec()), b"k").is_err());
    assert!(validate_bearer(&Some(b"Bearer".to_vec()), b"").is_err());
    assert!(validate_bearer(&None, b"k").is_err());
}

#[test]
fn first_authorization_header_counts() {
    let mut headers = headers("Bearer right");
    headers.append("Authorization", HeaderValue::from_static("Bearer wrong"));
    assert!(extract_and_validate_bearer(&headers, b"right").is_ok());
    assert!(extract_and_validate_bearer(&headers, b"wrong").is_err());
}

#[test]
fn liveness_endpoint_returns_200_without_auth() {
    match ask(&HeaderMap::new(), Route::Liveness) {
        Answer::Liveness(liveness) => {
            assert!(liveness.ok);
            assert_eq!(liveness.service, "vela");
        }
        other => panic!("unexpected answer {:?}", other),
    }
    assert!(matches!(ask(&HeaderMap::new(), Route::Dashboard), Answer::Dashboard));
    assert!(handle_liveness().ok);
}

#[test]
fn status_endpoint_requires_auth() {
    assert_eq!(
        refusal(ask(&HeaderMap::new(), Route::Status)),
        (401, "Authentication required".to_string())
    );
}

#[test]
fn wrong_api_key_returns_401() {
    assert_eq!(
        refusal(ask(&headers("Bearer wrong-key"), Route::Status)),
        (401, "Authentication required".to_string())
    );
}

#[test]
fn every_private_route_requires_auth() {
    let id = || "test-svc".to_string();
    for route in [
        Route::Status,
        Route::Services,
        Route::Service(id()),
        Route::Checks(id()),
        Route::Alerts(id()),
        Route::Restarts("no such id!".to_string()),
    ] {
        assert_eq!(
            refusal(ask(&headers("Basic x"), route)),
            (401, "Authentication required".to_string())
        );
    }
}

#[test]
fn correct_api_key_returns_200_for_status() {
    assert!(matches!(ask_with_key(Route::Status), Answer::Status(_)));
}

#[test]
fn status_response_includes_service_summary() {
    match ask_with_key(Route::Status) {
        Answer::Status(response) => {
            assert!(response.ok);
            assert_eq!(response.version, "1");
            assert_eq!(response.data.total_services, 1);
            assert_eq!(response.data.unknown_count, 1);
            assert_eq!(response.data.healthy_count, 0);
            assert_eq!(response.data.services[0].service_name, "Test Service test-svc");
        }
        other => panic!("unexpected answer {:?}", other),
    }
}

#[test]
fn get_service_returns_200_for_known_id() {
    match ask_with_key(Route::Service("test-svc".to_string())) {
        Answer::Service(response) => assert_eq!(response.data.service_id, "test-svc"),
        other => panic!("unexpected answer {:?}", other),
    }
}

#[test]
fn get_service_returns_404_for_unknown_id() {
    assert_eq!(
        refusal(ask_with_key(Route::Service("does-not-exist".to_string()))),
        (404, "Service not found".to_string())
    );
}

#[test]
fn get_service_returns_400_for_invalid_id_format() {
    assert_eq!(
        refusal(ask_with_key(Route::Service("../../etc/passwd".to_string()))),
        (400, "Invalid service ID format".to_string())
    );
}

#[test]
fn ids_with_letters_of_any_kind_are_looked_up() {
    for id in ["Auth", "Auth-Service", "größe", "٣"] {
        for route in [
            Route::Service(id.to_string()),
            Route::Checks(id.to_string()),
            Route::Alerts(id.to_string()),
            Route::Restarts(id.to_string()),
        ] {
            assert_eq!(
                refusal(ask_with_key(route)),
                (404, "Service not found".to_string())
            );
        }
    }
    let mut state = VelaState::new();
    state.register_service("Auth".to_string()).unwrap();
    let found = handle_get_service(&state, &vec![], "Auth").unwrap();
    assert_eq!(found.data.service_id, "Auth");
    assert_eq!(handle_get_service(&state, &vec![], "Auth.").unwrap_err().status, 400);
}

#[test]
fn responses_include_security_headers() {
    let mut headers = HeaderMap::new();
    headers.insert("server", HeaderValue::from_static("axum"));
    headers.append("cache-control", HeaderValue::from_static("public"));
    headers.append("cache-control", HeaderValue::from_static("max-age=9"));
    headers.insert("x-other", HeaderValue::from_static("kept"));
    assert!(apply_security_headers(&mut headers));
    assert_eq!(headers.get("X-Content-Type-Options").unwrap(), "nosniff");
    assert_eq!(headers.get("X-Frame-Options").unwrap(), "DENY");
    assert_eq!(headers.get_all("Cache-Control").iter().count(), 1);
    assert_eq!(headers.get("Cache-Control").unwrap(), "no-store");
    assert!(headers.get("server").is_none());
    assert_eq!(headers.get("x-other").unwrap(), "kept");
}

#[test]
fn checks_endpoint_returns_empty_list_for_new_service() {
    match ask_with_key(Route::Checks("test-svc".to_string())) {
        Answer::Checks(response) => assert!(response.data.is_empty()),
        other => panic!("unexpected answer {:?}", other),
    }
}

#[test]
fn alerts_endpoint_returns_404_for_unknown_service() {
    assert_eq!(
        refusal(ask_with_key(Route::Alerts("ghost-svc".to_string()))),
        (404, "Service not found".to_string())
    );
}

#[test]
fn history_goes_by_the_configuration() {
    let mut state = VelaState::new();
    state.register_service("removed".to_string()).unwrap();
    let services = vec![make_test_service("added")];
    assert_eq!(handle_get_checks(&state, &services, "removed").unwrap_err().status, 404);
    assert!(handle_get_checks(&state, &services, "added").unwrap().data.is_empty());
    assert_eq!(handle_get_checks(&state, &services, "a b").unwrap_err().status, 400);
    let summary = handle_get_service(&state, &services, "removed").unwrap().data;
    assert_eq!(summary.service_name, "Unknown");
}

#[test]
fn history_is_answered_in_full() {
    let (mut state, services) = make_test_app();
    let now = Timestamp::now();
    state
        .record_health_check(
            HealthRecord {
                service_id: "test-svc".to_string(),
                success: true,
                latency_ms: 4,
                checked_at: now,
                error: None,
            },
            "T".to_string(),
            3,
        )
        .unwrap();
    state
        .record_alert(AlertRecord {
            service_id: "test-svc".to_string(),
            kind: AlertKind::Log,
            delivered: true,
            trigger: "Unknown→Healthy".to_string(),
            sent_at: now,
            error: None,
        })
        .unwrap();
    state
        .record_restart(RestartRecord {
            service_id: "test-svc".to_string(),
            attempted_at: now,
            succeeded: true,
            attempt_number: 1,
        })
        .unwrap();
    let key = TEST_API_KEY.as_bytes();
    let headers = headers(&format!("Bearer {}", TEST_API_KEY));
    let id = || "test-svc".to_string();
    match answer_request(&state, &services, key, &headers, &Route::Checks(id())) {
        Answer::Checks(r) => assert_eq!(r.data[0].latency_ms, 4),
        other => panic!("unexpected answer {:?}", other),
    }
    match answer_request(&state, &services, key, &headers, &Route::Alerts(id())) {
        Answer::Alerts(r) => assert_eq!(r.data[0].trigger, "Unknown→Healthy"),
        other => panic!("unexpected answer {:?}", other),
    }
    match answer_request(&state, &services, key, &headers, &Route::Restarts(id())) {
        Answer::Restarts(r) => assert_eq!(r.data[0].attempt_number, 1),
        other => panic!("unexpected answer {:?}", other),
    }
    assert_eq!(handle_status(&state, &services).data.healthy_count, 1);
}

#[test]
fn services_are_listed_in_order() {
    let mut state = VelaState::new();
    for id in ["zeta", "alpha", "mid", "alpha-2"] {
        state.register_service(id.to_string()).unwrap();
    }
    let services = vec![make_test_service("mid")];
    let ids: Vec<String> = handle_list_services(&state, &services)
        .data
        .into_iter()
        .map(|s| s.service_id)
        .collect();
    assert_eq!(ids, vec!["alpha", "alpha-2", "mid", "zeta"]);
    match ask_with_key(Route::Services) {
        Answer::Services(response) => assert_eq!(response.data.len(), 1),
        other => panic!("unexpected answer {:?}", other),
    }
}

#[test]
fn api_key_must_not_be_blank() {
    assert_eq!(
        key_bytes("  ").unwrap_err().to_text(),
        "API error: API key must not be empty"
    );
    assert_eq!(key_bytes("schlüssel").unwrap(), "schlüssel".as_bytes().to_vec());
}

#[test]
fn api_listens_on_loopback() {
    assert_eq!(bind_address(7700), "127.0.0.1:7700");
    assert_eq!(
        bind_error("127.0.0.1:7700", "in use").to_text(),
        "API error: Failed to bind API server on 127.0.0.1:7700: in use"
    );
}
