use vela::alert::{
    alert_record, build_webhook_payload, client_error, deliver_log, deliver_webhook,
    dispatch_alert, handle_event, handle_event_at, is_rate_limited, is_rate_limited_at,
    should_suppress_event, update_rate_limit, update_rate_limit_at,
    validate_webhook_parts, validate_webhook_url, was_delivered, AlertPlan, Delivery, Dispatch,
    LogLevel, RateLimitEntry,
};
use vela::clock::Timestamp;
use vela::models::{
    AlertKind, AlertTargetConfig, HealthCheckConfig, HealthCheckKind, ServiceConfig,
    ServiceStatus, StatusChangeEvent, MAX_ALERT_MESSAGE_LEN, MAX_ALERT_NAME_LEN,
};
use vela::state::VelaState;
use vela::table::Table;
use vela::unicode::truncate_str;

fn at(secs: i64) -> Timestamp {
    Timestamp::new(secs, 0).unwrap()
}

fn make_event(service_id: &str, from: ServiceStatus, to: ServiceStatus) -> StatusChangeEvent {
    StatusChangeEvent {
        service_id: service_id.to_string(),
        service_name: format!("Service {}", service_id),
        previous_status: from,
        new_status: to,
        timestamp: Timestamp::now(),
        message: "Test status change".to_string(),
    }
}

fn make_service_with_alerts(id: &str, alerts: Vec<AlertTargetConfig>) -> ServiceConfig {
    ServiceConfig {
        id: id.to_string(),
        name: format!("Service {}", id),
        host: Some("127.0.0.1".to_string()),
        port: Some(9999),
        command: None,
        upstreams: vec![],
        restart: None,
        check_interval_secs: 10,
        failure_threshold: 3,
        max_restarts: 3,
        health_check: HealthCheckConfig {
            kind: HealthCheckKind::Tcp,
            http_path: None,
            timeout_ms: 1000,
        },
        proxy: None,
        alerts,
    }
}

fn begin(
    event: &StatusChangeEvent,
    services: &Vec<ServiceConfig>,
    limits: &mut Table<RateLimitEntry>,
) -> Dispatch {
    match handle_event_at(event, services, limits, at(1)) {
        AlertPlan::Dispatch(dispatch) => dispatch,
        other => panic!("unexpected plan {:?}", other),
    }
}

fn log_target(enabled: bool) -> AlertTargetConfig {
    AlertTargetConfig {
        kind: AlertKind::Log,
        endpoint: None,
        enabled,
    }
}

fn webhook(endpoint: Option<&str>) -> AlertTargetConfig {
    AlertTargetConfig {
        kind: AlertKind::Webhook,
        endpoint: endpoint.map(|s| s.to_string()),
        enabled: true,
    }
}

#[test]
fn suppress_healthy_to_healthy_transition() {
    let event = make_event("svc", ServiceStatus::Healthy, ServiceStatus::Healthy);
    assert!(should_suppress_event(&event));
}

#[test]
fn suppress_unknown_to_unknown_transition() {
    let event = make_event("svc", ServiceStatus::Unknown, ServiceStatus::Unknown);
    assert!(should_suppress_event(&event));
}

#[test]
fn suppress_degraded_to_degraded_transition() {
    let event = make_event("svc", ServiceStatus::Degraded, ServiceStatus::Degraded);
    assert!(should_suppress_event(&event));
}

#[test]
fn do_not_suppress_failed_to_failed() {
    let event = make_event("svc", ServiceStatus::Failed, ServiceStatus::Failed);
    assert!(!should_suppress_event(&event));
}

#[test]
fn do_not_suppress_healthy_to_failed() {
    let event = make_event("svc", ServiceStatus::Healthy, ServiceStatus::Failed);
    assert!(!should_suppress_event(&event));
}

#[test]
fn do_not_suppress_failed_to_healthy() {
    let event = make_event("svc", ServiceStatus::Failed, ServiceStatus::Healthy);
    assert!(!should_suppress_event(&event));
}

#[test]
fn do_not_suppress_unknown_to_failed() {
    let event = make_event("svc", ServiceStatus::Unknown, ServiceStatus::Failed);
    assert!(!should_suppress_event(&event));
}

#[test]
fn new_service_is_not_rate_limited() {
    let rate_limits: Table<RateLimitEntry> = Table::new();
    assert!(!is_rate_limited("new-svc", &ServiceStatus::Failed, &rate_limits));
}

#[test]
fn service_is_rate_limited_within_cooldown_window() {
    let mut rate_limits = Table::new();
    rate_limits.insert(
        "svc".to_string(),
        RateLimitEntry {
            last_alert_at: Timestamp::now(),
            alerted_for_failure: true,
        },
    );
    assert!(is_rate_limited("svc", &ServiceStatus::Failed, &rate_limits));
}

#[test]
fn recovery_alert_bypasses_rate_limit() {
    let mut rate_limits = Table::new();
    rate_limits.insert(
        "svc".to_string(),
        RateLimitEntry {
            last_alert_at: Timestamp::now(),
            alerted_for_failure: true,
        },
    );
    assert!(!is_rate_limited("svc", &ServiceStatus::Healthy, &rate_limits));
}

#[test]
fn new_failure_episode_after_recovery_bypasses_previous_cooldown() {
    let mut rate_limits = Table::new();
    rate_limits.insert(
        "svc".to_string(),
        RateLimitEntry {
            last_alert_at: Timestamp::now(),
            alerted_for_failure: false,
        },
    );
    assert!(!is_rate_limited("svc", &ServiceStatus::Failed, &rate_limits));
}

#[test]
fn cooldown_lasts_sixty_seconds() {
    let mut limits = Table::new();
    update_rate_limit_at("svc", &ServiceStatus::Failed, &mut limits, at(1000));
    assert!(is_rate_limited_at("svc", &ServiceStatus::Degraded, &limits, at(1059)));
    assert!(!is_rate_limited_at("svc", &ServiceStatus::Degraded, &limits, at(1060)));
    assert!(!is_rate_limited_at("other", &ServiceStatus::Degraded, &limits, at(1001)));
}

#[test]
fn clock_that_went_back_does_not_limit() {
    let mut limits = Table::new();
    update_rate_limit_at("svc", &ServiceStatus::Failed, &mut limits, at(1000));
    assert!(!is_rate_limited_at("svc", &ServiceStatus::Failed, &limits, at(990)));
}

#[test]
fn update_rate_limit_notes_the_present() {
    let mut limits = Table::new();
    update_rate_limit("svc", &ServiceStatus::Degraded, &mut limits);
    assert!(limits.get("svc").unwrap().alerted_for_failure);
    assert!(is_rate_limited("svc", &ServiceStatus::Failed, &limits));
    update_rate_limit("svc", &ServiceStatus::Unknown, &mut limits);
    assert!(!limits.get("svc").unwrap().alerted_for_failure);
}

#[test]
fn https_external_url_is_valid() {
    assert!(validate_webhook_url("https://hooks.example.com/vela").is_ok());
}

#[test]
fn http_localhost_is_valid() {
    assert!(validate_webhook_url("http://localhost:9000/webhook").is_ok());
}

#[test]
fn http_loopback_ip_is_valid() {
    assert!(validate_webhook_url("http://127.0.0.1:9000/webhook").is_ok());
}

#[test]
fn http_external_url_is_rejected() {
    assert_eq!(
        validate_webhook_url("http://hooks.example.com/vela"),
        Err(
            "Non-loopback webhook URL must use HTTPS — got HTTP for host 'hooks.example.com'"
                .to_string()
        )
    );
}

#[test]
fn invalid_url_is_rejected() {
    assert_eq!(
        validate_webhook_url("not-a-url-at-all"),
        Err("Invalid URL: relative URL without a base".to_string())
    );
}

#[test]
fn ftp_url_is_rejected() {
    assert_eq!(
        validate_webhook_url("ftp://example.com/webhook"),
        Err("Unsupported scheme 'ftp' — only http/https allowed".to_string())
    );
}

#[test]
fn schemes_are_compared_in_lower_case() {
    assert!(validate_webhook_url("HTTPS://hooks.example.com/vela").is_ok());
    assert!(validate_webhook_url("HTTP://LOCALHOST/vela").is_ok());
}

#[test]
fn url_parts_are_judged_apart_from_parsing() {
    let ok = Ok(("http".to_string(), Some("::1".to_string())));
    assert!(validate_webhook_parts(&ok).is_ok());
    let no_host = Ok(("http".to_string(), None));
    assert_eq!(
        validate_webhook_parts(&no_host),
        Err("Non-loopback webhook URL must use HTTPS — got HTTP for host ''".to_string())
    );
    let bad = Err("empty host".to_string());
    assert_eq!(
        validate_webhook_parts(&bad),
        Err("Invalid URL: empty host".to_string())
    );
}

#[test]
fn webhook_payload_has_required_fields() {
    let event = make_event("auth-svc", ServiceStatus::Healthy, ServiceStatus::Failed);
    let payload = build_webhook_payload(&event);

    assert_eq!(payload.source, "vela");
    assert_eq!(payload.version, "1");
    assert_eq!(payload.event.service_id, "auth-svc");
    assert_eq!(payload.event.service_name, "Service auth-svc");
    assert_eq!(payload.event.status_from, "Healthy");
    assert_eq!(payload.event.status_to, "Failed");
    assert_eq!(payload.event.message, "Test status change");
    assert!(!payload.event.timestamp.is_empty());
}

#[test]
fn webhook_payload_dates_the_event() {
    let mut event = make_event("svc", ServiceStatus::Healthy, ServiceStatus::Failed);
    event.timestamp = Timestamp::new(1_700_000_000, 500_000_000).unwrap();
    let payload = build_webhook_payload(&event);
    assert_eq!(payload.event.timestamp, "2023-11-14T22:13:20.500+00:00");
}

#[test]
fn webhook_payload_truncates_long_service_name() {
    let long_name = "x".repeat(MAX_ALERT_NAME_LEN + 50);
    let mut event = make_event("svc", ServiceStatus::Healthy, ServiceStatus::Failed);
    event.service_name = long_name;
    event.message = "y".repeat(MAX_ALERT_MESSAGE_LEN + 1);
    let payload = build_webhook_payload(&event);
    assert!(payload.event.service_name.len() <= MAX_ALERT_NAME_LEN + 4);
    assert_eq!(
        payload.event.service_name,
        format!("{}…", "x".repeat(MAX_ALERT_NAME_LEN - 3))
    );
    assert_eq!(payload.event.message.chars().count(), MAX_ALERT_MESSAGE_LEN - 2);
}

#[test]
fn truncate_str_leaves_short_strings_unchanged() {
    assert_eq!(truncate_str("hello", 100), "hello");
}

#[test]
fn truncate_str_truncates_long_strings() {
    let long = "a".repeat(200);
    let result = truncate_str(&long, 50);
    assert!(
        result.len() <= 54,
        "Truncated string should be at most max_len + ellipsis"
    );
    assert!(result.ends_with('…'), "Truncated string should end with ellipsis");
    assert_eq!(result, format!("{}…", "a".repeat(47)));
}

#[test]
fn truncate_str_cuts_between_characters() {
    assert_eq!(truncate_str("äöüß", 8), "äöüß");
    assert_eq!(truncate_str("äöüß", 7), "äö…");
    assert_eq!(truncate_str("äöüß", 6), "äö…");
    assert_eq!(truncate_str("abcdef", 3), "…");
}

#[test]
fn truncate_str_keeps_nothing_where_there_is_no_room() {
    assert_eq!(truncate_str("abcdef", 2), "…");
    assert_eq!(truncate_str("abcdef", 1), "…");
    assert_eq!(truncate_str("abcdef", 0), "…");
    assert_eq!(truncate_str("äb", 2), "…");
    assert_eq!(truncate_str("ab", 2), "ab");
    assert_eq!(truncate_str("", 0), "");
}

#[test]
fn event_without_history_is_dispatched_to_enabled_targets() {
    let services = vec![make_service_with_alerts(
        "svc",
        vec![log_target(true), log_target(false), webhook(None)],
    )];
    let mut limits = Table::new();
    let event = make_event("svc", ServiceStatus::Healthy, ServiceStatus::Failed);
    match handle_event_at(&event, &services, &mut limits, at(100)) {
        AlertPlan::Dispatch(first) => {
            let mut state = VelaState::new();
            assert_eq!(first.count(), 2);
            assert_eq!(first.target().kind, AlertKind::Log);
            let second = first.finish(None, &mut state, &mut limits, at(100)).unwrap();
            assert_eq!(second.target().kind, AlertKind::Webhook);
        }
        other => panic!("unexpected plan {:?}", other),
    }
    assert_eq!(limits.len(), 0);
    update_rate_limit_at("svc", &event.new_status, &mut limits, at(101));
    assert!(matches!(
        handle_event_at(&event, &services, &mut limits, at(102)),
        AlertPlan::RateLimited
    ));
}

#[test]
fn event_without_targets_still_counts_for_the_cooldown() {
    let services = vec![make_service_with_alerts("svc", vec![log_target(false)])];
    let mut limits = Table::new();
    let event = make_event("svc", ServiceStatus::Healthy, ServiceStatus::Failed);
    assert!(matches!(
        handle_event_at(&event, &services, &mut limits, at(100)),
        AlertPlan::NoTargets
    ));
    assert!(is_rate_limited_at("svc", &ServiceStatus::Failed, &limits, at(110)));
}

#[test]
fn event_of_unknown_service_is_dropped() {
    let services = vec![make_service_with_alerts("svc", vec![log_target(true)])];
    let mut limits = Table::new();
    let event = make_event("ghost", ServiceStatus::Healthy, ServiceStatus::Failed);
    assert!(matches!(
        handle_event(&event, &services, &mut limits),
        AlertPlan::UnknownService
    ));
}

#[test]
fn alert_engine_suppresses_healthy_to_healthy_event() {
    let mut state = VelaState::new();
    state.register_service("suppress-test".to_string()).unwrap();
    let services = vec![make_service_with_alerts("suppress-test", vec![log_target(true)])];
    let mut limits = Table::new();
    let event = make_event("suppress-test", ServiceStatus::Healthy, ServiceStatus::Healthy);
    assert!(matches!(
        handle_event(&event, &services, &mut limits),
        AlertPlan::Suppressed
    ));
    assert!(state.get_alert_records("suppress-test").is_empty());
}

#[test]
fn alert_engine_processes_log_alert_for_failed_event() {
    let mut state = VelaState::new();
    state.register_service("log-alert-test".to_string()).unwrap();
    let event = make_event("log-alert-test", ServiceStatus::Healthy, ServiceStatus::Failed);
    let services = vec![make_service_with_alerts("log-alert-test", vec![log_target(true)])];
    let mut limits = Table::new();
    let dispatch = begin(&event, &services, &mut limits);
    match dispatch.delivery() {
        Delivery::Log { level, line } => {
            assert_eq!(*level, LogLevel::Error);
            assert_eq!(
                line,
                "[ALERT] service='log-alert-test' name='Service log-alert-test' status=Healthy→Failed msg='Test status change'"
            );
        }
        other => panic!("unexpected delivery {:?}", other),
    }
    assert!(was_delivered(dispatch.delivery(), None));
    assert!(dispatch.finish(None, &mut state, &mut limits, at(5)).is_none());
    let records = state.get_alert_records("log-alert-test");
    assert_eq!(records.len(), 1);
    assert!(records[0].delivered);
    assert_eq!(records[0].trigger, "Healthy→Failed");
    assert!(records[0].error.is_none());
}

#[test]
fn every_enabled_target_is_recorded_in_order() {
    let mut state = VelaState::new();
    state.register_service("svc".to_string()).unwrap();
    state.register_service("other".to_string()).unwrap();
    let services = vec![make_service_with_alerts(
        "svc",
        vec![
            webhook(Some("https://a.example.com/x")),
            log_target(false),
            webhook(Some("https://b.example.com/x")),
            log_target(true),
            webhook(Some("http://c.example.com/x")),
            webhook(None),
        ],
    )];
    let mut limits = Table::new();
    let event = make_event("svc", ServiceStatus::Degraded, ServiceStatus::Failed);
    let mut left = Some(begin(&event, &services, &mut limits));
    let answers = [Some(204), Some(302), None, Some(200), Some(200)];
    for (i, answer) in answers.into_iter().enumerate() {
        assert_eq!(limits.len(), 0);
        left = left.unwrap().finish(answer, &mut state, &mut limits, at(10 + i as i64));
    }
    assert!(left.is_none());
    let seen: Vec<(AlertKind, bool, Timestamp)> = state
        .get_alert_records("svc")
        .into_iter()
        .map(|r| {
            assert_eq!(r.trigger, "Degraded→Failed");
            assert_eq!(r.error.is_none(), r.delivered);
            (r.kind, r.delivered, r.sent_at)
        })
        .collect();
    assert_eq!(
        seen,
        vec![
            (AlertKind::Webhook, true, at(10)),
            (AlertKind::Webhook, false, at(11)),
            (AlertKind::Log, true, at(12)),
            (AlertKind::Webhook, false, at(13)),
            (AlertKind::Webhook, false, at(14)),
        ]
    );
    assert!(state.get_alert_records("other").is_empty());
}

#[test]
fn cooldown_begins_after_the_last_alert() {
    let mut state = VelaState::new();
    let services = vec![make_service_with_alerts(
        "svc",
        vec![log_target(true), webhook(Some("https://a.example.com/x"))],
    )];
    let mut limits = Table::new();
    let event = make_event("svc", ServiceStatus::Healthy, ServiceStatus::Failed);
    let first = begin(&event, &services, &mut limits);
    let second = first.finish(None, &mut state, &mut limits, at(100)).unwrap();
    assert!(!is_rate_limited_at("svc", &ServiceStatus::Failed, &limits, at(101)));
    assert!(second.finish(None, &mut state, &mut limits, at(102)).is_none());
    assert!(matches!(
        handle_event_at(&event, &services, &mut limits, at(161)),
        AlertPlan::RateLimited
    ));
    assert!(matches!(
        handle_event_at(&event, &services, &mut limits, at(162)),
        AlertPlan::Dispatch(_)
    ));
}

#[test]
fn webhook_counts_as_delivered_on_success_only() {
    let event = make_event("svc", ServiceStatus::Healthy, ServiceStatus::Failed);
    let post = deliver_webhook(&event, &webhook(Some("https://hooks.example.com/x")));
    for code in [200, 204, 299] {
        assert!(was_delivered(&post, Some(code)));
    }
    for code in [100, 199, 300, 302, 400, 404, 500] {
        assert!(!was_delivered(&post, Some(code)));
    }
    assert!(!was_delivered(&post, None));
    let missing = deliver_webhook(&event, &webhook(None));
    assert!(!was_delivered(&missing, Some(200)));
    let refused = deliver_webhook(&event, &webhook(Some("http://hooks.example.com/x")));
    assert!(!was_delivered(&refused, Some(200)));
    assert!(was_delivered(&deliver_log(&event), None));
}

#[test]
fn log_level_follows_the_new_status() {
    let cases = vec![
        (ServiceStatus::Failed, LogLevel::Error),
        (ServiceStatus::Degraded, LogLevel::Warn),
        (ServiceStatus::Healthy, LogLevel::Info),
        (ServiceStatus::Unknown, LogLevel::Info),
    ];
    for (status, expected) in cases {
        let event = make_event("svc", ServiceStatus::Failed, status);
        match deliver_log(&event) {
            Delivery::Log { level, .. } => assert_eq!(level, expected),
            other => panic!("unexpected delivery {:?}", other),
        }
    }
}

#[test]
fn webhook_is_posted_to_the_trimmed_endpoint() {
    let event = make_event("svc", ServiceStatus::Healthy, ServiceStatus::Failed);
    match deliver_webhook(&event, &webhook(Some("  https://hooks.example.com/x \n"))) {
        Delivery::Post { endpoint, payload } => {
            assert_eq!(endpoint, "https://hooks.example.com/x");
            assert_eq!(payload.event.status_to, "Failed");
        }
        other => panic!("unexpected delivery {:?}", other),
    }
}

#[test]
fn webhook_without_endpoint_is_not_delivered() {
    let event = make_event("svc", ServiceStatus::Healthy, ServiceStatus::Failed);
    assert!(matches!(
        deliver_webhook(&event, &webhook(None)),
        Delivery::NoEndpoint
    ));
    assert!(matches!(
        deliver_webhook(&event, &webhook(Some(" \t"))),
        Delivery::NoEndpoint
    ));
}

#[test]
fn webhook_in_the_clear_is_refused() {
    let event = make_event("svc", ServiceStatus::Healthy, ServiceStatus::Failed);
    match dispatch_alert(&event, &webhook(Some("http://hooks.example.com/x"))) {
        Delivery::Refused(reason) => assert!(reason.starts_with("Non-loopback")),
        other => panic!("unexpected delivery {:?}", other),
    }
}

#[test]
fn undelivered_alert_is_recorded_with_its_reason() {
    let event = make_event("svc", ServiceStatus::Degraded, ServiceStatus::Failed);
    let record = alert_record(&event, AlertKind::Webhook, false, at(7));
    assert_eq!(record.error.as_deref(), Some("Delivery failed for Webhook target"));
    assert_eq!(record.trigger, "Degraded→Failed");
    assert_eq!(record.sent_at, at(7));
}

#[test]
fn client_error_names_the_reason() {
    assert_eq!(
        client_error("no TLS").to_text(),
        "Alert delivery failed [init]: Failed to build HTTP client: no TLS"
    );
}
