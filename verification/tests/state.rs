use vela::clock::Timestamp;
use vela::models::{
    AlertKind, AlertRecord, HealthRecord, RestartRecord, ServiceStatus, UpstreamState,
};
use vela::state::{aggregate, VelaState};

fn at(secs: i64) -> Timestamp {
    Timestamp::new(secs, 0).unwrap()
}

fn check(id: &str, success: bool, secs: i64) -> HealthRecord {
    HealthRecord {
        service_id: id.to_string(),
        success,
        latency_ms: 3,
        checked_at: at(secs),
        error: None,
    }
}

fn with_service(id: &str) -> VelaState {
    let mut state = VelaState::new();
    state.register_service(id.to_string()).unwrap();
    state
}

fn with_upstreams(id: &str, ports: &[u16]) -> VelaState {
    let mut state = with_service(id);
    let upstreams = ports
        .iter()
        .map(|p| UpstreamState::initial("h".to_string(), *p))
        .collect();
    state.register_service_upstreams(id.to_string(), upstreams);
    state
}

fn upstream(status: ServiceStatus) -> UpstreamState {
    let mut u = UpstreamState::initial("h".to_string(), 1);
    u.status = status;
    u
}

#[test]
fn service_fails_at_its_threshold() {
    let mut state = with_service("svc");
    for i in 0..2 {
        state
            .record_health_check_at(check("svc", false, i), "S".to_string(), 3, at(i))
            .unwrap();
        assert_eq!(
            state.snapshot_services().get("svc").unwrap().status,
            ServiceStatus::Degraded
        );
    }
    let event = state
        .record_health_check_at(check("svc", false, 2), "S".to_string(), 3, at(9))
        .unwrap()
        .unwrap();
    assert_eq!(event.previous_status, ServiceStatus::Degraded);
    assert_eq!(event.new_status, ServiceStatus::Failed);
    assert_eq!(event.timestamp, at(9));
    assert_eq!(
        event.message,
        "Service 'svc' transitioned from Degraded to Failed"
    );
    let snapshot = state.snapshot_services();
    let svc = snapshot.get("svc").unwrap();
    assert_eq!(svc.consecutive_failures, 3);
    assert_eq!(svc.last_checked_at, Some(at(2)));
    assert_eq!(svc.last_ok_at, None);
}

#[test]
fn one_success_heals_a_service() {
    let mut state = with_service("svc");
    for i in 0..4 {
        state
            .record_health_check(check("svc", false, i), "S".to_string(), 3)
            .unwrap();
    }
    let event = state
        .record_health_check(check("svc", true, 10), "S".to_string(), 3)
        .unwrap();
    assert_eq!(event.unwrap().new_status, ServiceStatus::Healthy);
    let again = state
        .record_health_check(check("svc", true, 11), "S".to_string(), 3)
        .unwrap();
    assert!(again.is_none());
    let snapshot = state.snapshot_services();
    assert_eq!(snapshot.get("svc").unwrap().consecutive_failures, 0);
    assert_eq!(snapshot.get("svc").unwrap().last_ok_at, Some(at(11)));
}

#[test]
fn check_of_unknown_service_is_refused() {
    let mut state = VelaState::new();
    assert_eq!(
        state
            .record_health_check(check("ghost", true, 0), "G".to_string(), 3)
            .unwrap_err()
            .to_text(),
        "State error: Service 'ghost' not found in state store"
    );
    assert!(state.get_health_records("ghost").is_empty());
}

#[test]
fn health_log_keeps_the_last_hundred() {
    let mut state = with_service("svc");
    for i in 0..130 {
        state
            .record_health_check(check("svc", true, i), "S".to_string(), 3)
            .unwrap();
    }
    let records = state.get_health_records("svc");
    assert_eq!(records.len(), 100);
    assert_eq!(records[0].checked_at, at(30));
    assert_eq!(records[99].checked_at, at(129));
}

#[test]
fn restart_log_keeps_the_last_fifty() {
    let mut state = with_service("svc");
    for i in 0..60 {
        assert!(state.can_count_restart("svc"));
        state
            .record_restart(RestartRecord {
                service_id: "svc".to_string(),
                attempted_at: at(i),
                succeeded: false,
                attempt_number: i as u32,
            })
            .unwrap();
    }
    let records = state.get_restart_records("svc");
    assert_eq!(records.len(), 50);
    assert_eq!(records[0].attempt_number, 10);
    assert_eq!(state.snapshot_services().get("svc").unwrap().restart_count, 60);
}

#[test]
fn restart_of_unknown_service_is_refused() {
    let mut state = VelaState::new();
    let record = RestartRecord {
        service_id: "ghost".to_string(),
        attempted_at: at(0),
        succeeded: true,
        attempt_number: 1,
    };
    assert!(state.record_restart(record).is_err());
}

#[test]
fn alert_log_keeps_the_last_fifty_even_of_unknown_services() {
    let mut state = VelaState::new();
    for i in 0..51 {
        state
            .record_alert(AlertRecord {
                service_id: "any".to_string(),
                kind: AlertKind::Log,
                delivered: true,
                trigger: "x".to_string(),
                sent_at: at(i),
                error: None,
            })
            .unwrap();
    }
    let records = state.get_alert_records("any");
    assert_eq!(records.len(), 50);
    assert_eq!(records[0].sent_at, at(1));
}

#[test]
fn registering_again_starts_over() {
    let mut state = with_service("svc");
    state
        .record_health_check(check("svc", true, 1), "S".to_string(), 3)
        .unwrap();
    state.register_service("svc".to_string()).unwrap();
    assert!(state.get_health_records("svc").is_empty());
    assert_eq!(
        state.snapshot_services().get("svc").unwrap().status,
        ServiceStatus::Unknown
    );
    assert_eq!(state.snapshot_services().len(), 1);
}

#[test]
fn aggregate_status_follows_the_upstreams() {
    let cases = vec![
        (vec![ServiceStatus::Healthy, ServiceStatus::Healthy], ServiceStatus::Healthy),
        (vec![ServiceStatus::Failed, ServiceStatus::Failed], ServiceStatus::Failed),
        (vec![ServiceStatus::Failed, ServiceStatus::Healthy], ServiceStatus::Degraded),
        (vec![ServiceStatus::Failed, ServiceStatus::Unknown], ServiceStatus::Degraded),
        (vec![ServiceStatus::Healthy, ServiceStatus::Unknown], ServiceStatus::Unknown),
        (vec![ServiceStatus::Degraded, ServiceStatus::Unknown], ServiceStatus::Unknown),
        (vec![ServiceStatus::Healthy, ServiceStatus::Degraded], ServiceStatus::Degraded),
        (vec![ServiceStatus::Degraded, ServiceStatus::Degraded], ServiceStatus::Degraded),
    ];
    for (statuses, expected) in cases {
        let upstreams = statuses.into_iter().map(upstream).collect();
        assert_eq!(aggregate(&upstreams), expected);
    }
}

#[test]
fn upstream_check_updates_instance_and_service() {
    let mut state = with_upstreams("svc", &[1, 2]);
    let first = state
        .record_upstream_health_check_at("svc", "h", 1, true, 7, None, 2, "S".to_string(), at(5))
        .unwrap();
    assert!(first.is_none(), "still unknown as the second instance is");
    let second = state
        .record_upstream_health_check_at(
            "svc",
            "h",
            2,
            false,
            9,
            Some("refused".to_string()),
            1,
            "S".to_string(),
            at(6),
        )
        .unwrap()
        .unwrap();
    assert_eq!(second.new_status, ServiceStatus::Degraded);
    assert_eq!(second.service_name, "S");
    let snapshot = state.snapshot_services();
    let svc = snapshot.get("svc").unwrap();
    assert_eq!(svc.consecutive_failures, 1);
    assert_eq!(svc.last_checked_at, Some(at(6)));
    assert_eq!(svc.last_ok_at, Some(at(5)));
    let upstreams = state.snapshot_upstream_states();
    let states = upstreams.get("svc").unwrap();
    assert_eq!(states[0].status, ServiceStatus::Healthy);
    assert_eq!(states[0].latency_ms, Some(7));
    assert_eq!(states[1].status, ServiceStatus::Failed);
    let records = state.get_health_records("svc");
    assert_eq!(records.len(), 2);
    assert_eq!(records[1].error.as_deref(), Some("refused"));
    assert_eq!(state.get_healthy_upstreams("svc"), vec![("h".to_string(), 1)]);
}

#[test]
fn check_of_unregistered_upstream_is_refused() {
    let mut state = with_upstreams("svc", &[1]);
    assert_eq!(
        state
            .record_upstream_health_check("svc", "h", 9, true, 0, None, 3, "S".to_string())
            .unwrap_err()
            .to_text(),
        "State error: Upstream h:9 not registered for service 'svc'"
    );
    assert_eq!(
        state
            .record_upstream_health_check("ghost", "h", 1, true, 0, None, 3, "S".to_string())
            .unwrap_err()
            .to_text(),
        "State error: Service 'ghost' not found in upstream_states"
    );
}

#[test]
fn upstreams_without_a_service_are_refused_after_their_update() {
    let mut state = VelaState::new();
    state.register_service_upstreams(
        "half".to_string(),
        vec![UpstreamState::initial("h".to_string(), 1)],
    );
    assert_eq!(
        state
            .record_upstream_health_check("half", "h", 1, true, 4, None, 3, "S".to_string())
            .unwrap_err()
            .to_text(),
        "State error: Service 'half' not found in state store"
    );
    assert_eq!(state.get_healthy_upstreams("half").len(), 1);
    assert!(state.get_health_records("half").is_empty());
}

#[test]
fn counters_report_their_room() {
    let mut state = with_upstreams("svc", &[1]);
    assert!(state.can_count_failure("svc"));
    assert!(state.can_count_failure("ghost"));
    assert!(state.can_count_upstream_failure("svc", "h", 1));
    let mut full = UpstreamState::initial("h".to_string(), 1);
    full.consecutive_failures = u32::MAX;
    state.register_service_upstreams("svc".to_string(), vec![full]);
    assert!(!state.can_count_upstream_failure("svc", "h", 1));
    assert!(state.can_count_upstream_failure("svc", "h", 2));
}

#[test]
fn unknown_services_have_no_healthy_upstreams() {
    assert!(VelaState::new().get_healthy_upstreams("ghost").is_empty());
}

#[test]
fn upstream_fails_at_its_threshold_and_one_success_heals_it() {
    let mut state = with_upstreams("svc", &[1]);
    let check = |state: &mut VelaState, success: bool, secs: i64| {
        state
            .record_upstream_health_check_at(
                "svc",
                "h",
                1,
                success,
                7,
                None,
                3,
                "S".to_string(),
                at(secs),
            )
            .unwrap();
        let upstreams = state.snapshot_upstream_states();
        let upstream = &upstreams.get("svc").unwrap()[0];
        let service = state.snapshot_services().get("svc").unwrap().status;
        assert_eq!(service, upstream.status);
        (upstream.status, upstream.consecutive_failures)
    };
    assert_eq!(check(&mut state, false, 1), (ServiceStatus::Degraded, 1));
    assert_eq!(check(&mut state, false, 2), (ServiceStatus::Degraded, 2));
    assert_eq!(check(&mut state, false, 3), (ServiceStatus::Failed, 3));
    assert_eq!(check(&mut state, false, 4), (ServiceStatus::Failed, 4));
    assert_eq!(check(&mut state, true, 5), (ServiceStatus::Healthy, 0));
}
