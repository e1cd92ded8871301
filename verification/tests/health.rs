use vela::error::VelaError;
use vela::health::{
    check_http, check_tcp, execute_check, plan_check_loops, record_result, status_is_success,
    CheckEvent, CheckStep, HttpEnd, Probe, TcpEnd,
};
use vela::models::{
    CheckResult, HealthCheckConfig, HealthCheckKind, ServiceConfig, ServiceStatus, UpstreamConfig,
    UpstreamState,
};
use vela::state::VelaState;

fn make_test_service(id: &str, port: u16, kind: HealthCheckKind) -> ServiceConfig {
    ServiceConfig {
        id: id.to_string(),
        name: format!("Test Service {}", id),
        host: Some("127.0.0.1".to_string()),
        port: Some(port),
        command: None,
        upstreams: vec![UpstreamConfig {
            host: "127.0.0.1".to_string(),
            port,
            docker_container: None,
        }],
        restart: None,
        check_interval_secs: 5,
        failure_threshold: 3,
        max_restarts: 3,
        health_check: HealthCheckConfig {
            kind,
            http_path: Some("/health".to_string()),
            timeout_ms: 1000,
        },
        proxy: None,
        alerts: vec![],
    }
}

fn step(svc: &ServiceConfig, event: CheckEvent, latency_ms: u64) -> CheckStep {
    execute_check(&svc.upstreams[0], &svc.health_check, &svc.id, event, latency_ms)
}

fn result(step: CheckStep) -> CheckResult {
    match step {
        CheckStep::Done(result) => result,
        other => panic!("unexpected step {:?}", other),
    }
}

#[test]
fn tcp_check_succeeds_when_port_is_open() {
    assert!(check_tcp("127.0.0.1:80", TcpEnd::Connected, 500).is_ok());
}

#[test]
fn tcp_check_fails_when_port_is_closed() {
    let end = TcpEnd::Refused("Connection refused".to_string());
    assert_eq!(
        check_tcp("127.0.0.1:1", end, 500).unwrap_err().to_text(),
        "Health check failed for '127.0.0.1:1': TCP connection refused or reset: Connection refused"
    );
}

#[test]
fn tcp_check_fails_on_timeout() {
    assert_eq!(
        check_tcp("203.0.113.1:80", TcpEnd::TimedOut, 100)
            .unwrap_err()
            .to_text(),
        "Health check failed for '203.0.113.1:80': TCP connection timed out after 100ms"
    );
}

#[test]
fn http_check_passes_on_any_success() {
    for code in [200, 204, 299] {
        assert!(check_http("http://h/", HttpEnd::Answered(code), 100).is_ok());
    }
}

#[test]
fn http_check_fails_on_other_answers() {
    assert_eq!(
        check_http("http://h/", HttpEnd::Answered(404), 100)
            .unwrap_err()
            .to_text(),
        "Health check failed for 'http://h/': HTTP check returned non-2xx status: 404 Not Found"
    );
    assert_eq!(
        check_http("http://h/", HttpEnd::Answered(599), 100)
            .unwrap_err()
            .to_text(),
        "Health check failed for 'http://h/': HTTP check returned non-2xx status: 599 <unknown status code>"
    );
    assert!(check_http("http://h/", HttpEnd::Answered(301), 100).is_err());
}

#[test]
fn http_check_fails_without_an_answer() {
    assert_eq!(
        check_http("u", HttpEnd::Failed("reset".to_string()), 100)
            .unwrap_err()
            .to_text(),
        "Health check failed for 'u': HTTP request failed: reset"
    );
    assert_eq!(
        check_http("u", HttpEnd::TimedOut, 100).unwrap_err().to_text(),
        "Health check failed for 'u': HTTP check timed out after 100ms"
    );
    assert_eq!(
        check_http("u", HttpEnd::NoClient("tls".to_string()), 100)
            .unwrap_err()
            .to_text(),
        "Health check failed for 'u': Failed to build HTTP client: tls"
    );
}

#[test]
fn success_codes_are_those_in_the_two_hundreds() {
    assert!(!status_is_success(199));
    assert!(status_is_success(200));
    assert!(status_is_success(299));
    assert!(!status_is_success(300));
}

#[test]
fn execute_check_returns_success_for_open_port() {
    let svc = make_test_service("test-svc", 4321, HealthCheckKind::Tcp);
    match step(&svc, CheckEvent::Begun { docker_available: false }, 0) {
        CheckStep::Probe(Probe::Tcp(addr)) => assert_eq!(addr, "127.0.0.1:4321"),
        other => panic!("unexpected step {:?}", other),
    }
    let result = result(step(&svc, CheckEvent::Probed(Ok(())), 12));
    assert!(result.success);
    assert!(result.error.is_none());
    assert_eq!(result.latency_ms, 12);
    assert_eq!(result.service_id, "test-svc");
}

#[test]
fn execute_check_returns_failure_for_closed_port() {
    let svc = make_test_service("dead-svc", 4321, HealthCheckKind::Tcp);
    let outcome = check_tcp("127.0.0.1:4321", TcpEnd::Refused("no".to_string()), 1000);
    let result = result(step(&svc, CheckEvent::Probed(outcome), 2));
    assert!(!result.success);
    assert_eq!(
        result.error.as_deref(),
        Some("Health check failed for '127.0.0.1:4321': TCP connection refused or reset: no")
    );
}

#[test]
fn execute_check_falls_back_to_tcp_when_docker_container_set_but_no_client() {
    let mut svc = make_test_service("docker-fallback", 4321, HealthCheckKind::Tcp);
    svc.upstreams[0].docker_container = Some("some-container".to_string());
    assert!(matches!(
        step(&svc, CheckEvent::Begun { docker_available: false }, 0),
        CheckStep::Probe(Probe::Tcp(_))
    ));
}

#[test]
fn docker_is_asked_first() {
    let mut svc = make_test_service("docker-svc", 4321, HealthCheckKind::Http);
    svc.upstreams[0].docker_container = Some("box".to_string());
    match step(&svc, CheckEvent::Begun { docker_available: true }, 0) {
        CheckStep::AskDocker(container) => assert_eq!(container, "box"),
        other => panic!("unexpected step {:?}", other),
    }
    match step(&svc, CheckEvent::DockerAnswered(Ok(true)), 1) {
        CheckStep::Probe(Probe::Http(url)) => assert_eq!(url, "http://127.0.0.1:4321/health"),
        other => panic!("unexpected step {:?}", other),
    }
    let stopped = result(step(&svc, CheckEvent::DockerAnswered(Ok(false)), 3));
    assert!(!stopped.success);
    assert_eq!(stopped.error.as_deref(), Some("Docker container 'box' is not running"));
    let error = VelaError::ProcessError("gone".to_string());
    let unknown = result(step(&svc, CheckEvent::DockerAnswered(Err(error)), 3));
    assert_eq!(
        unknown.error.as_deref(),
        Some("Docker status check failed for 'box': Process error: gone")
    );
}

#[test]
fn http_path_defaults_to_health() {
    let mut svc = make_test_service("svc", 80, HealthCheckKind::Http);
    svc.health_check.http_path = None;
    match step(&svc, CheckEvent::Begun { docker_available: true }, 0) {
        CheckStep::Probe(Probe::Http(url)) => assert_eq!(url, "http://127.0.0.1:80/health"),
        other => panic!("unexpected step {:?}", other),
    }
}

#[test]
fn health_engine_refuses_to_start_with_zero_services() {
    let services: Vec<ServiceConfig> = vec![];
    assert_eq!(
        plan_check_loops(&services).unwrap_err().to_text(),
        "Config validation error: Health engine started with zero services — nothing to monitor"
    );
}

#[test]
fn every_upstream_gets_its_own_loop() {
    let mut a = make_test_service("a", 1, HealthCheckKind::Tcp);
    let second = a.upstreams[0].clone();
    a.upstreams.push(second);
    let mut b = make_test_service("b", 2, HealthCheckKind::Tcp);
    b.upstreams.clear();
    let c = make_test_service("c", 3, HealthCheckKind::Tcp);
    assert_eq!(
        plan_check_loops(&vec![a, b, c]).unwrap(),
        vec![(0, 0), (0, 1), (2, 0)]
    );
}

#[test]
fn health_engine_records_check_results_in_state() {
    let svc = make_test_service("state-test", 4321, HealthCheckKind::Tcp);
    let mut state = VelaState::new();
    state.register_service(svc.id.clone()).unwrap();
    state.register_service_upstreams(
        svc.id.clone(),
        vec![UpstreamState::initial("127.0.0.1".to_string(), 4321)],
    );
    let done = result(step(&svc, CheckEvent::Probed(Ok(())), 5));
    let event = record_result(&mut state, done, &svc.upstreams[0], &svc.name, 3)
        .unwrap()
        .unwrap();
    assert_eq!(event.new_status, ServiceStatus::Healthy);
    let records = state.get_health_records("state-test");
    assert_eq!(records.len(), 1);
    assert!(records[0].success);
    assert_eq!(records[0].latency_ms, 5);
}
