use vela::config::{
    find_service, id_is_valid, malformed_error, prepare_config, register_services,
    synthesize_backward_compat_fields, unreadable_error, validate_config,
};
use vela::models::{
    AlertKind, AlertTargetConfig, DockerConfig, GlobalConfig, HealthCheckConfig, HealthCheckKind,
    RestartConfig, RestartMode, ServiceConfig, ServiceStatus, UpstreamConfig, VelaConfig,
};
use vela::state::VelaState;

fn base_service(id: &str) -> ServiceConfig {
    ServiceConfig {
        id: id.to_string(),
        name: format!("Test {}", id),
        host: Some("127.0.0.1".to_string()),
        port: Some(9999),
        command: None,
        upstreams: vec![],
        restart: None,
        check_interval_secs: 10,
        failure_threshold: 3,
        max_restarts: 3,
        health_check: HealthCheckConfig {
            kind: HealthCheckKind::Tcp,
            http_path: None,
            timeout_ms: 1000,
        },
        proxy: None,
        alerts: vec![],
    }
}

fn base_config(services: Vec<ServiceConfig>) -> VelaConfig {
    VelaConfig {
        global: GlobalConfig {
            api_port: 7700,
            api_key: "test-key".to_string(),
            log_dir: "/tmp".to_string(),
        },
        services,
    }
}

fn refusal(config: &VelaConfig) -> String {
    validate_config(config).unwrap_err().to_text()
}

#[test]
fn old_command_field_synthesized_to_manual_restart_config() {
    let mut svc = base_service("legacy");
    svc.command = Some("systemctl restart legacy".to_string());
    let mut config = base_config(vec![svc]);

    synthesize_backward_compat_fields(&mut config).unwrap();

    let restart = config.services[0].restart.as_ref().unwrap();
    assert_eq!(restart.mode, RestartMode::Manual);
    assert_eq!(restart.command.as_deref(), Some("systemctl restart legacy"));
}

#[test]
fn service_with_no_command_and_no_restart_synthesizes_mode_none() {
    let svc = base_service("monitor-only");
    let mut config = base_config(vec![svc]);

    synthesize_backward_compat_fields(&mut config).unwrap();

    let restart = config.services[0].restart.as_ref().unwrap();
    assert_eq!(restart.mode, RestartMode::MonitorOnly);
}

#[test]
fn empty_upstreams_synthesized_from_host_port_fields() {
    let mut svc = base_service("single-host");
    svc.host = Some("10.0.0.5".to_string());
    svc.port = Some(8080);
    let mut config = base_config(vec![svc]);

    synthesize_backward_compat_fields(&mut config).unwrap();

    let upstreams = &config.services[0].upstreams;
    assert_eq!(upstreams.len(), 1);
    assert_eq!(upstreams[0].host, "10.0.0.5");
    assert_eq!(upstreams[0].port, 8080);
}

#[test]
fn explicit_upstreams_are_not_overwritten_by_host_port() {
    let mut svc = base_service("explicit");
    svc.host = None;
    svc.port = None;
    svc.upstreams = vec![UpstreamConfig {
        host: "127.0.0.1".to_string(),
        port: 3001,
        docker_container: Some("my-container".to_string()),
    }];
    let mut config = base_config(vec![svc]);

    synthesize_backward_compat_fields(&mut config).unwrap();

    assert_eq!(config.services[0].upstreams.len(), 1);
    assert_eq!(
        config.services[0].upstreams[0].docker_container.as_deref(),
        Some("my-container")
    );
}

#[test]
fn service_with_no_upstreams_and_no_host_port_fails_synthesis() {
    let mut svc = base_service("broken");
    svc.host = None;
    svc.port = None;
    let mut config = base_config(vec![svc]);

    let result = synthesize_backward_compat_fields(&mut config);
    assert!(result.is_err());
    assert_eq!(
        result.unwrap_err().to_text(),
        "Config validation error: Service 'broken' has no [[services.upstreams]] and no host/port to synthesize one from — a service needs at least one address to check"
    );
}

#[test]
fn service_with_only_a_port_fails_synthesis() {
    let mut svc = base_service("half");
    svc.host = None;
    let mut config = base_config(vec![base_service("whole"), svc, base_service("rest")]);

    let error = synthesize_backward_compat_fields(&mut config).unwrap_err();
    assert_eq!(
        error.to_text(),
        "Config validation error: Service 'half' sets only one of host/port — both are required together (or omit both and use [[services.upstreams]] instead)"
    );
    assert_eq!(config.services[0].upstreams.len(), 1);
    assert_eq!(config.services[1].upstreams.len(), 0);
    assert_eq!(config.services[2].upstreams.len(), 0);
}

#[test]
fn docker_mode_without_docker_config_fails_validation() {
    let mut svc = base_service("docker-svc");
    svc.restart = Some(RestartConfig {
        mode: RestartMode::Docker,
        command: None,
        docker: None,
    });
    let mut config = base_config(vec![svc]);

    assert!(synthesize_backward_compat_fields(&mut config).is_err());
}

#[test]
fn docker_mode_with_docker_config_passes_validation() {
    let mut svc = base_service("docker-svc");
    svc.restart = Some(RestartConfig {
        mode: RestartMode::Docker,
        command: None,
        docker: Some(DockerConfig {
            container: "my-container".to_string(),
            image: None,
            socket_path: None,
        }),
    });
    let mut config = base_config(vec![svc]);

    assert!(synthesize_backward_compat_fields(&mut config).is_ok());
}

#[test]
fn full_load_and_validate_accepts_legacy_style_config() {
    let mut svc = base_service("legacy-full");
    svc.command = Some("systemctl restart legacy-full".to_string());
    svc.alerts.push(AlertTargetConfig {
        kind: AlertKind::Log,
        endpoint: None,
        enabled: true,
    });
    let mut config = base_config(vec![svc]);

    synthesize_backward_compat_fields(&mut config).unwrap();
    assert!(validate_config(&config).is_ok());
}

#[test]
fn blank_api_key_is_refused() {
    let mut config = base_config(vec![base_service("a")]);
    config.global.api_key = " \t\u{a0}".to_string();
    assert_eq!(
        refusal(&config),
        "Config validation error: global.api_key must not be empty"
    );
}

#[test]
fn config_without_services_is_refused() {
    let config = base_config(vec![]);
    assert_eq!(
        refusal(&config),
        "Config validation error: At least one [[services]] block is required"
    );
}

#[test]
fn parse_error_keeps_the_words_of_the_parser() {
    assert_eq!(
        malformed_error("expected `=` at line 3").to_text(),
        "Config parse error: expected `=` at line 3"
    );
}

#[test]
fn malformed_service_id_is_refused() {
    let config = base_config(vec![base_service("bad id")]);
    assert_eq!(
        refusal(&config),
        "Config validation error: Service id 'bad id' must contain only lowercase letters, numbers, and hyphens"
    );
}

#[test]
fn service_ids_are_lowercase_letters_digits_and_hyphens() {
    assert!(id_is_valid("auth-service-2"));
    assert!(id_is_valid("az09-"));
    assert!(id_is_valid(""));
    assert!(!id_is_valid("Auth-Service"));
    assert!(!id_is_valid("größe"));
    assert!(!id_is_valid("٣"));
    assert!(!id_is_valid("a_b"));
    assert!(!id_is_valid("a/b"));
    assert!(!id_is_valid("a.b"));
}

#[test]
fn uppercase_service_id_is_refused() {
    let config = base_config(vec![base_service("Auth-Service")]);
    assert_eq!(
        refusal(&config),
        "Config validation error: Service id 'Auth-Service' must contain only lowercase letters, numbers, and hyphens"
    );
}

#[test]
fn service_id_with_a_letter_beyond_ascii_is_refused() {
    let config = base_config(vec![base_service("größe")]);
    assert_eq!(
        refusal(&config),
        "Config validation error: Service id 'größe' must contain only lowercase letters, numbers, and hyphens"
    );
}

#[test]
fn duplicate_service_id_is_refused() {
    let config = base_config(vec![base_service("twin"), base_service("twin")]);
    assert_eq!(
        refusal(&config),
        "Config validation error: Duplicate service id 'twin' found in config"
    );
}

#[test]
fn http_check_without_path_is_refused() {
    let mut svc = base_service("web");
    svc.health_check.kind = HealthCheckKind::Http;
    let config = base_config(vec![svc]);
    assert_eq!(
        refusal(&config),
        "Config validation error: Service 'web' uses HTTP health check but has no http_path set"
    );
}

#[test]
fn upstream_with_port_zero_is_refused() {
    let mut svc = base_service("zero");
    svc.port = Some(0);
    let mut config = base_config(vec![svc]);
    assert_eq!(
        prepare_config(&mut config).unwrap_err().to_text(),
        "Config validation error: Service 'zero' has an upstream (127.0.0.1) with port 0, which is not valid"
    );
}

#[test]
fn the_first_problem_is_reported() {
    let mut web = base_service("web");
    web.health_check.kind = HealthCheckKind::Http;
    let mut config = base_config(vec![base_service("fine"), web, base_service("bad id")]);
    assert!(prepare_config(&mut config)
        .unwrap_err()
        .to_text()
        .contains("'web'"));
}

#[test]
fn completion_is_idempotent() {
    let mut svc = base_service("svc");
    svc.command = Some("true".to_string());
    let mut config = base_config(vec![svc]);
    prepare_config(&mut config).unwrap();
    prepare_config(&mut config).unwrap();
    assert_eq!(config.services[0].upstreams.len(), 1);
    assert_eq!(
        config.services[0].restart.as_ref().unwrap().command.as_deref(),
        Some("true")
    );
}

#[test]
fn registered_services_start_unknown() {
    let mut config = base_config(vec![base_service("a"), base_service("b")]);
    prepare_config(&mut config).unwrap();
    let mut state = VelaState::new();
    register_services(&config, &mut state).unwrap();
    let snapshot = state.snapshot_services();
    assert_eq!(snapshot.len(), 2);
    assert_eq!(snapshot.get("a").unwrap().status, ServiceStatus::Unknown);
    let upstreams = state.snapshot_upstream_states();
    assert_eq!(upstreams.get("b").unwrap().len(), 1);
    assert_eq!(upstreams.get("b").unwrap()[0].port, 9999);
}

#[test]
fn services_are_found_by_id() {
    let services = vec![base_service("a"), base_service("b"), base_service("a")];
    assert_eq!(find_service(&services, "b"), Some(1));
    assert_eq!(find_service(&services, "a"), Some(2));
    assert_eq!(find_service(&services, "c"), None);
}

#[test]
fn unreadable_file_is_named() {
    assert_eq!(
        unreadable_error("/etc/vela.toml", "no such file").to_text(),
        "Config parse error: Cannot read config file at '/etc/vela.toml': no such file"
    );
}
