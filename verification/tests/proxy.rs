use vela::clock::Timestamp;
use vela::models::{
    GlobalConfig, HealthCheckConfig, HealthCheckKind, HealthRecord, ProxyBinding, ProxyConfig,
    ServiceConfig, UpstreamConfig, UpstreamState, VelaConfig,
};
use vela::proxy::{
    address_text, bind_error, build_proxy_bindings, handle_connection, is_upstream_healthy,
    run_listener, validate_proxy_config, ConnectionPlan, ListenerAction, ListenerEvent,
    ListenerState,
};
use vela::state::VelaState;

fn make_config_with_proxy(service_port: u16, proxy_port: u16, api_port: u16) -> VelaConfig {
    VelaConfig {
        global: GlobalConfig {
            api_port,
            api_key: "test-key".to_string(),
            log_dir: "/tmp".to_string(),
        },
        services: vec![ServiceConfig {
            id: "test-svc".to_string(),
            name: "Test Service".to_string(),
            host: Some("127.0.0.1".to_string()),
            port: Some(service_port),
            command: None,
            upstreams: vec![],
            restart: None,
            check_interval_secs: 10,
            failure_threshold: 3,
            max_restarts: 3,
            health_check: HealthCheckConfig {
                kind: HealthCheckKind::Tcp,
                http_path: None,
                timeout_ms: 1000,
            },
            proxy: Some(ProxyConfig {
                listen_port: proxy_port,
                bind_all_interfaces: false,
            }),
            alerts: vec![],
        }],
    }
}

fn refusal(config: &VelaConfig) -> String {
    validate_proxy_config(config).unwrap_err().to_text()
}

fn record(success: bool) -> HealthRecord {
    HealthRecord {
        service_id: "svc".to_string(),
        success,
        latency_ms: 1,
        checked_at: Timestamp::now(),
        error: None,
    }
}

fn binding(id: &str, addrs: &[&str]) -> ProxyBinding {
    ProxyBinding {
        service_id: id.to_string(),
        service_name: "S".to_string(),
        listen_addr: "127.0.0.1:8001".to_string(),
        upstream_addrs: addrs.iter().map(|a| a.to_string()).collect(),
    }
}

fn target(state: &VelaState, binding: &ProxyBinding, turn: usize) -> Option<String> {
    match handle_connection(state, binding, turn) {
        ConnectionPlan::Forward(addr) => Some(addr),
        ConnectionPlan::Reject => None,
    }
}

#[test]
fn valid_proxy_config_passes_validation() {
    let config = make_config_with_proxy(3001, 8001, 7700);
    assert!(validate_proxy_config(&config).is_ok());
}

#[test]
fn proxy_port_conflicting_with_api_port_is_rejected() {
    let config = make_config_with_proxy(3001, 7700, 7700);
    assert!(validate_proxy_config(&config).is_err());
    assert_eq!(
        refusal(&config),
        "Proxy port conflict on port 7700: Service 'test-svc' proxy listen_port 7700 conflicts with Vela API port"
    );
}

#[test]
fn proxy_port_conflicting_with_service_port_is_rejected() {
    let config = make_config_with_proxy(3001, 3001, 7700);
    assert!(validate_proxy_config(&config).is_err());
    assert_eq!(
        refusal(&config),
        "Proxy port conflict on port 3001: Service 'test-svc' proxy listen_port 3001 conflicts with the service's own port"
    );
}

#[test]
fn proxy_port_conflicting_with_an_upstream_port_is_rejected() {
    let mut config = make_config_with_proxy(3001, 3005, 7700);
    config.services[0].upstreams = vec![UpstreamConfig {
        host: "127.0.0.1".to_string(),
        port: 3005,
        docker_container: None,
    }];
    assert!(validate_proxy_config(&config).is_err());
}

#[test]
fn proxy_port_zero_is_rejected() {
    let config = make_config_with_proxy(3001, 0, 7700);
    assert_eq!(
        refusal(&config),
        "Proxy port conflict on port 0: Service 'test-svc' proxy listen_port 0 is not valid"
    );
}

#[test]
fn duplicate_proxy_ports_across_services_are_rejected() {
    let mut config = make_config_with_proxy(3001, 8001, 7700);
    let mut second = config.services[0].clone();
    second.id = "svc2".to_string();
    second.port = Some(3002);
    config.services.push(second);

    assert!(validate_proxy_config(&config).is_err());
    assert_eq!(
        refusal(&config),
        "Proxy port conflict on port 8001: Port 8001 is used by multiple services or conflicts with the API port"
    );
}

#[test]
fn service_without_proxy_config_is_skipped_in_validation() {
    let mut config = make_config_with_proxy(3001, 8001, 7700);
    config.services[0].proxy = None;
    assert!(validate_proxy_config(&config).is_ok());
}

#[test]
fn build_proxy_bindings_returns_correct_addresses() {
    let config = make_config_with_proxy(3001, 8001, 7700);
    let bindings = build_proxy_bindings(&config);

    assert_eq!(bindings.len(), 1);
    assert_eq!(bindings[0].service_id, "test-svc");
    assert_eq!(bindings[0].listen_addr, "127.0.0.1:8001");
    assert_eq!(bindings[0].upstream_addrs, vec!["127.0.0.1:3001"]);
}

#[test]
fn build_proxy_bindings_lists_all_upstreams() {
    let mut config = make_config_with_proxy(3001, 8001, 7700);
    for port in [4001, 4002] {
        config.services[0].upstreams.push(UpstreamConfig {
            host: "10.0.0.1".to_string(),
            port,
            docker_container: None,
        });
    }
    let bindings = build_proxy_bindings(&config);
    assert_eq!(bindings[0].service_name, "Test Service");
    assert_eq!(
        bindings[0].upstream_addrs,
        vec!["10.0.0.1:4001", "10.0.0.1:4002"]
    );
}

#[test]
fn build_proxy_bindings_skips_services_without_proxy() {
    let mut config = make_config_with_proxy(3001, 8001, 7700);
    config.services[0].proxy = None;
    let bindings = build_proxy_bindings(&config);
    assert!(bindings.is_empty(), "No bindings when no proxy configs");
}

#[test]
fn build_proxy_bindings_uses_all_interfaces_when_configured() {
    let mut config = make_config_with_proxy(3001, 8001, 7700);
    config.services[0]
        .proxy
        .as_mut()
        .unwrap()
        .bind_all_interfaces = true;
    let bindings = build_proxy_bindings(&config);
    assert!(bindings[0].listen_addr.starts_with("0.0.0.0"));
}

#[test]
fn upstream_is_not_healthy_when_status_is_unknown() {
    let mut state = VelaState::new();
    state.register_service("svc".to_string()).unwrap();
    assert!(!is_upstream_healthy(&state, "svc"));
    assert!(!is_upstream_healthy(&state, "ghost"));
}

#[test]
fn upstream_is_healthy_after_successful_check() {
    let mut state = VelaState::new();
    state.register_service("svc".to_string()).unwrap();
    state
        .record_health_check(record(true), "Test Service".to_string(), 3)
        .unwrap();
    assert!(is_upstream_healthy(&state, "svc"));
}

#[test]
fn upstream_is_not_healthy_after_failed_checks() {
    let mut state = VelaState::new();
    state.register_service("svc".to_string()).unwrap();
    for _ in 0..3 {
        let record = HealthRecord {
            service_id: "svc".to_string(),
            success: false,
            latency_ms: 0,
            checked_at: Timestamp::now(),
            error: Some("refused".to_string()),
        };
        state
            .record_health_check(record, "Test Service".to_string(), 3)
            .unwrap();
    }
    assert!(!is_upstream_healthy(&state, "svc"));
}

#[test]
fn proxy_engine_forwards_to_a_healthy_service() {
    let mut state = VelaState::new();
    state.register_service("svc".to_string()).unwrap();
    state
        .record_health_check(record(true), "Test".to_string(), 3)
        .unwrap();
    let binding = binding("svc", &["127.0.0.1:3001"]);
    assert_eq!(target(&state, &binding, 0).as_deref(), Some("127.0.0.1:3001"));
    assert_eq!(target(&state, &binding, 17).as_deref(), Some("127.0.0.1:3001"));
}

#[test]
fn proxy_rejects_connection_when_upstream_is_not_healthy() {
    let mut state = VelaState::new();
    state.register_service("test-svc".to_string()).unwrap();
    assert_eq!(target(&state, &binding("test-svc", &["127.0.0.1:3001"]), 0), None);
    assert_eq!(target(&state, &binding("ghost", &["127.0.0.1:3001"]), 0), None);
}

#[test]
fn connections_take_turns_at_the_healthy_upstreams() {
    let mut state = VelaState::new();
    state.register_service("svc".to_string()).unwrap();
    let upstreams = [1, 2, 3]
        .iter()
        .map(|p| UpstreamState::initial("h".to_string(), *p))
        .collect();
    state.register_service_upstreams("svc".to_string(), upstreams);
    let binding = binding("svc", &["h:1", "h:2", "h:3"]);
    assert_eq!(target(&state, &binding, 0), None);

    let check = |state: &mut VelaState, port: u16, ok: bool| {
        state
            .record_upstream_health_check("svc", "h", port, ok, 1, None, 1, "S".to_string())
            .unwrap();
    };
    for port in [1, 2, 3] {
        check(&mut state, port, true);
    }
    let round: Vec<_> = (0..4).map(|t| target(&state, &binding, t).unwrap()).collect();
    assert_eq!(round, vec!["h:1", "h:2", "h:3", "h:1"]);

    check(&mut state, 2, false);
    assert!(!is_upstream_healthy(&state, "svc"));
    let round: Vec<_> = (0..4).map(|t| target(&state, &binding, t).unwrap()).collect();
    assert_eq!(round, vec!["h:1", "h:3", "h:1", "h:3"]);

    check(&mut state, 2, true);
    assert_eq!(target(&state, &binding, 1).as_deref(), Some("h:2"));
}

#[test]
fn turns_start_over_at_the_end() {
    let mut listener = ListenerState::new();
    listener.turn = usize::MAX;
    assert_eq!(
        run_listener(&mut listener, ListenerEvent::Accepted),
        ListenerAction::Serve(usize::MAX)
    );
    assert_eq!(
        run_listener(&mut listener, ListenerEvent::Accepted),
        ListenerAction::Serve(0)
    );
}

#[test]
fn full_listener_turns_clients_away() {
    let mut listener = ListenerState::new();
    for turn in 0..1024 {
        assert_eq!(
            run_listener(&mut listener, ListenerEvent::Accepted),
            ListenerAction::Serve(turn)
        );
    }
    assert_eq!(
        run_listener(&mut listener, ListenerEvent::Accepted),
        ListenerAction::TurnAway
    );
    assert_eq!(
        run_listener(&mut listener, ListenerEvent::Finished),
        ListenerAction::Resume
    );
    assert_eq!(
        run_listener(&mut listener, ListenerEvent::Accepted),
        ListenerAction::Serve(1024)
    );
}

#[test]
fn listener_drains_before_it_stops() {
    let mut listener = ListenerState::new();
    run_listener(&mut listener, ListenerEvent::Accepted);
    assert_eq!(
        run_listener(&mut listener, ListenerEvent::AcceptFailed),
        ListenerAction::Resume
    );
    assert_eq!(
        run_listener(&mut listener, ListenerEvent::ShutDown),
        ListenerAction::Resume
    );
    assert_eq!(
        run_listener(&mut listener, ListenerEvent::Accepted),
        ListenerAction::TurnAway
    );
    assert_eq!(
        run_listener(&mut listener, ListenerEvent::Finished),
        ListenerAction::Stop
    );
    let mut idle = ListenerState::new();
    assert_eq!(
        run_listener(&mut idle, ListenerEvent::ShutDown),
        ListenerAction::Stop
    );
}

#[test]
fn bind_error_names_the_port() {
    assert_eq!(
        bind_error("127.0.0.1:8001", "in use").to_text(),
        "Proxy failed to bind port 8001: in use"
    );
    assert_eq!(
        bind_error("nowhere", "in use").to_text(),
        "Proxy failed to bind port 0: in use"
    );
    assert_eq!(
        bind_error(&address_text("::1", 65535), "x").to_text(),
        "Proxy failed to bind port 65535: x"
    );
}
