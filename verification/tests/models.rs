use vela::clock::Timestamp;
use vela::error::VelaError;
use vela::models::{
    default_api_port, default_check_interval, default_failure_threshold, default_log_dir,
    default_max_restarts, default_timeout_ms, default_true, ApiError, ApiResponse, DockerConfig,
    HealthEngineConfig, RecoveryState, RestartConfig, RestartMode, RestartOutcome, ServiceState,
    ServiceStatus, ServiceSummary, UpstreamState, BASE_BACKOFF_SECS, MAX_BACKOFF_SECS,
};

#[test]
fn restart_config_validate_ok_for_manual_with_command() {
    let cfg = RestartConfig {
        mode: RestartMode::Manual,
        command: Some("systemctl restart x".to_string()),
        docker: None,
    };
    assert!(cfg.validate("svc").is_ok());
}

#[test]
fn restart_config_validate_fails_for_manual_without_command() {
    let cfg = RestartConfig {
        mode: RestartMode::Manual,
        command: None,
        docker: None,
    };
    let err = cfg.validate("svc").unwrap_err();
    assert!(matches!(err, VelaError::ConfigValidation(_)));
    assert_eq!(
        err.to_text(),
        "Config validation error: Service 'svc' has restart.mode = \"manual\" but restart.command is not set"
    );
}

#[test]
fn restart_config_validate_ok_for_docker_with_docker_block() {
    let cfg = RestartConfig {
        mode: RestartMode::Docker,
        command: None,
        docker: Some(DockerConfig {
            container: "my-container".to_string(),
            image: None,
            socket_path: None,
        }),
    };
    assert!(cfg.validate("svc").is_ok());
}

#[test]
fn restart_config_validate_fails_for_docker_without_docker_block() {
    let cfg = RestartConfig {
        mode: RestartMode::Docker,
        command: None,
        docker: None,
    };
    let err = cfg.validate("svc").unwrap_err();
    assert!(matches!(err, VelaError::ConfigValidation(_)));
    assert_eq!(
        err.to_text(),
        "Config validation error: Service 'svc' has restart.mode = \"docker\" but no [services.restart.docker] block"
    );
}

#[test]
fn restart_config_validate_ok_for_none_mode_regardless_of_fields() {
    let cfg = RestartConfig {
        mode: RestartMode::MonitorOnly,
        command: None,
        docker: None,
    };
    assert!(cfg.validate("svc").is_ok());
}

#[test]
fn upstream_state_initial_starts_unknown_with_no_history() {
    let state = UpstreamState::initial("127.0.0.1".to_string(), 8080);
    assert_eq!(state.host, "127.0.0.1");
    assert_eq!(state.port, 8080);
    assert_eq!(state.status, ServiceStatus::Unknown);
    assert_eq!(state.consecutive_failures, 0);
    assert!(state.last_checked_at.is_none());
    assert!(state.last_ok_at.is_none());
    assert!(state.latency_ms.is_none());
}

#[test]
fn recovery_state_initial_values_are_correct() {
    let rs = RecoveryState::initial();
    assert_eq!(rs.current_backoff, BASE_BACKOFF_SECS);
    assert!(!rs.restart_in_progress);
    assert_eq!(rs.current_episode_attempts, 0);
    assert!(rs.backoff_started_at.is_none());
}

#[test]
fn recovery_state_backoff_doubles_each_advance() {
    let mut rs = RecoveryState::initial();
    let initial = rs.current_backoff;
    rs.advance_backoff();
    assert!(rs.current_backoff >= initial.saturating_mul(2));
    assert_eq!(rs.current_backoff, 12);
}

#[test]
fn recovery_state_backoff_is_capped_at_maximum() {
    let mut rs = RecoveryState::initial();
    for _ in 0..20 {
        rs.advance_backoff();
    }
    let max_with_jitter = MAX_BACKOFF_SECS + (MAX_BACKOFF_SECS / 5) + 2;
    assert!(rs.current_backoff <= max_with_jitter);
    assert_eq!(rs.current_backoff, 360);
    rs.current_episode_attempts = 5;
    rs.advance_backoff();
    assert_eq!(rs.current_backoff, 362);
    rs.current_backoff = u64::MAX;
    rs.advance_backoff();
    assert_eq!(rs.current_backoff, 362);
}

#[test]
fn recovery_state_reset_clears_all_episode_state() {
    let mut rs = RecoveryState::initial();
    rs.advance_backoff();
    rs.advance_backoff();
    rs.current_episode_attempts = 5;
    rs.restart_in_progress = true;
    rs.backoff_started_at = Some(Timestamp::now());

    rs.reset();

    assert_eq!(rs.current_backoff, BASE_BACKOFF_SECS);
    assert!(!rs.restart_in_progress);
    assert_eq!(rs.current_episode_attempts, 0);
    assert!(rs.backoff_started_at.is_none());
}

#[test]
fn restart_outcome_succeeded_is_correctly_identified() {
    let outcome = RestartOutcome::Succeeded;
    assert_eq!(outcome, RestartOutcome::Succeeded);
}

#[test]
fn restart_outcome_failed_carries_reason_string() {
    let outcome = RestartOutcome::Failed("container not found".to_string());
    match outcome {
        RestartOutcome::Failed(reason) => assert_eq!(reason, "container not found"),
        other => panic!("expected Failed, got {:?}", other),
    }
}

#[test]
fn defaults_are_those_of_the_manual() {
    assert_eq!(default_api_port(), 7700);
    assert_eq!(default_log_dir(), "/var/log/vela");
    assert_eq!(default_check_interval(), 10);
    assert_eq!(default_failure_threshold(), 3);
    assert_eq!(default_max_restarts(), 5);
    assert_eq!(default_timeout_ms(), 5000);
    assert!(default_true());
    assert_eq!(HealthEngineConfig::default().max_concurrent_checks, 1000);
}

#[test]
fn envelopes_carry_the_version() {
    let response = ApiResponse::success(7u32);
    assert!(response.ok);
    assert_eq!(response.version, "1");
    assert_eq!(response.data, 7);
    let error = ApiError::new("nope");
    assert!(!error.ok);
    assert_eq!(error.version, "1");
    assert_eq!(error.error, "nope");
}

#[test]
fn summary_shows_the_state() {
    let mut state = ServiceState::initial("svc".to_string());
    state.status = ServiceStatus::Degraded;
    state.consecutive_failures = 2;
    state.restart_count = 4;
    state.last_checked_at = Timestamp::new(10, 0);
    let summary = ServiceSummary::from_state(&state, "Service");
    assert_eq!(summary.service_id, "svc");
    assert_eq!(summary.service_name, "Service");
    assert_eq!(summary.status, "Degraded");
    assert_eq!(summary.consecutive_failures, 2);
    assert_eq!(summary.restart_count, 4);
    assert!(!summary.is_recovering);
    assert_eq!(summary.last_checked_at, Timestamp::new(10, 0));
    assert_eq!(summary.last_ok_at, None);
}
