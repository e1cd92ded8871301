use vela::clock::Timestamp;
use vela::docker_engine::{
    connect_error, get_container_port, get_container_status, inspect_error, ping_error,
    repull_and_restart, restart_container, successor, ContainerState, RepullProgress, RepullStep,
};
use vela::models::{
    DockerConfig, HealthCheckConfig, HealthCheckKind, RecoveryState, RestartConfig, RestartMode,
    RestartOutcome, ServiceConfig, ServiceStatus,
};
use vela::recovery::{
    execute_restart_command, finish_recovery, finish_restart, handle_failed_service,
    initial_states, restart_record, scan_and_recover, CommandEnd, RecoveryAction, RestartPlan,
};

fn at(secs: i64) -> Timestamp {
    Timestamp::new(secs, 0).unwrap()
}

fn make_test_service(id: &str, command: Option<&str>) -> ServiceConfig {
    ServiceConfig {
        id: id.to_string(),
        name: format!("Test {}", id),
        host: Some("127.0.0.1".to_string()),
        port: Some(9999),
        command: command.map(|c| c.to_string()),
        upstreams: vec![],
        restart: None,
        check_interval_secs: 5,
        failure_threshold: 3,
        max_restarts: 3,
        health_check: HealthCheckConfig {
            kind: HealthCheckKind::Tcp,
            http_path: None,
            timeout_ms: 1000,
        },
        proxy: None,
        alerts: vec![],
    }
}

fn docker_service(image: Option<&str>) -> ServiceConfig {
    let mut svc = make_test_service("docker", None);
    svc.restart = Some(RestartConfig {
        mode: RestartMode::Docker,
        command: None,
        docker: Some(DockerConfig {
            container: "my-app".to_string(),
            image: image.map(|i| i.to_string()),
            socket_path: None,
        }),
    });
    svc
}

fn plan(svc: &ServiceConfig) -> RestartPlan {
    let mut state = RecoveryState::initial();
    match handle_failed_service(svc, &mut state, true, at(0)) {
        RecoveryAction::Restart { plan, .. } => plan,
        other => panic!("unexpected action {:?}", other),
    }
}

#[test]
fn docker_config_with_no_image_uses_restart_not_repull() {
    let svc = docker_service(None);
    assert!(svc
        .restart
        .as_ref()
        .unwrap()
        .docker
        .as_ref()
        .unwrap()
        .image
        .is_none());
    assert_eq!(plan(&svc), RestartPlan::RestartContainer("my-app".to_string()));
}

#[test]
fn docker_config_with_an_image_is_pulled_again() {
    assert_eq!(
        plan(&docker_service(Some("app:latest"))),
        RestartPlan::RepullContainer {
            container: "my-app".to_string(),
            image: "app:latest".to_string()
        }
    );
}

#[test]
fn command_alone_means_manual_restart() {
    assert_eq!(
        plan(&make_test_service("svc", Some("true"))),
        RestartPlan::RunCommand("true".to_string())
    );
}

#[test]
fn restart_config_wins_over_the_command() {
    let mut svc = make_test_service("svc", Some("true"));
    svc.restart = Some(RestartConfig {
        mode: RestartMode::MonitorOnly,
        command: None,
        docker: None,
    });
    let mut state = RecoveryState::initial();
    assert!(matches!(
        handle_failed_service(&svc, &mut state, true, at(0)),
        RecoveryAction::NotRestartable
    ));
}

#[test]
fn recovery_engine_does_not_act_on_service_without_command() {
    let svc = make_test_service("no-command-svc", None);
    let services = vec![svc];
    let mut states = initial_states(&services).unwrap();
    for i in 0..5 {
        assert!(matches!(
            scan_and_recover(
                "no-command-svc",
                ServiceStatus::Failed,
                &services,
                &mut states,
                true,
                at(i)
            ),
            RecoveryAction::NotRestartable
        ));
    }
    assert_eq!(states.get("no-command-svc").unwrap().current_episode_attempts, 0);
}

#[test]
fn without_docker_nothing_is_tried() {
    let mut state = RecoveryState::initial();
    assert!(matches!(
        handle_failed_service(&docker_service(None), &mut state, false, at(0)),
        RecoveryAction::DockerUnavailable
    ));
    assert_eq!(state.current_episode_attempts, 0);
    assert!(matches!(
        handle_failed_service(&make_test_service("m", Some("true")), &mut state, false, at(0)),
        RecoveryAction::Restart { .. }
    ));
}

#[test]
fn restarts_wait_longer_and_end() {
    let svc = make_test_service("svc", Some("true"));
    let mut state = RecoveryState::initial();
    assert!(matches!(
        handle_failed_service(&svc, &mut state, true, at(0)),
        RecoveryAction::Restart { attempt_number: 1, .. }
    ));
    assert!(state.restart_in_progress);
    assert!(matches!(
        handle_failed_service(&svc, &mut state, true, at(1)),
        RecoveryAction::InProgress
    ));
    finish_restart(&mut state, at(10));
    assert_eq!(state.current_backoff, 13);
    match handle_failed_service(&svc, &mut state, true, at(22)) {
        RecoveryAction::BackingOff { elapsed, required } => {
            assert_eq!(elapsed, 12);
            assert_eq!(required, 13);
        }
        other => panic!("unexpected action {:?}", other),
    }
    assert!(matches!(
        handle_failed_service(&svc, &mut state, true, at(23)),
        RecoveryAction::Restart { attempt_number: 2, .. }
    ));
    finish_restart(&mut state, at(24));
    assert!(matches!(
        handle_failed_service(&svc, &mut state, true, at(1000)),
        RecoveryAction::Restart { attempt_number: 3, .. }
    ));
    finish_restart(&mut state, at(1001));
    match handle_failed_service(&svc, &mut state, true, at(1002)) {
        RecoveryAction::GiveUp(event) => {
            assert_eq!(event.previous_status, ServiceStatus::Failed);
            assert_eq!(event.new_status, ServiceStatus::Failed);
            assert_eq!(
                event.message,
                "CRITICAL: Service 'Test svc' has exceeded max_restarts (3) with no recovery. Manual intervention required."
            );
        }
        other => panic!("unexpected action {:?}", other),
    }
    for i in 0..3 {
        assert!(matches!(
            handle_failed_service(&svc, &mut state, true, at(5000 + i)),
            RecoveryAction::GivenUp
        ));
    }
    assert_eq!(state.current_episode_attempts, 4);
}

#[test]
fn recovery_resets_the_episode() {
    let services = vec![make_test_service("svc", Some("true")), make_test_service("b", None)];
    let mut states = initial_states(&services).unwrap();
    assert!(matches!(
        scan_and_recover("svc", ServiceStatus::Healthy, &services, &mut states, true, at(0)),
        RecoveryAction::Idle
    ));
    assert!(matches!(
        scan_and_recover("svc", ServiceStatus::Degraded, &services, &mut states, true, at(0)),
        RecoveryAction::Watch
    ));
    assert!(matches!(
        scan_and_recover("svc", ServiceStatus::Failed, &services, &mut states, true, at(0)),
        RecoveryAction::Restart { .. }
    ));
    finish_recovery(&mut states, "svc", at(1));
    assert_eq!(states.get("svc").unwrap().current_backoff, 13);
    assert!(!states.get("svc").unwrap().restart_in_progress);
    assert!(matches!(
        scan_and_recover("svc", ServiceStatus::Healthy, &services, &mut states, true, at(2)),
        RecoveryAction::Recovered { attempts: 1 }
    ));
    assert_eq!(states.get("svc").unwrap().current_backoff, 5);
    assert_eq!(states.get("b").unwrap().current_backoff, 5);
}

#[test]
fn unknown_services_are_left_alone() {
    let services = vec![make_test_service("svc", Some("true"))];
    let mut states = initial_states(&services).unwrap();
    assert!(matches!(
        scan_and_recover("ghost", ServiceStatus::Failed, &services, &mut states, true, at(0)),
        RecoveryAction::UnknownService
    ));
    finish_recovery(&mut states, "ghost", at(0));
    assert_eq!(states.len(), 1);
}

#[test]
fn service_without_recovery_state_is_left_alone() {
    let services = vec![make_test_service("svc", Some("true"))];
    let mut states = vela::table::Table::new();
    assert!(matches!(
        scan_and_recover("svc", ServiceStatus::Failed, &services, &mut states, true, at(0)),
        RecoveryAction::NoRecoveryState
    ));
}

#[test]
fn recovery_engine_refuses_to_start_with_zero_services() {
    let services: Vec<ServiceConfig> = vec![];
    assert_eq!(
        initial_states(&services).unwrap_err().to_text(),
        "Config validation error: Recovery engine started with zero services"
    );
}

#[test]
fn execute_restart_command_succeeds_with_true_command() {
    let end = CommandEnd::Exited {
        success: true,
        code: Some(0),
    };
    assert_eq!(execute_restart_command("true", end), RestartOutcome::Succeeded);
}

#[test]
fn execute_restart_command_fails_with_false_command() {
    let end = CommandEnd::Exited {
        success: false,
        code: Some(1),
    };
    assert_eq!(
        execute_restart_command("false", end),
        RestartOutcome::Failed("Exited with status: 1".to_string())
    );
    let killed = CommandEnd::Exited {
        success: false,
        code: None,
    };
    assert_eq!(
        execute_restart_command("false", killed),
        RestartOutcome::Failed("Exited with status: -1".to_string())
    );
}

#[test]
fn execute_restart_command_returns_spawn_error_for_invalid_command() {
    let command = "/this/path/definitely/does/not/exist/vela_test_binary_xyz";
    assert_eq!(
        execute_restart_command(command, CommandEnd::NotSpawned("not found".to_string())),
        RestartOutcome::SpawnError(format!("Failed to spawn 'sh -c {}': not found", command))
    );
    let not_found = CommandEnd::Exited { success: false, code: Some(127) };
    assert_eq!(
        execute_restart_command(command, not_found),
        RestartOutcome::Failed("Exited with status: 127".to_string())
    );
    assert_eq!(
        execute_restart_command("x", CommandEnd::NotAwaited("lost".to_string())),
        RestartOutcome::SpawnError("Wait error: lost".to_string())
    );
    assert_eq!(
        execute_restart_command("x", CommandEnd::TimedOut),
        RestartOutcome::TimedOut
    );
}

#[test]
fn restart_records_say_how_it_ended() {
    let good = restart_record("svc", at(3), &RestartOutcome::Succeeded, 2);
    assert!(good.succeeded);
    assert_eq!(good.attempt_number, 2);
    assert_eq!(good.attempted_at, at(3));
    assert!(!restart_record("svc", at(3), &RestartOutcome::TimedOut, 2).succeeded);
}

#[test]
fn container_status_needs_a_running_state() {
    let seen = |running, paused, dead| {
        get_container_status("c", Ok(Some(ContainerState { running, paused, dead }))).unwrap()
    };
    assert!(seen(Some(true), None, None));
    assert!(seen(Some(true), Some(false), Some(false)));
    assert!(!seen(Some(true), Some(true), Some(false)));
    assert!(!seen(Some(true), Some(false), Some(true)));
    assert!(!seen(Some(false), Some(false), Some(false)));
    assert!(!seen(None, None, None));
    assert!(!get_container_status("c", Ok(None)).unwrap());
    assert_eq!(
        get_container_status("c", Err("404".to_string()))
            .unwrap_err()
            .to_text(),
        "Process error: Failed to inspect container 'c': 404"
    );
}

#[test]
fn first_published_port_is_found() {
    let ports = vec![
        None,
        Some(vec![None, Some("nonsense".to_string()), Some("70000".to_string())]),
        Some(vec![Some("+8080".to_string()), Some("9".to_string())]),
    ];
    assert_eq!(get_container_port("c", Some(ports)).unwrap(), 8080);
    assert_eq!(
        get_container_port("c", Some(vec![None])).unwrap_err().to_text(),
        "Process error: Container 'c' has no exposed host port"
    );
    assert_eq!(
        get_container_port("c", None).unwrap_err().to_text(),
        "Process error: Container 'c' has no network settings"
    );
}

#[test]
fn successor_keeps_all_but_the_image() {
    let s = successor("web", "web:2", vec!["PORT=80"], Some("80:8080"));
    assert_eq!(s.name, "web");
    assert_eq!(s.image, "web:2");
    assert_eq!(s.config, vec!["PORT=80"]);
    assert_eq!(s.host_config, Some("80:8080"));
    let bare = successor("web", "web:2", 7, None::<u8>);
    assert_eq!((bare.config, bare.host_config), (7, None));
}

#[test]
fn docker_restart_reports_its_failure() {
    assert_eq!(restart_container("c", None), RestartOutcome::Succeeded);
    assert_eq!(
        restart_container("c", Some("gone".to_string())),
        RestartOutcome::Failed("Docker restart of 'c' failed: gone".to_string())
    );
}

#[test]
fn repull_goes_through_its_steps() {
    let mut step = RepullStep::Inspect;
    let mut seen = vec![step];
    loop {
        match repull_and_restart(step, "c", "i", None) {
            RepullProgress::Next(next) => {
                seen.push(next);
                step = next;
            }
            RepullProgress::Done(outcome) => {
                assert_eq!(outcome, RestartOutcome::Succeeded);
                break;
            }
        }
    }
    assert_eq!(
        seen,
        vec![
            RepullStep::Inspect,
            RepullStep::Pull,
            RepullStep::Stop,
            RepullStep::Remove,
            RepullStep::Create,
            RepullStep::Start
        ]
    );
}

#[test]
fn repull_names_the_step_that_failed() {
    let cases = vec![
        (RepullStep::Inspect, "repull: failed to inspect existing container 'c': x"),
        (RepullStep::Pull, "repull: failed to pull image 'i': x"),
        (RepullStep::Remove, "repull: failed to remove container 'c': x"),
        (
            RepullStep::Create,
            "repull: failed to create new container 'c' from image 'i': x",
        ),
        (RepullStep::Start, "repull: failed to start recreated container 'c': x"),
    ];
    for (step, words) in cases {
        match repull_and_restart(step, "c", "i", Some("x".to_string())) {
            RepullProgress::Done(outcome) => {
                assert_eq!(outcome, RestartOutcome::Failed(words.to_string()))
            }
            other => panic!("unexpected progress {:?}", other),
        }
    }
    assert!(matches!(
        repull_and_restart(RepullStep::Stop, "c", "i", Some("x".to_string())),
        RepullProgress::Next(RepullStep::Remove)
    ));
}

#[test]
fn docker_errors_explain_themselves() {
    assert!(connect_error("no socket")
        .to_text()
        .starts_with("Process error: Failed to connect to Docker daemon: no socket. Is Docker running"));
    assert_eq!(
        ping_error("timeout").to_text(),
        "Process error: Docker daemon did not respond to ping: timeout. Is the Docker daemon running?"
    );
    assert_eq!(
        inspect_error("c", "gone").to_text(),
        "Process error: Failed to inspect container 'c': gone"
    );
}
