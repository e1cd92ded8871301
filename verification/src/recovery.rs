//! The recovery engine: decides when a failed service is restarted, when it
//! has to wait, and when to give up.
//!
//! The engine looks at every service every few seconds. Restarts of one
//! service never overlap; the waits between them grow; and after the allowed
//! number of attempts the engine gives up until the service is seen healthy.

use vstd::prelude::*;
use vstd::string::*;

use crate::clock;
use crate::clock::Timestamp;
use crate::config;
use crate::error;
use crate::error::VelaError;
use crate::models;
use crate::models::{
    RecoveryState, RestartMode, RestartOutcome, RestartRecord, ServiceConfig, ServiceStatus,
    StatusChangeEvent,
};
use crate::table::Table;
use crate::text;

verus! {

/// Seconds between two looks at the services.
pub const POLL_INTERVAL_SECS: u64 = 3;

/// Seconds that a restart command may take.
pub const RESTART_COMMAND_TIMEOUT_SECS: u64 = 30;

/// What a restart consists of.
#[derive(Debug, Clone, PartialEq)]
pub enum RestartPlan {
    /// Running a shell command.
    RunCommand(String),
    /// Restarting a container in place.
    RestartContainer(String),
    /// Recreating a container from a freshly pulled image.
    RepullContainer { container: String, image: String },
}

/// What to do about a service.
#[derive(Debug)]
pub enum RecoveryAction {
    /// Nothing: the service is not in the configuration.
    UnknownService,
    /// Nothing: the service is well, and has been.
    Idle,
    /// Nothing more: the service is well again after this many attempts.
    Recovered { attempts: u32 },
    /// Nothing yet: some checks failed, too few to act.
    Watch,
    /// Nothing: the service has no means of restart.
    NotRestartable,
    /// Nothing: the engine keeps no recovery state of the service.
    NoRecoveryState,
    /// Nothing: the service is restarted through Docker, which is not there.
    DockerUnavailable,
    /// Nothing: a restart is running.
    InProgress,
    /// Broadcast that the service is beyond recovery.
    GiveUp(StatusChangeEvent),
    /// Nothing: the engine gave up before.
    GivenUp,
    /// Nothing yet: the wait is not over.
    BackingOff { elapsed: u64, required: u64 },
    /// Restart the service.
    Restart { attempt_number: u32, plan: RestartPlan },
}

/// The way to restart a service, if it has one.
pub open spec fn plan_of(svc: ServiceConfig) -> Option<RestartPlan> {
    let restart = config::effective_restart(svc);
    match restart.mode {
        RestartMode::Manual => match restart.command {
            Some(command) => Some(RestartPlan::RunCommand(command)),
            None => None,
        },
        RestartMode::Docker => match restart.docker {
            Some(docker) => match docker.image {
                Some(image) => Some(
                    RestartPlan::RepullContainer { container: docker.container, image },
                ),
                None => Some(RestartPlan::RestartContainer(docker.container)),
            },
            None => None,
        },
        RestartMode::MonitorOnly => None,
    }
}

/// Whether a restart goes through Docker.
pub open spec fn needs_docker(plan: RestartPlan) -> bool {
    !(plan is RunCommand)
}

/// Whether `event` tells the operators that the service is beyond recovery.
pub open spec fn is_give_up(event: StatusChangeEvent, svc: ServiceConfig, now: Timestamp) -> bool {
    &&& event.service_id@ == svc.id@
    &&& event.service_name@ == svc.name@
    &&& event.previous_status == ServiceStatus::Failed
    &&& event.new_status == ServiceStatus::Failed
    &&& event.timestamp == now
    &&& event.message@ == "CRITICAL: Service '"@ + svc.name@ + "' has exceeded max_restarts ("@
        + text::decimal(svc.max_restarts as nat)
        + ") with no recovery. Manual intervention required."@
}

/// Whether a wait that began at `start` is not over at `now`.
pub open spec fn is_waiting(before: RecoveryState, now: Timestamp) -> bool {
    before.backoff_started_at matches Some(start) && clock::elapsed(start, now)
        < before.current_backoff
}

/// Whether `action` and `after` are what becomes of a failed service whose
/// recovery stands at `before`.
pub open spec fn is_handled(
    svc: ServiceConfig,
    before: RecoveryState,
    docker_available: bool,
    now: Timestamp,
    action: RecoveryAction,
    after: RecoveryState,
) -> bool {
    match plan_of(svc) {
        None => action is NotRestartable && after == before,
        Some(plan) => if needs_docker(plan) && !docker_available {
            action is DockerUnavailable && after == before
        } else if before.restart_in_progress {
            action is InProgress && after == before
        } else if before.current_episode_attempts == svc.max_restarts {
            &&& action matches RecoveryAction::GiveUp(event) && is_give_up(event, svc, now)
            &&& after == RecoveryState {
                current_episode_attempts: (before.current_episode_attempts + 1) as u32,
                ..before
            }
        } else if before.current_episode_attempts > svc.max_restarts {
            action is GivenUp && after == before
        } else if is_waiting(before, now) {
            &&& action == RecoveryAction::BackingOff {
                elapsed: clock::elapsed(before.backoff_started_at->0, now) as u64,
                required: before.current_backoff,
            }
            &&& after == before
        } else {
            &&& action == RecoveryAction::Restart {
                attempt_number: (before.current_episode_attempts + 1) as u32,
                plan,
            }
            &&& after == RecoveryState {
                restart_in_progress: true,
                current_episode_attempts: (before.current_episode_attempts + 1) as u32,
                backoff_started_at: Some(now),
                ..before
            }
        },
    }
}

/// Whether the attempts of an episode can be counted once more.
pub open spec fn has_room(svc: ServiceConfig, state: RecoveryState) -> bool {
    svc.max_restarts < u32::MAX || state.current_episode_attempts < u32::MAX
}

fn restart_plan(svc: &ServiceConfig) -> (plan: Option<RestartPlan>)
    ensures
        plan == plan_of(*svc),
{
    match &svc.restart {
        Some(restart) => match restart.mode {
            RestartMode::Manual => match &restart.command {
                Some(command) => Some(RestartPlan::RunCommand(command.clone())),
                None => None,
            },
            RestartMode::Docker => match &restart.docker {
                Some(docker) => match &docker.image {
                    Some(image) => Some(
                        RestartPlan::RepullContainer {
                            container: docker.container.clone(),
                            image: image.clone(),
                        },
                    ),
                    None => Some(RestartPlan::RestartContainer(docker.container.clone())),
                },
                None => None,
            },
            RestartMode::MonitorOnly => None,
        },
        None => match &svc.command {
            Some(command) => Some(RestartPlan::RunCommand(command.clone())),
            None => None,
        },
    }
}

fn give_up_event(svc: &ServiceConfig, now: Timestamp) -> (event: StatusChangeEvent)
    ensures
        is_give_up(event, *svc, now),
{
    StatusChangeEvent {
        service_id: svc.id.clone(),
        service_name: svc.name.clone(),
        previous_status: ServiceStatus::Failed,
        new_status: ServiceStatus::Failed,
        timestamp: now,
        message: String::from_str("CRITICAL: Service '").concat(svc.name.as_str()).concat(
            "' has exceeded max_restarts (",
        ).concat(text::decimal_text(svc.max_restarts as u64).as_str()).concat(
            ") with no recovery. Manual intervention required.",
        ),
    }
}

/// Decides what to do about a failed service at the time `now`, and moves its
/// recovery on accordingly.
pub fn handle_failed_service(
    svc: &ServiceConfig,
    state: &mut RecoveryState,
    docker_available: bool,
    now: Timestamp,
) -> (action: RecoveryAction)
    requires
        has_room(*svc, *old(state)),
    ensures
        is_handled(*svc, *old(state), docker_available, now, action, *final(state)),
{
    let plan = match restart_plan(svc) {
        Some(plan) => plan,
        None => return RecoveryAction::NotRestartable,
    };
    let through_docker = match &plan {
        RestartPlan::RunCommand(_) => false,
        _ => true,
    };
    if through_docker && !docker_available {
        return RecoveryAction::DockerUnavailable;
    }
    if state.restart_in_progress {
        return RecoveryAction::InProgress;
    }
    if state.current_episode_attempts >= svc.max_restarts {
        if state.current_episode_attempts == svc.max_restarts {
            state.current_episode_attempts = state.current_episode_attempts + 1;
            return RecoveryAction::GiveUp(give_up_event(svc, now));
        }
        return RecoveryAction::GivenUp;
    }
    if let Some(started) = state.backoff_started_at {
        let elapsed: u64 = now.seconds_since(started);
        if elapsed < state.current_backoff {
            return RecoveryAction::BackingOff { elapsed, required: state.current_backoff };
        }
    }
    let attempt_number: u32 = state.current_episode_attempts + 1;
    state.restart_in_progress = true;
    state.current_episode_attempts = attempt_number;
    state.backoff_started_at = Some(now);
    RecoveryAction::Restart { attempt_number, plan }
}

/// The recovery state after a restart that ended at `now`.
pub open spec fn after_restart(before: RecoveryState, now: Timestamp) -> RecoveryState {
    RecoveryState {
        current_backoff: models::next_backoff(
            before.current_backoff as int,
            before.current_episode_attempts as int,
        ) as u64,
        restart_in_progress: false,
        current_episode_attempts: before.current_episode_attempts,
        backoff_started_at: Some(now),
    }
}

/// Moves the recovery of a service on when a restart has ended, well or not:
/// the next one has to wait longer, from now on.
pub fn finish_restart(state: &mut RecoveryState, now: Timestamp)
    ensures
        *final(state) == after_restart(*old(state), now),
{
    state.advance_backoff();
    state.restart_in_progress = false;
    state.backoff_started_at = Some(now);
}

/// The record of a restart attempt.
pub fn restart_record(
    service_id: &str,
    attempted_at: Timestamp,
    outcome: &RestartOutcome,
    attempt_number: u32,
) -> (record: RestartRecord)
    ensures
        record.service_id@ == service_id@,
        record.attempted_at == attempted_at,
        record.succeeded == (outcome is Succeeded),
        record.attempt_number == attempt_number,
{
    let succeeded = match outcome {
        RestartOutcome::Succeeded => true,
        _ => false,
    };
    RestartRecord { service_id: service_id.to_owned(), attempted_at, succeeded, attempt_number }
}

/// Whether `action` and `after` are what becomes of the service `service_id`
/// seen with this status, where the recovery of all services stands at
/// `before`.
pub open spec fn is_scanned(
    service_id: Seq<char>,
    status: ServiceStatus,
    services: Seq<ServiceConfig>,
    before: Map<Seq<char>, RecoveryState>,
    docker_available: bool,
    now: Timestamp,
    action: RecoveryAction,
    after: Map<Seq<char>, RecoveryState>,
) -> bool {
    match config::service_position(services, service_id) {
        None => action is UnknownService && after == before,
        Some(i) => match status {
            ServiceStatus::Healthy | ServiceStatus::Unknown => if before.dom().contains(service_id)
                && before[service_id].current_episode_attempts > 0 {
                &&& action == RecoveryAction::Recovered {
                    attempts: before[service_id].current_episode_attempts,
                }
                &&& after.dom() == before.dom()
                &&& after[service_id].is_initial()
                &&& after.remove(service_id) == before.remove(service_id)
            } else {
                action is Idle && after == before
            },
            ServiceStatus::Degraded => action is Watch && after == before,
            ServiceStatus::Failed => if before.dom().contains(service_id) {
                &&& after.dom() == before.dom()
                &&& is_handled(
                    services[i],
                    before[service_id],
                    docker_available,
                    now,
                    action,
                    after[service_id],
                )
                &&& after.remove(service_id) == before.remove(service_id)
            } else {
                &&& after == before
                &&& if plan_of(services[i]) is None {
                    action is NotRestartable
                } else {
                    action is NoRecoveryState
                }
            },
        },
    }
}

/// Looks at one service at the time `now`: decides what to do about it, and
/// moves its recovery on accordingly.
pub fn scan_and_recover(
    service_id: &str,
    status: ServiceStatus,
    services: &Vec<ServiceConfig>,
    states: &mut Table<RecoveryState>,
    docker_available: bool,
    now: Timestamp,
) -> (action: RecoveryAction)
    requires
        config::service_position(services@, service_id@) matches Some(i) ==> old(
            states,
        )@.dom().contains(service_id@) ==> has_room(services@[i], old(states)@[service_id@]),
    ensures
        is_scanned(
            service_id@,
            status,
            services@,
            old(states)@,
            docker_available,
            now,
            action,
            final(states)@,
        ),
        final(states).order() == old(states).order(),
{
    let i: usize = match config::find_service(services, service_id) {
        Some(i) => i,
        None => return RecoveryAction::UnknownService,
    };
    let mut state = match states.get(service_id) {
        Some(found) => *found,
        None => return match status {
            ServiceStatus::Healthy | ServiceStatus::Unknown => RecoveryAction::Idle,
            ServiceStatus::Degraded => RecoveryAction::Watch,
            ServiceStatus::Failed => match restart_plan(&services[i]) {
                None => RecoveryAction::NotRestartable,
                Some(_) => RecoveryAction::NoRecoveryState,
            },
        },
    };
    match status {
        ServiceStatus::Healthy | ServiceStatus::Unknown => {
            let attempts: u32 = state.current_episode_attempts;
            if attempts == 0 {
                return RecoveryAction::Idle;
            }
            state.reset();
            let _before = states.replace(service_id, state);
            assert(states@.dom() =~= old(states)@.dom());
            assert(states@.remove(service_id@) =~= old(states)@.remove(service_id@));
            RecoveryAction::Recovered { attempts }
        },
        ServiceStatus::Degraded => RecoveryAction::Watch,
        ServiceStatus::Failed => {
            let action = handle_failed_service(&services[i], &mut state, docker_available, now);
            let _before = states.replace(service_id, state);
            assert(states@.dom() =~= old(states)@.dom());
            assert(states@.remove(service_id@) =~= old(states)@.remove(service_id@));
            action
        },
    }
}

/// Moves the recovery of the service `service_id` on when a restart has ended.
pub fn finish_recovery(states: &mut Table<RecoveryState>, service_id: &str, now: Timestamp)
    ensures
        final(states)@ == (if old(states)@.dom().contains(service_id@) {
            old(states)@.insert(service_id@, after_restart(old(states)@[service_id@], now))
        } else {
            old(states)@
        }),
        final(states).order() == old(states).order(),
{
    let mut state = match states.get(service_id) {
        Some(found) => *found,
        None => return,
    };
    finish_restart(&mut state, now);
    let _before = states.replace(service_id, state);
}

/// Sets up the recovery of all services. There has to be at least one.
pub fn initial_states(services: &Vec<ServiceConfig>) -> (result: Result<
    Table<RecoveryState>,
    VelaError,
>)
    ensures
        match result {
            Ok(states) => {
                &&& services@.len() > 0
                &&& forall|id: Seq<char>| #[trigger]
                    states@.dom().contains(id) <==> config::service_position(services@, id)
                        is Some
                &&& forall|id: Seq<char>| #[trigger]
                    states@.dom().contains(id) ==> states@[id].is_initial()
            },
            Err(e) => services@.len() == 0 && error::is_config_error(
                e,
                "Recovery engine started with zero services"@,
            ),
        },
{
    if services.len() == 0 {
        return Err(
            VelaError::ConfigValidation(
                String::from_str("Recovery engine started with zero services"),
            ),
        );
    }
    let mut states: Table<RecoveryState> = Table::new();
    let mut i: usize = 0;
    while i < services.len()
        invariant
            i <= services@.len(),
            forall|id: Seq<char>| #[trigger]
                states@.dom().contains(id) <==> config::service_position(
                    services@.take(i as int),
                    id,
                ) is Some,
            forall|id: Seq<char>| #[trigger]
                states@.dom().contains(id) ==> states@[id].is_initial(),
        decreases services.len() - i,
    {
        assert(services@.take(i + 1).drop_last() =~= services@.take(i as int));
        states.insert(services[i].id.clone(), RecoveryState::initial());
        i = i + 1;
    }
    assert(services@.take(i as int) =~= services@);
    Ok(states)
}

/// How a restart command ended.
#[derive(Debug)]
pub enum CommandEnd {
    /// It could not be started, for this reason.
    NotSpawned(String),
    /// It exited, well or not, with this code where it has one.
    Exited { success: bool, code: Option<i32> },
    /// Its end could not be awaited, for this reason.
    NotAwaited(String),
    /// It did not end in time.
    TimedOut,
}

/// Whether `outcome` is what a restart command that ended so comes to.
pub open spec fn is_outcome(command: Seq<char>, end: CommandEnd, outcome: RestartOutcome) -> bool {
    match end {
        CommandEnd::NotSpawned(detail) => outcome matches RestartOutcome::SpawnError(reason)
            && reason@ == "Failed to spawn 'sh -c "@ + command + "': "@ + detail@,
        CommandEnd::Exited { success, code } => if success {
            outcome is Succeeded
        } else {
            outcome matches RestartOutcome::Failed(reason) && reason@ == "Exited with status: "@
                + text::signed_decimal(
                match code {
                    Some(n) => n as int,
                    None => -1,
                },
            )
        },
        CommandEnd::NotAwaited(detail) => outcome matches RestartOutcome::SpawnError(reason)
            && reason@ == "Wait error: "@ + detail@,
        CommandEnd::TimedOut => outcome is TimedOut,
    }
}

/// What the end of a restart command comes to.
pub fn execute_restart_command(command: &str, end: CommandEnd) -> (outcome: RestartOutcome)
    ensures
        is_outcome(command@, end, outcome),
{
    match end {
        CommandEnd::NotSpawned(detail) => RestartOutcome::SpawnError(
            String::from_str("Failed to spawn 'sh -c ").concat(command).concat("': ").concat(
                detail.as_str(),
            ),
        ),
        CommandEnd::Exited { success, code } => {
            if success {
                RestartOutcome::Succeeded
            } else {
                let number: i32 = match code {
                    Some(n) => n,
                    None => -1,
                };
                RestartOutcome::Failed(
                    String::from_str("Exited with status: ").concat(
                        text::signed_decimal_text(number).as_str(),
                    ),
                )
            }
        },
        CommandEnd::NotAwaited(detail) => RestartOutcome::SpawnError(
            String::from_str("Wait error: ").concat(detail.as_str()),
        ),
        CommandEnd::TimedOut => RestartOutcome::TimedOut,
    }
}

/// No restart begins while another one of the same service is running.
pub proof fn lemma_restarts_never_overlap(
    svc: ServiceConfig,
    before: RecoveryState,
    docker_available: bool,
    now: Timestamp,
    action: RecoveryAction,
    after: RecoveryState,
)
    requires
        is_handled(svc, before, docker_available, now, action, after),
    ensures
        before.restart_in_progress ==> !(action is Restart) && after == before,
        action is Restart ==> after.restart_in_progress,
{
}

/// A service without a means of restart is never restarted, and a restart is
/// always the one that the service itself configures.
pub proof fn lemma_only_configured_restarts(
    svc: ServiceConfig,
    before: RecoveryState,
    docker_available: bool,
    now: Timestamp,
    action: RecoveryAction,
    after: RecoveryState,
)
    requires
        is_handled(svc, before, docker_available, now, action, after),
    ensures
        config::effective_restart(svc).mode == RestartMode::MonitorOnly ==> action
            is NotRestartable && after == before,
        action matches RecoveryAction::Restart { plan, .. } ==> plan_of(svc) == Some(plan) && (
        needs_docker(plan) ==> docker_available),
{
}

/// Once the engine has given up on a service it stays so: it neither restarts
/// the service nor reports it again.
pub proof fn lemma_gives_up_once(
    svc: ServiceConfig,
    first: RecoveryState,
    docker_available: bool,
    at: Timestamp,
    action: RecoveryAction,
    second: RecoveryState,
    later_docker: bool,
    later_at: Timestamp,
    later_action: RecoveryAction,
    third: RecoveryState,
)
    requires
        svc.max_restarts < u32::MAX,
        is_handled(svc, first, docker_available, at, action, second),
        action is GiveUp,
        is_handled(svc, second, later_docker, later_at, later_action, third),
    ensures
        third == second,
        later_action is GivenUp || later_action is DockerUnavailable,
{
}

/// After a restart the next one has to wait for the whole of the longer wait.
pub proof fn lemma_waits_after_a_restart(
    svc: ServiceConfig,
    running: RecoveryState,
    ended: Timestamp,
    docker_available: bool,
    now: Timestamp,
    action: RecoveryAction,
    after: RecoveryState,
)
    requires
        is_handled(
            svc,
            after_restart(running, ended),
            docker_available,
            now,
            action,
            after,
        ),
        action is Restart,
    ensures
        clock::elapsed(ended, now) >= models::next_backoff(
            running.current_backoff as int,
            running.current_episode_attempts as int,
        ),
{
    models::lemma_backoff_is_bounded(
        running.current_backoff as int,
        running.current_episode_attempts as int,
    );
}

/// What is done about one service leaves the recovery of every other service
/// as it is.
pub proof fn lemma_services_recover_apart(
    service_id: Seq<char>,
    status: ServiceStatus,
    services: Seq<ServiceConfig>,
    before: Map<Seq<char>, RecoveryState>,
    docker_available: bool,
    now: Timestamp,
    action: RecoveryAction,
    after: Map<Seq<char>, RecoveryState>,
    other: Seq<char>,
)
    requires
        is_scanned(
            service_id,
            status,
            services,
            before,
            docker_available,
            now,
            action,
            after,
        ),
        other != service_id,
    ensures
        after.dom().contains(other) == before.dom().contains(other),
        before.dom().contains(other) ==> after[other] == before[other],
{
    if after != before {
        assert(after.remove(service_id).dom().contains(other) == after.dom().contains(other));
        assert(before.remove(service_id).dom().contains(other) == before.dom().contains(other));
        if before.dom().contains(other) {
            assert(after.remove(service_id)[other] == after[other]);
            assert(before.remove(service_id)[other] == before[other]);
        }
    }
}

/// One step of an episode: a look at the failed service, or the end of a
/// restart.
pub enum EpisodeStep {
    Look { docker_available: bool, now: Timestamp, action: RecoveryAction },
    End { now: Timestamp },
}

/// Whether the steps lead from each state of `states` to the next one.
pub open spec fn is_episode(
    svc: ServiceConfig,
    states: Seq<RecoveryState>,
    steps: Seq<EpisodeStep>,
) -> bool {
    &&& states.len() == steps.len() + 1
    &&& forall|i: int|
        0 <= i < steps.len() ==> match #[trigger] steps[i] {
            EpisodeStep::Look { docker_available, now, action } => is_handled(
                svc,
                states[i],
                docker_available,
                now,
                action,
                states[i + 1],
            ),
            EpisodeStep::End { now } => states[i + 1] == after_restart(states[i], now),
        }
}

/// Whether a step begins a restart.
pub open spec fn begins_restart(step: EpisodeStep) -> bool {
    step matches EpisodeStep::Look { action, .. } && action is Restart
}

/// How many of the steps begin a restart.
pub open spec fn restarts(steps: Seq<EpisodeStep>) -> nat
    decreases steps.len(),
{
    if steps.len() == 0 {
        0
    } else {
        restarts(steps.drop_last()) + if begins_restart(steps.last()) {
            1nat
        } else {
            0nat
        }
    }
}

/// In a failure episode, however long it lasts and however its restarts end,
/// the service is restarted at most `max_restarts` times.
pub proof fn lemma_restarts_are_limited(
    svc: ServiceConfig,
    states: Seq<RecoveryState>,
    steps: Seq<EpisodeStep>,
)
    requires
        svc.max_restarts < u32::MAX,
        is_episode(svc, states, steps),
        states[0].is_initial(),
    ensures
        restarts(steps) <= svc.max_restarts,
        restarts(steps) <= states.last().current_episode_attempts <= svc.max_restarts + 1,
    decreases steps.len(),
{
    if steps.len() > 0 {
        let n = steps.len() - 1;
        let shorter = steps.drop_last();
        let fewer = states.drop_last();
        assert forall|i: int| 0 <= i < shorter.len() implies match #[trigger] shorter[i] {
            EpisodeStep::Look { docker_available, now, action } => is_handled(
                svc,
                fewer[i],
                docker_available,
                now,
                action,
                fewer[i + 1],
            ),
            EpisodeStep::End { now } => fewer[i + 1] == after_restart(fewer[i], now),
        } by {
            assert(shorter[i] == steps[i]);
            assert(fewer[i] == states[i]);
            assert(fewer[i + 1] == states[i + 1]);
        }
        lemma_restarts_are_limited(svc, fewer, shorter);
        assert(fewer.last() == states[n]);
        assert(steps.last() == steps[n]);
        assert(states.last() == states[n + 1]);
    }
}

/// Whether a service is the one that its id stands for, with its recovery kept
/// under that id.
pub open spec fn is_at(
    svc: ServiceConfig,
    services: Seq<ServiceConfig>,
    i: int,
    states: Map<Seq<char>, RecoveryState>,
) -> bool {
    &&& 0 <= i < services.len()
    &&& services[i] == svc
    &&& forall|j: int| i < j < services.len() ==> (#[trigger] services[j]).id@ != svc.id@
    &&& states.dom().contains(svc.id@)
}

/// Whether a restart is due: none is running, the limit is not reached, and
/// there is no wait or it is over.
pub open spec fn is_due(svc: ServiceConfig, state: RecoveryState, now: Timestamp) -> bool {
    &&& !state.restart_in_progress
    &&& state.current_episode_attempts < svc.max_restarts
    &&& state.backoff_started_at matches Some(start) ==> now@ - start@ >= state.current_backoff
        * 1_000_000_000
}

/// A restart of a failed service that is due begins, with the next number, and
/// is the one that the service asks for: a command is run, whether it stands
/// under `restart` or alone; a container is restarted in place, or recreated
/// where an image is named.
pub proof fn lemma_due_restart_begins(
    svc: ServiceConfig,
    services: Seq<ServiceConfig>,
    i: int,
    before: Map<Seq<char>, RecoveryState>,
    docker_available: bool,
    now: Timestamp,
    action: RecoveryAction,
    after: Map<Seq<char>, RecoveryState>,
)
    requires
        is_scanned(
            svc.id@,
            ServiceStatus::Failed,
            services,
            before,
            docker_available,
            now,
            action,
            after,
        ),
        is_at(svc, services, i, before),
        is_due(svc, before[svc.id@], now),
    ensures
        svc.restart matches Some(restart) ==> match restart.mode {
            RestartMode::Manual => restart.command matches Some(command) ==> action matches
                RecoveryAction::Restart { plan, .. } && plan == RestartPlan::RunCommand(command),
            RestartMode::Docker => restart.docker matches Some(docker) ==> if !docker_available {
                action is DockerUnavailable
            } else {
                action matches RecoveryAction::Restart { plan, .. } && match docker.image {
                    None => plan == RestartPlan::RestartContainer(docker.container),
                    Some(image) => plan == (RestartPlan::RepullContainer {
                        container: docker.container,
                        image,
                    }),
                }
            },
            RestartMode::MonitorOnly => action is NotRestartable,
        },
        svc.restart is None ==> match svc.command {
            Some(command) => action matches RecoveryAction::Restart { plan, .. } && plan
                == RestartPlan::RunCommand(command),
            None => action is NotRestartable,
        },
        action matches RecoveryAction::Restart { attempt_number, .. } ==> {
            let old_state = before[svc.id@];
            let new_state = after[svc.id@];
            &&& attempt_number == old_state.current_episode_attempts + 1
            &&& new_state.current_episode_attempts == attempt_number
            &&& new_state.restart_in_progress
            &&& new_state.backoff_started_at == Some(now)
            &&& new_state.current_backoff == old_state.current_backoff
        },
        !(action is Restart) ==> after[svc.id@] == before[svc.id@],
{
    config::lemma_service_position_is_the_last(services, svc.id@, i);
    let state = before[svc.id@];
    if let Some(start) = state.backoff_started_at {
        clock::lemma_elapsed_counts_whole_seconds(start, now);
        assert(clock::elapsed(start, now) >= state.current_backoff) by (nonlinear_arith)
            requires
                now@ - start@ >= state.current_backoff * 1_000_000_000,
                now@ - start@ < (clock::elapsed(start, now) + 1) * 1_000_000_000,
        ;
    }
}

/// What is done about a failed service that can be restarted where no restart is
/// due: nothing while one is running; giving up, once, where the limit is just
/// reached; nothing after that; and waiting while the wait is not over.
pub proof fn lemma_restart_that_is_not_due(
    svc: ServiceConfig,
    services: Seq<ServiceConfig>,
    i: int,
    before: Map<Seq<char>, RecoveryState>,
    now: Timestamp,
    action: RecoveryAction,
    after: Map<Seq<char>, RecoveryState>,
)
    requires
        is_scanned(svc.id@, ServiceStatus::Failed, services, before, true, now, action, after),
        is_at(svc, services, i, before),
        svc.max_restarts < u32::MAX,
        ({
            ||| svc.restart is None && svc.command is Some
            ||| svc.restart matches Some(restart) && restart.mode == RestartMode::Manual
                && restart.command is Some
            ||| svc.restart matches Some(restart) && restart.mode == RestartMode::Docker
                && restart.docker is Some
        }),
    ensures
        ({
            let state = before[svc.id@];
            let attempts = state.current_episode_attempts;
            &&& state.restart_in_progress ==> action is InProgress && after[svc.id@] == state
            &&& !state.restart_in_progress && attempts == svc.max_restarts ==> {
                &&& action matches RecoveryAction::GiveUp(event) && event.service_id@ == svc.id@
                    && event.service_name@ == svc.name@ && event.previous_status
                    == ServiceStatus::Failed && event.new_status == ServiceStatus::Failed
                    && event.timestamp == now && event.message@ == "CRITICAL: Service '"@ + svc.name@
                    + "' has exceeded max_restarts ("@ + text::decimal(svc.max_restarts as nat)
                    + ") with no recovery. Manual intervention required."@
                &&& after[svc.id@].current_episode_attempts == svc.max_restarts + 1
                &&& after[svc.id@].restart_in_progress == false
                &&& after[svc.id@].backoff_started_at == state.backoff_started_at
                &&& after[svc.id@].current_backoff == state.current_backoff
            }
            &&& !state.restart_in_progress && attempts > svc.max_restarts ==> action is GivenUp
                && after[svc.id@] == state
            &&& !state.restart_in_progress && attempts < svc.max_restarts && (
            state.backoff_started_at matches Some(start) && 0 <= now@ - start@
                < state.current_backoff * 1_000_000_000) ==> {
                &&& action matches RecoveryAction::BackingOff { elapsed, required } && required
                    == state.current_backoff && elapsed * 1_000_000_000 <= now@
                    - state.backoff_started_at->0@ < (elapsed + 1) * 1_000_000_000
                &&& after[svc.id@] == state
            }
        }),
{
    config::lemma_service_position_is_the_last(services, svc.id@, i);
    let state = before[svc.id@];
    if let Some(start) = state.backoff_started_at {
        clock::lemma_elapsed_counts_whole_seconds(start, now);
        if 0 <= now@ - start@ < state.current_backoff * 1_000_000_000 {
            assert(clock::elapsed(start, now) < state.current_backoff) by (nonlinear_arith)
                requires
                    now@ - start@ < state.current_backoff * 1_000_000_000,
                    clock::elapsed(start, now) * 1_000_000_000 <= now@ - start@,
            ;
        }
    }
}

/// A service that has not failed is not restarted: a recovery that is over is
/// forgotten, and otherwise nothing changes. Of a service that is not in the
/// configuration nothing is kept or done.
pub proof fn lemma_only_failed_services_are_restarted(
    service_id: Seq<char>,
    status: ServiceStatus,
    services: Seq<ServiceConfig>,
    before: Map<Seq<char>, RecoveryState>,
    docker_available: bool,
    now: Timestamp,
    action: RecoveryAction,
    after: Map<Seq<char>, RecoveryState>,
)
    requires
        is_scanned(service_id, status, services, before, docker_available, now, action, after),
    ensures
        (forall|j: int| 0 <= j < services.len() ==> (#[trigger] services[j]).id@ != service_id)
            ==> action is UnknownService && after == before,
        status != ServiceStatus::Failed ==> !(action is Restart) && !(action is GiveUp),
        (exists|j: int| 0 <= j < services.len() && (#[trigger] services[j]).id@ == service_id) ==> {
            &&& status == ServiceStatus::Degraded ==> action is Watch && after == before
            &&& (status == ServiceStatus::Healthy || status == ServiceStatus::Unknown) ==> if before.dom().contains(
            service_id) && before[service_id].current_episode_attempts > 0 {
                &&& action matches RecoveryAction::Recovered { attempts } && attempts
                    == before[service_id].current_episode_attempts
                &&& after.dom().contains(service_id)
                &&& after[service_id].current_episode_attempts == 0
                &&& !after[service_id].restart_in_progress
                &&& after[service_id].backoff_started_at is None
                &&& after[service_id].current_backoff == 5
            } else {
                action is Idle && after == before
            }
        },
{
    config::lemma_service_position(services, service_id);
}

/// Completing a service does not change how it is restarted.
pub proof fn lemma_completion_keeps_the_restart(before: ServiceConfig, after: ServiceConfig)
    requires
        config::completed(before, after),
    ensures
        plan_of(after) == plan_of(before),
        before.restart is None && before.command is Some ==> plan_of(after) == Some(
            RestartPlan::RunCommand(before.command->0),
        ),
        before.restart matches Some(restart) && restart.mode == RestartMode::Manual
            && restart.command is Some ==> plan_of(after) == Some(
            RestartPlan::RunCommand(before.restart->0.command->0),
        ),
{
}

/// When a restart has ended the next one may begin, after a wait from now on
/// that is at least twice the last one, or five minutes; the attempt stays
/// counted.
pub proof fn lemma_end_of_a_restart(running: RecoveryState, now: Timestamp)
    ensures
        ({
            let after = after_restart(running, now);
            &&& !after.restart_in_progress
            &&& after.current_episode_attempts == running.current_episode_attempts
            &&& after.backoff_started_at == Some(now)
            &&& running.current_backoff <= 150 ==> after.current_backoff >= 2
                * running.current_backoff
            &&& running.current_backoff > 150 ==> 360 <= after.current_backoff <= 362
        }),
{
    models::lemma_backoff_is_bounded(
        running.current_backoff as int,
        running.current_episode_attempts as int,
    );
    models::lemma_backoff_in_numbers(
        running.current_backoff as int,
        running.current_episode_attempts as int,
    );
}

/// A restart command succeeds exactly where it exits with success; the other
/// ends are told apart, with the words that explain them.
pub proof fn lemma_outcome_of_a_command(
    command: Seq<char>,
    end: CommandEnd,
    outcome: RestartOutcome,
)
    requires
        is_outcome(command, end, outcome),
    ensures
        outcome is Succeeded <==> (end matches CommandEnd::Exited { success, .. } && success),
        outcome is TimedOut <==> end is TimedOut,
        end matches CommandEnd::NotSpawned(detail) ==> outcome matches RestartOutcome::SpawnError(
            reason,
        ) && reason@ == "Failed to spawn 'sh -c "@ + command + "': "@ + detail@,
        end matches CommandEnd::NotAwaited(detail) ==> outcome matches RestartOutcome::SpawnError(
            reason,
        ) && reason@ == "Wait error: "@ + detail@,
        end matches CommandEnd::Exited { success, code } ==> !success ==> (outcome matches
            RestartOutcome::Failed(reason) && reason@ == "Exited with status: "@ + (match code {
            Some(n) => if n < 0 {
                "-"@ + text::decimal((-n) as nat)
            } else {
                text::decimal(n as nat)
            },
            None => "-"@ + text::decimal(1),
        })),
{
}

} // verus!
