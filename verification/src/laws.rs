//! What the operations are for, stated of the functions themselves: whatever a
//! call of one of them returns or leaves behind satisfies the law.

use vstd::prelude::*;
use vstd::utf8::*;

use crate::alert;
use crate::alert::{AlertPlan, Delivery, Dispatch, RateLimitEntry};
use crate::api;
use crate::api::Answer;
use crate::api::Route;
use crate::clock::Timestamp;
use crate::config;
use crate::docker_engine;
use crate::docker_engine::{ContainerState, RepullProgress, RepullStep, Successor};
use crate::error;
use crate::error::VelaError;
use crate::health;
use crate::health::{CheckEvent, CheckStep, HttpEnd, Probe, TcpEnd};
use crate::models;
use crate::models::{
    AlertKind, AlertRecord, AlertTargetConfig, ApiResponse, HealthCheckConfig, HealthCheckKind,
    HealthRecord, ProxyBinding, RecoveryState, RestartMode, RestartOutcome, RestartRecord,
    ServiceConfig, ServiceStatus, ServiceSummary, StatusChangeEvent, UpstreamConfig, UpstreamState,
    VelaConfig, VelaStatusResponse,
};
use crate::proxy;
use crate::proxy::{ConnectionPlan, ListenerAction, ListenerEvent, ListenerState};
use crate::recovery;
use crate::recovery::{CommandEnd, RecoveryAction, RestartPlan};
use crate::sorting;
use crate::sorting::Keyed;
use crate::state;
use crate::state::VelaState;
use crate::table::Table;
use crate::text;
use crate::unicode;
use crate::vela_ctl;

verus! {

// ---------------------------------------------------------------------------
// Recovery.
// ---------------------------------------------------------------------------

/// Whether this is how a service is restarted: by its command, in place, or from
/// a pulled image.
pub open spec fn restarts_as_configured(svc: ServiceConfig, plan: RestartPlan) -> bool {
    match svc.restart {
        None => svc.command is Some && plan == RestartPlan::RunCommand(svc.command->0),
        Some(restart) => match restart.mode {
            RestartMode::Manual => restart.command is Some && plan == RestartPlan::RunCommand(
                restart.command->0,
            ),
            RestartMode::Docker => restart.docker is Some && match restart.docker->0.image {
                None => plan == RestartPlan::RestartContainer(restart.docker->0.container),
                Some(image) => plan == (RestartPlan::RepullContainer {
                    container: restart.docker->0.container,
                    image,
                }),
            },
            RestartMode::MonitorOnly => false,
        },
    }
}

/// Whether a service says how it is restarted.
pub open spec fn can_be_restarted(svc: ServiceConfig) -> bool {
    match svc.restart {
        None => svc.command is Some,
        Some(restart) => match restart.mode {
            RestartMode::Manual => restart.command is Some,
            RestartMode::Docker => restart.docker is Some,
            RestartMode::MonitorOnly => false,
        },
    }
}

/// A look at a failed service begins the restart that the service asks for where
/// one is due, and counts it. A service that says nothing of restarts is never
/// restarted.
pub proof fn law_failed_services_are_restarted(
    id: &str,
    services: &Vec<ServiceConfig>,
    i: int,
    states: &mut Table<RecoveryState>,
    now: Timestamp,
    action: RecoveryAction,
)
    requires
        call_ensures(
            recovery::scan_and_recover,
            (id, ServiceStatus::Failed, services, states, true, now),
            action,
        ),
        recovery::is_at(services@[i], services@, i, old(states)@),
        services@[i].id@ == id@,
    ensures
        ({
            let svc = services@[i];
            let before = old(states)@[id@];
            let after = final(states)@[id@];
            &&& can_be_restarted(svc) && recovery::is_due(svc, before, now) ==> {
                &&& action matches RecoveryAction::Restart { attempt_number, plan }
                    && restarts_as_configured(svc, plan) && attempt_number
                    == before.current_episode_attempts + 1
                &&& after.restart_in_progress
                &&& after.current_episode_attempts == before.current_episode_attempts + 1
                &&& after.backoff_started_at == Some(now)
            }
            &&& !can_be_restarted(svc) ==> action is NotRestartable && after == before
        }),
{
    config::lemma_service_position_is_the_last(services@, id@, i);
    if recovery::is_due(services@[i], old(states)@[id@], now) {
        recovery::lemma_due_restart_begins(
            services@[i],
            services@,
            i,
            old(states)@,
            true,
            now,
            action,
            final(states)@,
        );
    }
}

/// While a restart runs, while the wait lasts and after the limit there is no
/// restart; at the limit the operators are told, once.
pub proof fn law_restarts_have_to_be_due(
    id: &str,
    services: &Vec<ServiceConfig>,
    i: int,
    states: &mut Table<RecoveryState>,
    now: Timestamp,
    action: RecoveryAction,
)
    requires
        call_ensures(
            recovery::scan_and_recover,
            (id, ServiceStatus::Failed, services, states, true, now),
            action,
        ),
        recovery::is_at(services@[i], services@, i, old(states)@),
        services@[i].id@ == id@,
        services@[i].max_restarts < u32::MAX,
        can_be_restarted(services@[i]),
    ensures
        ({
            let svc = services@[i];
            let before = old(states)@[id@];
            let after = final(states)@[id@];
            &&& before.restart_in_progress ==> action is InProgress && after == before
            &&& !before.restart_in_progress && before.current_episode_attempts == svc.max_restarts
                ==> (action matches RecoveryAction::GiveUp(event) && event.service_id@ == id@
                && event.new_status == ServiceStatus::Failed && event.timestamp == now)
                && after.current_episode_attempts == svc.max_restarts + 1
            &&& !before.restart_in_progress && before.current_episode_attempts > svc.max_restarts
                ==> action is GivenUp && after == before
            &&& !before.restart_in_progress && before.current_episode_attempts < svc.max_restarts
                && (before.backoff_started_at matches Some(start) && 0 <= now@ - start@
                < before.current_backoff * 1_000_000_000) ==> action is BackingOff && after
                == before
        }),
{
    recovery::lemma_restart_that_is_not_due(
        services@[i],
        services@,
        i,
        old(states)@,
        now,
        action,
        final(states)@,
    );
}

/// A look at a service that has not failed restarts nothing, and one at a service
/// that is healthy again forgets the failure episode.
pub proof fn law_only_failed_services_are_restarted(
    id: &str,
    status: ServiceStatus,
    services: &Vec<ServiceConfig>,
    states: &mut Table<RecoveryState>,
    docker_available: bool,
    now: Timestamp,
    action: RecoveryAction,
    other: Seq<char>,
)
    requires
        call_ensures(
            recovery::scan_and_recover,
            (id, status, services, states, docker_available, now),
            action,
        ),
    ensures
        status != ServiceStatus::Failed ==> !(action is Restart) && !(action is GiveUp),
        (status == ServiceStatus::Healthy || status == ServiceStatus::Unknown)
            && old(states)@.dom().contains(id@) && (exists|j: int|
            0 <= j < services@.len() && (#[trigger] services@[j]).id@ == id@)
                ==> final(states)@[id@].current_episode_attempts == 0,
        status == ServiceStatus::Degraded ==> final(states)@ == old(states)@,
        other != id@ && old(states)@.dom().contains(other) ==> final(states)@.dom().contains(other)
            && final(states)@[other] == old(states)@[other],
        ({
            let known = exists|j: int|
                0 <= j < services@.len() && (#[trigger] services@[j]).id@ == id@;
            let well = status == ServiceStatus::Healthy || status == ServiceStatus::Unknown;
            let tried = old(states)@.dom().contains(id@) && old(
                states)@[id@].current_episode_attempts > 0;
            &&& !known <==> action is UnknownService
            &&& known && well && tried ==> action == (RecoveryAction::Recovered {
                attempts: old(states)@[id@].current_episode_attempts,
            })
            &&& known && well && !tried ==> action is Idle
            &&& known && status == ServiceStatus::Degraded ==> action is Watch
            &&& known && !old(states)@.dom().contains(id@) ==> !(action is Restart) && final(
                states)@ == old(states)@
        }),
{
    recovery::lemma_only_failed_services_are_restarted(
        id@,
        status,
        services@,
        old(states)@,
        docker_available,
        now,
        action,
        final(states)@,
    );
    config::lemma_service_position(services@, id@);
    if other != id@ {
        recovery::lemma_services_recover_apart(
            id@,
            status,
            services@,
            old(states)@,
            docker_available,
            now,
            action,
            final(states)@,
            other,
        );
    }
}

/// Deciding about a failed service by itself comes to the same.
pub proof fn law_failed_service_is_handled(
    svc: &ServiceConfig,
    recovery_state: &mut RecoveryState,
    docker_available: bool,
    now: Timestamp,
    action: RecoveryAction,
)
    requires
        call_ensures(
            recovery::handle_failed_service,
            (svc, recovery_state, docker_available, now),
            action,
        ),
    ensures
        action matches RecoveryAction::Restart { attempt_number, plan } ==> {
            &&& restarts_as_configured(*svc, plan)
            &&& !(plan is RunCommand) ==> docker_available
            &&& !old(recovery_state).restart_in_progress
            &&& old(recovery_state).current_episode_attempts < svc.max_restarts
            &&& attempt_number == old(recovery_state).current_episode_attempts + 1
            &&& final(recovery_state).current_episode_attempts == attempt_number
            &&& final(recovery_state).restart_in_progress
        },
        can_be_restarted(*svc) && docker_available && !old(recovery_state).restart_in_progress
            && old(recovery_state).current_episode_attempts < svc.max_restarts
                && old(recovery_state).backoff_started_at is None ==> action is Restart,
        !can_be_restarted(*svc) ==> action is NotRestartable,
        !(action is Restart) && !(action is GiveUp)
            ==> *final(recovery_state) == *old(recovery_state),
        ({
            let through_docker = svc.restart matches Some(restart) && restart.mode
                == RestartMode::Docker;
            let before = *old(recovery_state);
            let attempts = before.current_episode_attempts;
            let able = can_be_restarted(*svc) && (through_docker ==> docker_available);
            let free = able && !before.restart_in_progress;
            &&& can_be_restarted(*svc) && !able ==> action is DockerUnavailable
            &&& able && before.restart_in_progress ==> action is InProgress
            &&& free && attempts > svc.max_restarts ==> action is GivenUp
            &&& free && attempts == svc.max_restarts ==> (action matches RecoveryAction::GiveUp(
                event,
            ) && event.service_id@ == svc.id@ && event.service_name@ == svc.name@
                && event.previous_status == ServiceStatus::Failed && event.new_status
                == ServiceStatus::Failed && event.timestamp == now && event.message@
                == "CRITICAL: Service '"@ + svc.name@ + "' has exceeded max_restarts ("@
                + text::decimal(svc.max_restarts as nat)
                + ") with no recovery. Manual intervention required."@)
            &&& free && attempts < svc.max_restarts && (before.backoff_started_at matches Some(
                start,
            ) && 0 <= now@ - start@ < before.current_backoff * 1_000_000_000) ==> (action matches
                RecoveryAction::BackingOff { elapsed, required } && required
                == before.current_backoff && elapsed * 1_000_000_000 <= now@
                - before.backoff_started_at->0@ < (elapsed + 1) * 1_000_000_000)
            &&& free && attempts < svc.max_restarts && (before.backoff_started_at matches Some(
                start,
            ) && now@ - start@ >= before.current_backoff * 1_000_000_000) ==> action is Restart
        }),
{
    let before = *old(recovery_state);
    if let Some(start) = before.backoff_started_at {
        crate::clock::lemma_elapsed_counts_whole_seconds(start, now);
        let elapsed = crate::clock::elapsed(start, now);
        if 0 <= now@ - start@ < before.current_backoff * 1_000_000_000 {
            assert(elapsed < before.current_backoff) by (nonlinear_arith)
                requires
                    now@ - start@ < before.current_backoff * 1_000_000_000,
                    elapsed * 1_000_000_000 <= now@ - start@,
            ;
        }
        if now@ - start@ >= before.current_backoff * 1_000_000_000 {
            assert(elapsed >= before.current_backoff) by (nonlinear_arith)
                requires
                    now@ - start@ >= before.current_backoff * 1_000_000_000,
                    now@ - start@ < (elapsed + 1) * 1_000_000_000,
            ;
        }
    }
}

/// When a restart has ended, well or not, another one may begin after a longer
/// wait from then on.
pub proof fn law_end_of_a_restart(
    recovery_state: &mut RecoveryState,
    states: &mut Table<RecoveryState>,
    id: &str,
    now: Timestamp,
)
    requires
        call_ensures(recovery::finish_restart, (recovery_state, now), ()),
        call_ensures(recovery::finish_recovery, (states, id, now), ()),
        old(states)@.dom().contains(id@),
    ensures
        !final(recovery_state).restart_in_progress,
        final(recovery_state).current_episode_attempts
            == old(recovery_state).current_episode_attempts,
        final(recovery_state).backoff_started_at == Some(now),
        old(recovery_state).current_backoff <= 150 ==> final(recovery_state).current_backoff >= 2
            * old(recovery_state).current_backoff,
        old(recovery_state).current_backoff > 150 ==> 360 <= final(recovery_state).current_backoff
            <= 362,
        !final(states)@[id@].restart_in_progress,
        final(states)@[id@].backoff_started_at == Some(now),
        final(states)@[id@].current_episode_attempts == old(states)@[id@].current_episode_attempts,
        forall|other: Seq<char>|
            other != id@ && #[trigger] old(states)@.dom().contains(other) ==> final(states)@[other]
                == old(states)@[other],
{
    recovery::lemma_end_of_a_restart(*old(recovery_state), now);
    recovery::lemma_end_of_a_restart(old(states)@[id@], now);
}

/// The record of a restart says of which service, when, with which number, and
/// whether it succeeded.
pub proof fn law_restart_record(
    id: &str,
    at: Timestamp,
    outcome: &RestartOutcome,
    number: u32,
    record: RestartRecord,
)
    requires
        call_ensures(recovery::restart_record, (id, at, outcome, number), record),
    ensures
        record.service_id@ == id@,
        record.attempted_at == at,
        record.attempt_number == number,
        record.succeeded <==> *outcome == RestartOutcome::Succeeded,
{
}

/// At first every service of the configuration, and no other, has a recovery in
/// which nothing has happened.
pub proof fn law_initial_states(
    services: &Vec<ServiceConfig>,
    result: Result<Table<RecoveryState>, VelaError>,
    i: int,
    other: Seq<char>,
)
    requires
        call_ensures(recovery::initial_states, (services,), result),
        forall|j: int| 0 <= j < services@.len() ==> (#[trigger] services@[j]).id@ != other,
    ensures
        result is Err <==> services@.len() == 0,
        result matches Ok(states) ==> !states@.dom().contains(other) && (0 <= i < services@.len()
            ==> states@.dom().contains(services@[i].id@)
                && states@[services@[i].id@].current_episode_attempts
            == 0 && !states@[services@[i].id@].restart_in_progress
            && states@[services@[i].id@].backoff_started_at is None),
{
    config::lemma_service_position(services@, other);
    if let Ok(states) = result {
        assert(config::service_position(services@, other) is None);
        assert(!states@.dom().contains(other));
        if 0 <= i < services@.len() {
            config::lemma_service_position(services@, services@[i].id@);
            assert(states@.dom().contains(services@[i].id@));
            assert(states@[services@[i].id@].is_initial());
        }
    }
}

/// A restart command succeeds exactly where it exits with success.
pub proof fn law_restart_command(command: &str, end: CommandEnd, outcome: RestartOutcome)
    requires
        call_ensures(recovery::execute_restart_command, (command, end), outcome),
    ensures
        outcome is Succeeded <==> (end matches CommandEnd::Exited { success, .. } && success),
        outcome is TimedOut <==> end is TimedOut,
        outcome is SpawnError <==> end is NotSpawned || end is NotAwaited,
{
    recovery::lemma_outcome_of_a_command(command@, end, outcome);
}

// ---------------------------------------------------------------------------
// Proxy.
// ---------------------------------------------------------------------------

/// Every service with a proxy gets its binding, and nothing else does.
pub proof fn law_every_proxy_is_bound(config: &VelaConfig, bindings: Vec<ProxyBinding>)
    requires
        call_ensures(proxy::build_proxy_bindings, (config,), bindings),
    ensures
        bindings@.len() == Set::new(
            |i: int| 0 <= i < config.services@.len() && config.services@[i].proxy is Some,
        ).len(),
        forall|i: int|
            0 <= i < config.services@.len() && (#[trigger] config.services@[i]).proxy is Some
                ==> exists|k: int|
                0 <= k < bindings@.len() && proxy::serves(
                    #[trigger] bindings@[k],
                    config.services@[i],
                ),
{
    proxy::lemma_every_proxy_is_bound(bindings@, config.services@);
}

/// The ports are accepted exactly where each proxy can have its own.
pub proof fn law_proxy_ports(config: &VelaConfig, result: Result<(), VelaError>)
    requires
        call_ensures(proxy::validate_proxy_config, (config,), result),
    ensures
        result is Ok <==> {
            &&& forall|i: int|
                0 <= i < config.services@.len() && (#[trigger] config.services@[i]).proxy is Some
                    ==> {
                    let port = config.services@[i].proxy->0.listen_port;
                    &&& port != 0
                    &&& port != config.global.api_port
                    &&& config.services@[i].port != Some(port)
                    &&& forall|k: int|
                        0 <= k < config.services@[i].upstreams@.len() ==> (
                        #[trigger] config.services@[i].upstreams@[k]).port != port
                }
            &&& forall|i: int, j: int|
                0 <= i < j < config.services@.len() && (#[trigger] config.services@[i]).proxy
                    is Some && (#[trigger] config.services@[j]).proxy is Some
                    ==> config.services@[i].proxy->0.listen_port
                    != config.services@[j].proxy->0.listen_port
        },
        result matches Err(e) ==> e is ProxyPortConflict,
{
    proxy::lemma_port_validity_in_full(config.services@, config.global.api_port);
}

/// A connection is forwarded to a healthy instance where there is one, and else
/// rejected.
pub proof fn law_connections_go_to_healthy_instances(
    store: &VelaState,
    binding: &ProxyBinding,
    turn: usize,
    plan: ConnectionPlan,
)
    requires
        call_ensures(proxy::handle_connection, (store, binding, turn), plan),
        store.inner.upstream_states@.dom().contains(binding.service_id@),
    ensures
        ({
            let upstreams = store.inner.upstream_states@[binding.service_id@]@;
            &&& plan is Reject <==> forall|i: int|
                0 <= i < upstreams.len() ==> (#[trigger] upstreams[i]).status
                    != ServiceStatus::Healthy
            &&& plan matches ConnectionPlan::Forward(to) ==> exists|i: int|
                0 <= i < upstreams.len() && (#[trigger] upstreams[i]).status
                    == ServiceStatus::Healthy && to@ == upstreams[i].host@ + ":"@ + text::decimal(
                    upstreams[i].port as nat,
                )
        }),
{
    proxy::lemma_connection_goes_to_a_healthy_instance(*store, *binding, turn as int, plan);
}

/// In as many turns in a row as a service has instances, each healthy one of them
/// gets a connection.
pub proof fn law_connections_take_turns(
    store: &VelaState,
    binding: &ProxyBinding,
    i: int,
    first_turn: usize,
) -> (turn: int)
    requires
        store.inner.upstream_states@.dom().contains(binding.service_id@),
        0 <= i < store.inner.upstream_states@[binding.service_id@]@.len(),
        store.inner.upstream_states@[binding.service_id@]@[i].status == ServiceStatus::Healthy,
        first_turn + store.inner.upstream_states@[binding.service_id@]@.len() <= usize::MAX,
    ensures
        first_turn <= turn < first_turn
            + store.inner.upstream_states@[binding.service_id@]@.len(),
        forall|plan: ConnectionPlan| #[trigger]
            call_ensures(proxy::handle_connection, (store, binding, turn as usize), plan) ==> (plan
                matches ConnectionPlan::Forward(to) && to@
                == store.inner.upstream_states@[binding.service_id@]@[i].host@ + ":"@
                + text::decimal(
                store.inner.upstream_states@[binding.service_id@]@[i].port as nat,
            )),
{
    proxy::lemma_connections_take_turns(*store, *binding, i, first_turn as int)
}

/// Where the instances are not known, the health of the service decides.
pub proof fn law_connections_without_instances(
    store: &VelaState,
    binding: &ProxyBinding,
    turn: usize,
    plan: ConnectionPlan,
    healthy: bool,
    id: &str,
)
    requires
        call_ensures(proxy::handle_connection, (store, binding, turn), plan),
        call_ensures(proxy::is_upstream_healthy, (store, id), healthy),
    ensures
        healthy <==> store.inner.services@.dom().contains(id@) && store.inner.services@[id@].status
            == ServiceStatus::Healthy,
        !store.inner.upstream_states@.dom().contains(binding.service_id@) && id@
            == binding.service_id@ ==> {
            &&& plan is Reject <==> !healthy || binding.upstream_addrs@.len() == 0
            &&& plan matches ConnectionPlan::Forward(to) ==> to@
                == binding.upstream_addrs@[turn as int % binding.upstream_addrs@.len() as int]@
        },
{
    proxy::lemma_health_of_a_service(*store, id@);
    if !store.inner.upstream_states@.dom().contains(binding.service_id@) {
        proxy::lemma_connection_without_instances(*store, *binding, turn as int, plan);
    }
}

/// A listener serves clients by turns while it has room, turns them away while it
/// has none or is told to stop, and ends when its last connection has.
pub proof fn law_listener(
    listener: &mut ListenerState,
    event: ListenerEvent,
    action: ListenerAction,
)
    requires
        call_ensures(proxy::run_listener, (listener, event), action),
        event == ListenerEvent::Finished ==> old(listener).active > 0,
        old(listener).active <= 1024,
    ensures
        final(listener).active <= 1024,
        action is Serve <==> event == ListenerEvent::Accepted && !old(listener).draining
            && old(listener).active < 1024,
        action matches ListenerAction::Serve(turn)
            ==> turn == old(listener).turn && final(listener).turn != turn
            && final(listener).active == old(listener).active + 1,
        action is Serve && old(listener).turn < usize::MAX ==> final(listener).turn
            == old(listener).turn + 1,
        !(action is Serve) ==> final(listener).turn == old(listener).turn,
        action is TurnAway <==> event == ListenerEvent::Accepted
            && (old(listener).draining || old(listener).active >= 1024),
        action is Stop ==> final(listener).draining && final(listener).active == 0,
        event == ListenerEvent::ShutDown
            ==> final(listener).draining && (action is Stop <==> old(listener).active == 0),
        event == ListenerEvent::Finished ==> final(listener).active == old(listener).active - 1 && (
        action is Stop <==> old(listener).draining && old(listener).active == 1),
        event == ListenerEvent::AcceptFailed ==> *final(listener) == *old(listener),
        old(listener).draining ==> final(listener).draining,
{
    proxy::lemma_listener_in_full(*old(listener), event);
}

/// The error for a port that cannot be had names that port.
pub proof fn law_bind_error(host: Seq<char>, port: u16, addr: &str, detail: &str, e: VelaError)
    requires
        call_ensures(proxy::bind_error, (addr, detail), e),
        addr@ == host + ":"@ + text::decimal(port as nat),
    ensures
        e matches VelaError::ProxyBindError { port: named, reason } && named == port && reason@
            == detail@,
{
    proxy::lemma_address_in_full(host, port);
}

// ---------------------------------------------------------------------------
// Alerts.
// ---------------------------------------------------------------------------

/// An event is noise exactly where the status stays what it was and is no failure.
pub proof fn law_noise(event: &StatusChangeEvent, result: bool)
    requires
        call_ensures(alert::should_suppress_event, (event,), result),
    ensures
        event.previous_status != event.new_status ==> !result,
        event.new_status == ServiceStatus::Failed ==> !result,
        event.previous_status == event.new_status && event.new_status != ServiceStatus::Failed
            ==> result,
{
}

/// News of a service that is in the configuration goes out to every destination
/// in use unless the cooldown holds it back; noise never does.
pub proof fn law_news_is_sent(
    event: &StatusChangeEvent,
    services: &Vec<ServiceConfig>,
    i: int,
    limits: &mut Table<RateLimitEntry>,
    now: Timestamp,
    plan: AlertPlan,
)
    requires
        call_ensures(alert::handle_event_at, (event, services, limits, now), plan),
        0 <= i < services@.len(),
        services@[i].id@ == event.service_id@,
        forall|j: int|
            i < j < services@.len() ==> (#[trigger] services@[j]).id@ != event.service_id@,
        old(limits)@.dom().contains(event.service_id@)
            ==> old(limits)@[event.service_id@].last_alert_at@ <= now@,
    ensures
        ({
            let id = event.service_id@;
            let before = old(limits)@;
            let news = event.previous_status != event.new_status || event.new_status
                == ServiceStatus::Failed;
            let held = before.dom().contains(id) && before[id].alerted_for_failure
                && event.new_status != ServiceStatus::Healthy && now@ - before[id].last_alert_at@
                < 60_000_000_000;
            let some = exists|k: int|
                0 <= k < services@[i].alerts@.len() && (
                #[trigger] services@[i].alerts@[k]).enabled;
            &&& plan is Suppressed <==> !news
            &&& plan is RateLimited <==> news && held
            &&& plan is Dispatch <==> news && !held && some
            &&& plan is NoTargets <==> news && !held && !some
            &&& plan matches AlertPlan::Dispatch(dispatch) ==> dispatch.event() == *event
                && dispatch.sent() == 0 && exists|positions: Seq<int>| #[trigger]
                alert::are_positions_in_use(positions, services@[i].alerts@) && positions.len()
                    == dispatch.targets().len() && forall|k: int|
                    0 <= k < positions.len() ==> dispatch.targets()[k]
                        == services@[i].alerts@[#[trigger] positions[k]]
            &&& !(plan is NoTargets) ==> final(limits)@ == before
            &&& plan is NoTargets
                ==> final(limits)@.dom().contains(id) && final(limits)@[id].last_alert_at == now
        }),
{
    alert::lemma_changes_are_no_noise(
        *event,
        services@,
        old(limits)@,
        now,
        plan,
        final(limits)@,
    );
    if event.previous_status != event.new_status || event.new_status == ServiceStatus::Failed {
        alert::lemma_news_is_sent(*event, services@, i, old(limits)@, now, plan, final(limits)@);
    }
}

/// The cooldown holds back what follows an alert about a failure for a minute,
/// but never a recovery.
pub proof fn law_cooldown(
    id: &str,
    alerted: &ServiceStatus,
    limits: &mut Table<RateLimitEntry>,
    at: Timestamp,
    later: &Table<RateLimitEntry>,
    new_status: &ServiceStatus,
    now: Timestamp,
    result: bool,
)
    requires
        call_ensures(alert::update_rate_limit_at, (id, alerted, limits, at), ()),
        call_ensures(alert::is_rate_limited_at, (id, new_status, later, now), result),
        at@ <= now@,
    ensures
        later@ == final(limits)@ ==> (result <==> (*alerted == ServiceStatus::Failed || *alerted
            == ServiceStatus::Degraded) && *new_status != ServiceStatus::Healthy && now@ - at@
            < 60_000_000_000),
        forall|other: Seq<char>|
            other != id@ && #[trigger] old(limits)@.dom().contains(other) ==> final(limits)@[other]
                == old(limits)@[other],
{
    if later@ == final(limits)@ {
        alert::lemma_cooldown_in_full(later@, id@, *new_status, now);
    }
}

/// A URL is judged by its scheme and host: HTTPS anywhere, HTTP on this machine
/// alone.
pub proof fn law_webhook_urls(
    parts: &Result<(String, Option<String>), String>,
    result: Result<(), String>,
)
    requires
        call_ensures(alert::validate_webhook_parts, (parts,), result),
    ensures
        result is Ok <==> (*parts matches Ok((scheme, host)) && (scheme@ == "https"@ || (scheme@
            == "http"@ && host is Some && (host->0@ == "localhost"@ || host->0@ == "127.0.0.1"@
            || host->0@ == "::1"@)))),
{
    alert::lemma_webhook_rule_in_full(alert::parts_view(*parts));
}

/// What a webhook is told, and where: the status change, at its trimmed URL; and
/// nothing where it has none, or one that may not be called.
pub proof fn law_webhook_delivery(
    event: &StatusChangeEvent,
    target: &AlertTargetConfig,
    parts: &Result<(String, Option<String>), String>,
    delivery: Delivery,
)
    requires
        call_ensures(alert::deliver_webhook_parts, (event, target, parts), delivery),
    ensures
        delivery is NoEndpoint <==> (target.endpoint is None || forall|k: int|
            0 <= k < target.endpoint->0@.len() ==> unicode::white_space(
                #[trigger] target.endpoint->0@[k],
            )),
        delivery matches Delivery::Post { endpoint, payload } ==> {
            &&& endpoint@ == unicode::trimmed(target.endpoint->0@)
            &&& *parts matches Ok((scheme, host)) && (scheme@ == "https"@ || (scheme@ == "http"@
                && host is Some && (host->0@ == "localhost"@ || host->0@ == "127.0.0.1"@ || host->0@
                == "::1"@)))
            &&& payload.event.service_id@ == event.service_id@
            &&& payload.event.status_from@ == event.previous_status.name()
            &&& payload.event.status_to@ == event.new_status.name()
            &&& unicode::byte_len(event.message@) <= 512 ==> payload.event.message@
                == event.message@
            &&& unicode::byte_len(event.service_name@) <= 128 ==> payload.event.service_name@
                == event.service_name@
        },
        !(delivery is NoEndpoint) && (*parts matches Ok((scheme, host)) && scheme@ == "https"@)
            ==> delivery is Post,
        *parts is Err ==> !(delivery is Post),
        !(delivery is Log),
{
    alert::lemma_webhook_delivery_in_full(
        delivery,
        *event,
        target.endpoint,
        alert::parts_view(*parts),
    );
    alert::lemma_webhook_rule_in_full(alert::parts_view(*parts));
}

/// Each destination is told in its own way, and a delivery counts by what came of
/// it.
pub proof fn law_delivery(
    event: &StatusChangeEvent,
    target: &AlertTargetConfig,
    delivery: &Delivery,
    answer: Option<u16>,
    result: bool,
)
    requires
        call_ensures(alert::dispatch_alert, (event, target), *delivery),
        call_ensures(alert::was_delivered, (delivery, answer), result),
    ensures
        *delivery is Log <==> target.kind == AlertKind::Log,
        target.kind == AlertKind::Log ==> result,
        target.kind == AlertKind::Webhook ==> (result <==> *delivery is Post && answer is Some
            && 200 <= answer->0 <= 299),
{
    alert::lemma_delivery_in_full(*delivery, *event, *target);
    alert::lemma_what_counts_as_delivered(*delivery, answer);
}

/// An alert is noted at the end of the log of its service, and after the last one
/// of a dispatch the cooldown begins.
pub proof fn law_alerts_are_noted(
    dispatch: Dispatch,
    answer: Option<u16>,
    store: &mut VelaState,
    limits: &mut Table<RateLimitEntry>,
    now: Timestamp,
    rest: Option<Dispatch>,
)
    requires
        call_ensures(Dispatch::finish, (dispatch, answer, store, limits, now), rest),
    ensures
        ({
            let event = dispatch.event();
            let id = event.service_id@;
            let target = dispatch.targets()[dispatch.sent() as int];
            let log = final(store).inner.alert_records@[id]@;
            &&& log.len() > 0
            &&& log.last().service_id@ == id
            &&& log.last().kind == target.kind
            &&& log.last().sent_at == now
            &&& log.last().trigger@ == event.previous_status.name() + "→"@
                + event.new_status.name()
            &&& target.kind == AlertKind::Log ==> log.last().delivered
            &&& target.kind == AlertKind::Webhook && log.last().delivered ==> answer is Some && 200
                <= answer->0 <= 299
            &&& log.last().error is None <==> log.last().delivered
            &&& rest is Some <==> dispatch.sent() + 1 < dispatch.targets().len()
            &&& rest is Some ==> final(limits)@ == old(limits)@
            &&& rest is None ==> final(limits)@.dom().contains(id)
                && final(limits)@[id].last_alert_at == now
        }),
        final(store).inner.services == old(store).inner.services,
        final(store).inner.health_records == old(store).inner.health_records,
        final(store).inner.restart_records == old(store).inner.restart_records,
        final(store).inner.upstream_states == old(store).inner.upstream_states,
{
    alert::lemma_step_of_a_dispatch(
        dispatch,
        answer,
        now,
        old(store).inner.alert_records@,
        final(store).inner.alert_records@,
        old(limits)@,
        final(limits)@,
        rest,
    );
}

// ---------------------------------------------------------------------------
// Health checks.
// ---------------------------------------------------------------------------

/// A check asks Docker first where it can, probes the instance at its own address
/// and configured path, and passes exactly where the instance answers well.
pub proof fn law_course_of_a_check(
    upstream: &UpstreamConfig,
    check: &HealthCheckConfig,
    id: &str,
    event: CheckEvent,
    latency_ms: u64,
    step: CheckStep,
)
    requires
        call_ensures(health::execute_check, (upstream, check, id, event, latency_ms), step),
    ensures
        ({
            let place = upstream.host@ + ":"@ + text::decimal(upstream.port as nat);
            &&& step matches CheckStep::Probe(probe) ==> match check.kind {
                HealthCheckKind::Tcp => probe matches Probe::Tcp(addr) && addr@ == place,
                HealthCheckKind::Http => probe matches Probe::Http(url)
                    && url@ == "http://"@ + place
                    + (match check.http_path {
                    Some(path) => path@,
                    None => "/health"@,
                }),
            }
            &&& step is Probe <==> ((event matches CheckEvent::Begun { docker_available }
                && !(docker_available && upstream.docker_container is Some)) || (event matches
                CheckEvent::DockerAnswered(Ok(running)) && running))
            &&& step is AskDocker <==> (event matches CheckEvent::Begun { docker_available }
                && docker_available && upstream.docker_container is Some)
            &&& step matches CheckStep::AskDocker(container) ==> container
                == upstream.docker_container->0
            &&& step matches CheckStep::Done(result) ==> {
                &&& result.service_id@ == id@
                &&& result.latency_ms == latency_ms
                &&& result.success <==> (event matches CheckEvent::Probed(outcome) && outcome is Ok)
                &&& result.success <==> result.error is None
                &&& (event matches CheckEvent::Probed(Err(e)) ==> result.error matches Some(words)
                    && words@ == e.message())
            }
        }),
{
    health::lemma_check_in_full(step, *upstream, *check, id@, event, latency_ms);
    if let CheckStep::Probe(probe) = step {
        health::lemma_probe_in_full(probe, *upstream, *check);
    }
}

/// A probe passes exactly where the connection was accepted, or the answer is one
/// of success.
pub proof fn law_probes(
    target: &str,
    timeout_ms: u64,
    tcp: TcpEnd,
    tcp_result: Result<(), VelaError>,
    http: HttpEnd,
    http_result: Result<(), VelaError>,
)
    requires
        call_ensures(health::check_tcp, (target, tcp, timeout_ms), tcp_result),
        call_ensures(health::check_http, (target, http, timeout_ms), http_result),
    ensures
        tcp_result is Ok <==> tcp is Connected,
        http_result is Ok <==> (http matches HttpEnd::Answered(code) && 200 <= code <= 299),
        tcp_result matches Err(e) ==> (e matches VelaError::HealthCheckFailed { service_id, .. }
            && service_id@ == target@),
        http_result matches Err(e) ==> (e matches VelaError::HealthCheckFailed { service_id, .. }
            && service_id@ == target@),
{
    health::lemma_verdicts_in_full(target@, timeout_ms, tcp, tcp_result, http, http_result);
}

/// Every instance of every service has one check loop, and nothing else has.
pub proof fn law_check_loops(
    services: &Vec<ServiceConfig>,
    result: Result<Vec<(usize, usize)>, VelaError>,
    i: int,
    k: int,
)
    requires
        call_ensures(health::plan_check_loops, (services,), result),
    ensures
        result is Err <==> services@.len() == 0,
        result matches Ok(loops) ==> {
            &&& 0 <= i < services@.len() && 0 <= k < services@[i].upstreams@.len()
                ==> exists|n: int|
                0 <= n < loops@.len() && (#[trigger] loops@[n]).0 == i && loops@[n].1 == k
            &&& forall|n: int|
                0 <= n < loops@.len() ==> (#[trigger] loops@[n]).0 < services@.len() && loops@[n].1
                    < services@[loops@[n].0 as int].upstreams@.len()
            &&& forall|m: int, n: int|
                0 <= m < n < loops@.len() ==> #[trigger] loops@[m] != #[trigger] loops@[n]
        },
{
    if let Ok(loops) = result {
        health::lemma_check_loops_in_full(services@, loops@, i, k);
    }
}

// ---------------------------------------------------------------------------
// The state store.
// ---------------------------------------------------------------------------

/// The records that a log held, where there is one.
pub open spec fn held<T>(logs: Map<Seq<char>, Vec<T>>, id: Seq<char>) -> Seq<T> {
    if logs.dom().contains(id) {
        logs[id]@
    } else {
        Seq::empty()
    }
}

/// Whether a log has one record more, at its end. The oldest one makes room where
/// it was full.
pub open spec fn grew<T>(before: Seq<T>, after: Seq<T>, max: int) -> bool {
    &&& after.len() > 0
    &&& before.len() < max ==> after.drop_last() == before
    &&& before.len() >= max ==> after.drop_last() == before.drop_first()
}

/// A check of a known instance makes it healthy, or counts one failure more and
/// makes it failed from the threshold on; its service has the status that all of
/// its instances make, and a change of it is reported; and the check is logged.
pub proof fn law_check_of_an_instance(
    store: &mut VelaState,
    id: &str,
    host: &str,
    port: u16,
    i: int,
    success: bool,
    latency_ms: u64,
    error: Option<String>,
    threshold: u32,
    name: String,
    now: Timestamp,
    result: Result<Option<StatusChangeEvent>, VelaError>,
)
    requires
        call_ensures(
            VelaState::record_upstream_health_check_at,
            (store, id, host, port, success, latency_ms, error, threshold, name, now),
            result,
        ),
        old(store).inner.services@.dom().contains(id@),
        old(store).inner.upstream_states@.dom().contains(id@),
        0 <= i < old(store).inner.upstream_states@[id@]@.len(),
        old(store).inner.upstream_states@[id@]@[i].host@ == host@,
        old(store).inner.upstream_states@[id@]@[i].port == port,
        old(store).inner.upstream_states@[id@]@[i].consecutive_failures < u32::MAX,
        forall|j: int|
            0 <= j < i ==> !((#[trigger] old(store).inner.upstream_states@[id@]@[j]).host@ == host@
                && old(store).inner.upstream_states@[id@]@[j].port == port),
    ensures
        ({
            let before = old(store).inner.upstream_states@[id@]@;
            let after = final(store).inner.upstream_states@[id@]@;
            let svc = final(store).inner.services@[id@];
            let log = final(store).inner.health_records@[id@]@;
            let all_healthy = forall|j: int|
                0 <= j < after.len() ==> (#[trigger] after[j]).status == ServiceStatus::Healthy;
            let all_failed = forall|j: int|
                0 <= j < after.len() ==> (#[trigger] after[j]).status == ServiceStatus::Failed;
            &&& after.len() == before.len()
            &&& forall|j: int| 0 <= j < before.len() && j != i ==> #[trigger] after[j] == before[j]
            &&& after[i].last_checked_at == Some(now)
            &&& after[i].latency_ms == Some(latency_ms)
            &&& success ==> after[i].status == ServiceStatus::Healthy
                && after[i].consecutive_failures == 0 && after[i].last_ok_at == Some(now)
            &&& !success ==> after[i].consecutive_failures == before[i].consecutive_failures + 1
                && after[i].last_ok_at == before[i].last_ok_at
            &&& !success && after[i].consecutive_failures >= threshold ==> after[i].status
                == ServiceStatus::Failed
            &&& !success && after[i].consecutive_failures < threshold ==> after[i].status
                == ServiceStatus::Degraded
            &&& svc.status == ServiceStatus::Healthy <==> all_healthy
            &&& svc.status == ServiceStatus::Failed <==> all_failed
            &&& result matches Ok(event) && state::tells_of_a_change(
                event,
                id@,
                name@,
                old(store).inner.services@[id@].status,
                svc.status,
                now,
            )
            &&& grew(held(old(store).inner.health_records@, id@), log, 100)
            &&& log.last().success == success
            &&& log.last().latency_ms == latency_ms
            &&& log.last().service_id@ == id@
            &&& log.last().checked_at == now
            &&& log.last().error == error
        }),
{
    state::lemma_check_of_an_instance(
        *old(store),
        *final(store),
        id@,
        host@,
        port,
        i,
        success,
        latency_ms,
        error,
        threshold,
        name@,
        now,
        result,
    );
    state::lemma_aggregate_in_full(final(store).inner.upstream_states@[id@]@);
    state::lemma_instance_is_found(old(store).inner.upstream_states@[id@]@, host@, port, i);
    let record = choose|record: HealthRecord|
        state::is_record(record, id@, success, latency_ms, now, error)
            && #[trigger] state::appended(
            old(store).inner.health_records@,
            final(store).inner.health_records@,
            id@,
            record,
            state::MAX_HEALTH_RECORDS as nat,
        );
    state::lemma_log_reads_back(
        old(store).inner.health_records@,
        final(store).inner.health_records@,
        id@,
        record,
        state::MAX_HEALTH_RECORDS as nat,
    );
}

/// A check of a service as a whole does the same for the service.
pub proof fn law_check_of_a_service(
    store: &mut VelaState,
    record: HealthRecord,
    name: String,
    threshold: u32,
    now: Timestamp,
    result: Result<Option<StatusChangeEvent>, VelaError>,
)
    requires
        call_ensures(
            VelaState::record_health_check_at,
            (store, record, name, threshold, now),
            result,
        ),
        old(store).inner.services@.dom().contains(record.service_id@),
        old(store).inner.services@[record.service_id@].consecutive_failures < u32::MAX,
    ensures
        ({
            let id = record.service_id@;
            let before = old(store).inner.services@[id];
            let after = final(store).inner.services@[id];
            let log = final(store).inner.health_records@[id]@;
            &&& record.success ==> after.status == ServiceStatus::Healthy
                && after.consecutive_failures == 0 && after.last_ok_at == Some(record.checked_at)
            &&& !record.success ==> after.consecutive_failures == before.consecutive_failures + 1
                && after.last_ok_at == before.last_ok_at
            &&& !record.success && after.consecutive_failures >= threshold ==> after.status
                == ServiceStatus::Failed
            &&& !record.success && after.consecutive_failures < threshold ==> after.status
                == ServiceStatus::Degraded
            &&& after.restart_count == before.restart_count
            &&& grew(held(old(store).inner.health_records@, id), log, 100)
            &&& log.last() == record
            &&& after.last_checked_at == Some(record.checked_at)
            &&& result matches Ok(event) && state::tells_of_a_change(
                event,
                id,
                name@,
                before.status,
                after.status,
                now,
            )
        }),
{
    state::lemma_check_of_a_service(
        *old(store),
        *final(store),
        record,
        name@,
        threshold,
        now,
        result,
    );
    state::lemma_log_reads_back(
        old(store).inner.health_records@,
        final(store).inner.health_records@,
        record.service_id@,
        record,
        state::MAX_HEALTH_RECORDS as nat,
    );
}

/// A restart of a known service is counted once and put at the end of its log; of
/// an unknown one nothing is kept.
pub proof fn law_restarts_are_counted(
    store: &mut VelaState,
    record: RestartRecord,
    result: Result<(), VelaError>,
)
    requires
        call_ensures(VelaState::record_restart, (store, record), result),
        old(store).inner.services@.dom().contains(record.service_id@)
            ==> old(store).inner.services@[record.service_id@].restart_count < u32::MAX,
    ensures
        ({
            let id = record.service_id@;
            let log = final(store).inner.restart_records@[id]@;
            &&& result is Ok <==> old(store).inner.services@.dom().contains(id)
            &&& result is Err ==> *final(store) == *old(store)
            &&& result is Ok ==> {
                &&& final(store).inner.services@[id].restart_count
                    == old(store).inner.services@[id].restart_count + 1
                &&& final(store).inner.services@[id].status == old(store).inner.services@[id].status
                &&& grew(held(old(store).inner.restart_records@, id), log, 50)
                &&& log.last() == record
                &&& final(store).inner.health_records == old(store).inner.health_records
                &&& final(store).inner.alert_records == old(store).inner.alert_records
                &&& forall|other: Seq<char>|
                    other != id && #[trigger] old(store).inner.services@.dom().contains(other)
                        ==> final(store).inner.services@[other] == old(store).inner.services@[other]
            }
        }),
{
    if result is Ok {
        state::lemma_log_reads_back(
            old(store).inner.restart_records@,
            final(store).inner.restart_records@,
            record.service_id@,
            record,
            state::MAX_RESTART_RECORDS as nat,
        );
    }
}

/// An alert is put at the end of the log of its service.
pub proof fn law_alerts_are_kept(
    store: &mut VelaState,
    record: AlertRecord,
    result: Result<(), VelaError>,
)
    requires
        call_ensures(VelaState::record_alert, (store, record), result),
    ensures
        result is Ok,
        grew(
            held(old(store).inner.alert_records@, record.service_id@),
            final(store).inner.alert_records@[record.service_id@]@,
            50,
        ),
        final(store).inner.alert_records@[record.service_id@]@.last() == record,
        final(store).inner.services == old(store).inner.services,
{
    state::lemma_log_reads_back(
        old(store).inner.alert_records@,
        final(store).inner.alert_records@,
        record.service_id@,
        record,
        state::MAX_ALERT_RECORDS as nat,
    );
}

/// What is read of the store is what it holds: each log by its own name, and of
/// the instances those that are healthy.
pub proof fn law_reads(
    store: &VelaState,
    id: &str,
    checks: Vec<HealthRecord>,
    alerts: Vec<AlertRecord>,
    restarts: Vec<RestartRecord>,
    healthy: Vec<(String, u16)>,
    services: Table<models::ServiceState>,
) -> (positions: Seq<int>)
    requires
        call_ensures(VelaState::get_health_records, (store, id), checks),
        call_ensures(VelaState::get_alert_records, (store, id), alerts),
        call_ensures(VelaState::get_restart_records, (store, id), restarts),
        call_ensures(VelaState::get_healthy_upstreams, (store, id), healthy),
        call_ensures(VelaState::snapshot_services, (store,), services),
    ensures
        store.inner.health_records@.dom().contains(id@) ==> checks@
            == store.inner.health_records@[id@]@,
        store.inner.alert_records@.dom().contains(id@) ==> alerts@
            == store.inner.alert_records@[id@]@,
        store.inner.restart_records@.dom().contains(id@) ==> restarts@
            == store.inner.restart_records@[id@]@,
        !store.inner.upstream_states@.dom().contains(id@) ==> healthy@.len() == 0,
        store.inner.upstream_states@.dom().contains(id@) ==> {
            let upstreams = store.inner.upstream_states@[id@]@;
            &&& state::are_healthy_positions(positions, upstreams)
            &&& healthy@.len() == positions.len()
            &&& forall|k: int|
                0 <= k < healthy@.len() ==> (#[trigger] healthy@[k]).0@
                    == upstreams[positions[k]].host@ && healthy@[k].1
                    == upstreams[positions[k]].port
        },
        services@ == store.inner.services@,
{
    let upstreams = state::log_of(store.inner.upstream_states@, id@);
    let positions = state::lemma_healthy_instances_in_full(upstreams);
    assert(state::addresses(healthy@).len() == healthy@.len());
    assert forall|k: int| 0 <= k < healthy@.len() implies (#[trigger] healthy@[k]).0@
        == upstreams[positions[k]].host@ && healthy@[k].1 == upstreams[positions[k]].port by {
        assert(state::addresses(healthy@)[k] == (healthy@[k].0@, healthy@[k].1));
    }
    positions
}

// ---------------------------------------------------------------------------
// Configuration.
// ---------------------------------------------------------------------------

/// A configuration is accepted exactly where it has a key and services that are
/// all in order and told apart by their ids.
pub proof fn law_validity(config: &VelaConfig, result: Result<(), VelaError>)
    requires
        call_ensures(config::validate_config, (config,), result),
    ensures
        result is Ok <==> {
            &&& exists|k: int|
                0 <= k < config.global.api_key@.len() && !unicode::white_space(
                    #[trigger] config.global.api_key@[k],
                )
            &&& config.services@.len() > 0
            &&& forall|i: int|
                0 <= i < config.services@.len() ==> config::is_sound(#[trigger] config.services@[i])
            &&& forall|i: int, j: int|
                0 <= i < j < config.services@.len() ==> (#[trigger] config.services@[i]).id@ != (
                #[trigger] config.services@[j]).id@
        },
        result matches Err(e) ==> e is ConfigValidation,
{
    config::lemma_validity_in_full(*config);
}

/// A configuration that is prepared has the services that it was read with; each
/// has its instances, and is restarted as it said.
pub proof fn law_preparation(config: &mut VelaConfig, result: Result<(), VelaError>, i: int)
    requires
        call_ensures(config::prepare_config, (config,), result),
        0 <= i < old(config).services@.len(),
    ensures
        result is Ok ==> {
            let before = old(config).services@[i];
            let after = final(config).services@[i];
            &&& final(config).services@.len() == old(config).services@.len()
            &&& final(config).global == old(config).global
            &&& after.id == before.id
            &&& after.max_restarts == before.max_restarts
            &&& after.failure_threshold == before.failure_threshold
            &&& after.health_check == before.health_check
            &&& after.proxy == before.proxy
            &&& after.alerts == before.alerts
            &&& after.upstreams@.len() > 0
            &&& before.upstreams@.len() > 0 ==> after.upstreams@ == before.upstreams@
            &&& before.upstreams@.len() == 0 ==> after.upstreams@.len() == 1
                && after.upstreams@[0].host == before.host->0 && after.upstreams@[0].port
                == before.port->0
            &&& before.restart is Some ==> after.restart == before.restart
            &&& before.restart is None ==> after.restart is Some && after.restart->0.command
                == before.command
            &&& forall|plan: RestartPlan| #[trigger]
                restarts_as_configured(after, plan) <==> restarts_as_configured(before, plan)
            &&& config::is_sound(after)
        },
{
    if result is Ok {
        let before = old(config).services@[i];
        let after = final(config).services@[i];
        assert(config::completion_problem(before) is None);
        assert(config::completed(before, after));
        config::lemma_what_can_be_completed(before);
        config::lemma_completion_in_full(before, after);
        config::lemma_validity_in_full(*final(config));
    }
}

/// A service is found by its id, and the last one where there are several.
pub proof fn law_lookup(
    services: &Vec<ServiceConfig>,
    id: &str,
    result: Option<usize>,
)
    requires
        call_ensures(config::find_service, (services, id), result),
    ensures
        result is None <==> forall|j: int|
            0 <= j < services@.len() ==> (#[trigger] services@[j]).id@ != id@,
        result matches Some(i) ==> i < services@.len() && services@[i as int].id@ == id@,
{
    config::lemma_service_position(services@, id@);
}

/// After registration the store knows every service of the configuration as one
/// that was never checked, with its instances.
pub proof fn law_registration(
    config: &VelaConfig,
    store: &mut VelaState,
    result: Result<(), VelaError>,
    i: int,
)
    requires
        call_ensures(config::register_services, (config, store), result),
        0 <= i < config.services@.len(),
        forall|j: int|
            i < j < config.services@.len() ==> (#[trigger] config.services@[j]).id@
                != config.services@[i].id@,
    ensures
        ({
            let id = config.services@[i].id@;
            let upstreams = config.services@[i].upstreams@;
            let states = final(store).inner.upstream_states@[id]@;
            &&& result is Ok
            &&& final(store).inner.services@.dom().contains(id)
            &&& final(store).inner.services@[id].status == ServiceStatus::Unknown
            &&& final(store).inner.services@[id].consecutive_failures == 0
            &&& final(store).inner.services@[id].restart_count == 0
            &&& final(store).inner.upstream_states@.dom().contains(id)
            &&& states.len() == upstreams.len()
            &&& forall|k: int|
                0 <= k < states.len() ==> (#[trigger] states[k]).host@ == upstreams[k].host@
                    && states[k].port == upstreams[k].port && states[k].status
                    == ServiceStatus::Unknown
        }),
{
    let id = config.services@[i].id@;
    let services = config.services@;
    config::lemma_service_position_is_the_last(services, id, i);
    assert(config::entered(*final(store), id, services[i].upstreams@));
    let states = final(store).inner.upstream_states@[id]@;
    let upstreams = services[i].upstreams@;
    assert forall|k: int| 0 <= k < states.len() implies (#[trigger] states[k]).host@
        == upstreams[k].host@ && states[k].port == upstreams[k].port && states[k].status
        == ServiceStatus::Unknown by {
        assert(states[k].is_initial(upstreams[k].host@, upstreams[k].port));
    }
}

// ---------------------------------------------------------------------------
// The API.
// ---------------------------------------------------------------------------

/// Each count of the overview is that of its own list.
pub proof fn law_overview(
    store: &VelaState,
    services: &Vec<ServiceConfig>,
    response: ApiResponse<VelaStatusResponse>,
    held: ServiceStatus,
)
    requires
        call_ensures(api::handle_status, (store, services), response),
    ensures
        ({
            let data = response.data;
            let list = data.services@;
            &&& response.ok
            &&& data.healthy_count == list.filter(api::shows_status("Healthy"@)).len()
            &&& data.degraded_count == list.filter(api::shows_status("Degraded"@)).len()
            &&& data.failed_count == list.filter(api::shows_status("Failed"@)).len()
            &&& data.unknown_count == list.filter(api::shows_status("Unknown"@)).len()
            &&& data.total_services == list.len()
            &&& data.healthy_count + data.degraded_count + data.failed_count + data.unknown_count
                == data.total_services
            &&& data.total_services == store.inner.services.order().len()
        }),
{
    api::lemma_counts_match_the_list(response.data, store.inner.services, services@);
}

/// Both lists of services show every service of the store with what is known of
/// it, and go by the ids.
pub proof fn law_lists(
    store: &VelaState,
    services: &Vec<ServiceConfig>,
    response: ApiResponse<Vec<ServiceSummary>>,
    overview: ApiResponse<VelaStatusResponse>,
    k: int,
)
    requires
        call_ensures(api::handle_list_services, (store, services), response),
        call_ensures(api::handle_status, (store, services), overview),
        0 <= k < store.inner.services.order().len(),
    ensures
        response.data@.len() == store.inner.services.order().len(),
        overview.data.services@.len() == store.inner.services.order().len(),
        exists|i: int|
            0 <= i < response.data@.len() && tells_all(
                #[trigger] response.data@[i],
                store.inner.services@[store.inner.services.order()[k]],
                api::name_of(services@, store.inner.services.order()[k]),
            ),
        exists|i: int|
            0 <= i < overview.data.services@.len() && tells_all(
                #[trigger] overview.data.services@[i],
                store.inner.services@[store.inner.services.order()[k]],
                api::name_of(services@, store.inner.services.order()[k]),
            ),
        forall|i: int, j: int|
            0 <= i < j < response.data@.len() ==> text::no_later(
                (#[trigger] response.data@[i]).service_id@,
                (#[trigger] response.data@[j]).service_id@,
            ),
{
    let table = store.inner.services;
    api::lemma_list_in_full(response.data@, table, services@, k);
    api::lemma_list_in_full(overview.data.services@, table, services@, k);
    let id = table.order()[k];
    let i = choose|i: int|
        0 <= i < response.data@.len() && {
            let s = #[trigger] response.data@[i];
            &&& s.service_id@ == table@[id].service_id@
            &&& s.service_name@ == api::name_of(services@, id)
            &&& s.status@ == table@[id].status.name()
            &&& s.consecutive_failures == table@[id].consecutive_failures
            &&& s.restart_count == table@[id].restart_count
            &&& s.is_recovering == table@[id].is_recovering
            &&& s.last_checked_at == table@[id].last_checked_at
            &&& s.last_ok_at == table@[id].last_ok_at
        };
    assert(tells_all(response.data@[i], table@[id], api::name_of(services@, id)));
    let list = overview.data.services@;
    let j = choose|i: int|
        0 <= i < list.len() && {
            let s = #[trigger] list[i];
            &&& s.service_id@ == table@[id].service_id@
            &&& s.service_name@ == api::name_of(services@, id)
            &&& s.status@ == table@[id].status.name()
            &&& s.consecutive_failures == table@[id].consecutive_failures
            &&& s.restart_count == table@[id].restart_count
            &&& s.is_recovering == table@[id].is_recovering
            &&& s.last_checked_at == table@[id].last_checked_at
            &&& s.last_ok_at == table@[id].last_ok_at
        };
    assert(tells_all(list[j], table@[id], api::name_of(services@, id)));
}

/// Whether a summary tells everything that is known of a service.
pub open spec fn tells_all(
    summary: ServiceSummary,
    known: models::ServiceState,
    name: Seq<char>,
) -> bool {
    &&& summary.service_id@ == known.service_id@
    &&& summary.service_name@ == name
    &&& summary.status@ == known.status.name()
    &&& summary.consecutive_failures == known.consecutive_failures
    &&& summary.restart_count == known.restart_count
    &&& summary.is_recovering == known.is_recovering
    &&& summary.last_checked_at == known.last_checked_at
    &&& summary.last_ok_at == known.last_ok_at
}

/// A request with anything but the key is refused unless it asks for one of the
/// two public pages; and each question gets the answer to itself.
pub proof fn law_answers(
    store: &VelaState,
    services: &Vec<ServiceConfig>,
    key: &[u8],
    headers: &axum::http::HeaderMap,
    route: &Route,
    answer: Answer,
)
    requires
        call_ensures(api::answer_request, (store, services, key, headers, route), answer),
    ensures
        ({
            let header = api::authorization(*headers);
            let admitted = header matches Some(value) && value == encode_utf8("Bearer "@) + key@
                && forall|i: int|
                0 <= i < value.len() ==> 32 <= #[trigger] value[i] <= 126 || value[i] == 9;
            let public = *route is Liveness || *route is Dashboard;
            &&& !public && !admitted ==> api::refuses(answer, 401, "Authentication required"@)
            &&& *route is Liveness ==> answer is Liveness
            &&& *route is Dashboard ==> answer is Dashboard
            &&& admitted && *route is Status ==> answer is Status
            &&& admitted && *route is Services ==> answer is Services
            &&& admitted && (*route matches Route::Service(id) && !api::has_strange_character(id@)
                && store.inner.services@.dom().contains(id@)) ==> answer is Service
            &&& admitted && (*route matches Route::Checks(id) && !api::has_strange_character(id@)
                && store.inner.health_records@.dom().contains(id@) && exists|j: int|
                0 <= j < services@.len() && (#[trigger] services@[j]).id@ == id@) ==> (answer
                matches Answer::Checks(response) && response.data@
                == store.inner.health_records@[(*route)->Checks_0@]@)
            &&& admitted && (*route matches Route::Alerts(id) && !api::has_strange_character(id@)
                && store.inner.alert_records@.dom().contains(id@) && exists|j: int|
                0 <= j < services@.len() && (#[trigger] services@[j]).id@ == id@) ==> (answer
                matches Answer::Alerts(response) && response.data@
                == store.inner.alert_records@[(*route)->Alerts_0@]@)
            &&& admitted && (*route matches Route::Restarts(id) && !api::has_strange_character(id@)
                && store.inner.restart_records@.dom().contains(id@) && exists|j: int|
                0 <= j < services@.len() && (#[trigger] services@[j]).id@ == id@) ==> (answer
                matches Answer::Restarts(response) && response.data@
                == store.inner.restart_records@[(*route)->Restarts_0@]@)
        }),
{
    let header = api::authorization(*headers);
    api::lemma_bearer_in_full(header, key@);
    api::lemma_access_in_full(answer, *store, services@, key@, header, *route);
    if api::is_reply(answer, *store, services@, *route) {
        api::lemma_replies_in_full(answer, *store, services@, *route);
    }
}

/// The key of the API must not be blank, is compared byte by byte, and the API
/// listens on this machine only.
pub proof fn law_key_and_address(
    api_key: &str,
    key: Result<Vec<u8>, VelaError>,
    header: &Option<Vec<u8>>,
    expected: &[u8],
    admission: Result<(), &'static str>,
    port: u16,
    addr: String,
)
    requires
        call_ensures(api::key_bytes, (api_key,), key),
        call_ensures(api::validate_bearer, (header, expected), admission),
        call_ensures(api::bind_address, (port,), addr),
    ensures
        key is Err <==> forall|k: int|
            0 <= k < api_key@.len() ==> unicode::white_space(#[trigger] api_key@[k]),
        key matches Ok(bytes) ==> bytes@ == encode_utf8(api_key@),
        admission is Ok <==> (*header matches Some(value) && value@ == encode_utf8("Bearer "@)
            + expected@ && forall|i: int|
            0 <= i < value@.len() ==> 32 <= #[trigger] value@[i] <= 126 || value@[i] == 9),
        addr@ == "127.0.0.1"@ + ":"@ + text::decimal(port as nat),
{
    api::lemma_bearer_in_full(
        match *header {
            Some(value) => Some(value@),
            None => None,
        },
        expected@,
    );
    proxy::lemma_address_in_full("127.0.0.1"@, port);
}

// ---------------------------------------------------------------------------
// Docker.
// ---------------------------------------------------------------------------

/// A container is at work only where it is running, and neither paused nor dead.
pub proof fn law_container_status(
    container: &str,
    inspection: Result<Option<ContainerState>, String>,
    result: Result<bool, VelaError>,
)
    requires
        call_ensures(docker_engine::get_container_status, (container, inspection), result),
    ensures
        result is Err <==> inspection is Err,
        result == Ok::<bool, VelaError>(true) <==> (inspection matches Ok(Some(seen))
            && seen.running == Some(true) && seen.paused != Some(true) && seen.dead != Some(true)),
{
}

/// The port of a container is the first one that a binding spells.
pub proof fn law_container_port(
    container: &str,
    ports: Option<Vec<Option<Vec<Option<String>>>>>,
    result: Result<u16, VelaError>,
)
    requires
        call_ensures(docker_engine::get_container_port, (container, ports), result),
    ensures
        ports is None ==> result is Err,
        ports is Some ==> {
            &&& result matches Ok(port) ==> exists|i: int, k: int|
                docker_engine::is_bound_at(ports->0@, i, k, port)
                    && #[trigger] docker_engine::none_before(ports->0@, i, k)
            &&& result is Err ==> forall|i: int, k: int, port: u16|
                !#[trigger] docker_engine::is_bound_at(ports->0@, i, k, port)
        },
{
    if let Some(found) = ports {
        docker_engine::lemma_container_port_in_full(found@);
    }
}

/// A restart in place succeeds where Docker does not complain.
pub proof fn law_container_restart(
    container: &str,
    failure: Option<String>,
    outcome: RestartOutcome,
)
    requires
        call_ensures(docker_engine::restart_container, (container, failure), outcome),
    ensures
        outcome is Succeeded <==> failure is None,
        failure matches Some(detail) ==> (outcome matches RestartOutcome::Failed(reason) && reason@
            == "Docker restart of '"@ + container@ + "' failed: "@ + detail@),
{
}

/// A restart from a pulled image inspects, pulls, stops, removes, creates and
/// starts, in this order, and ends at the first failure but that of the stop. The
/// new container has the name of the old one, the new image, and otherwise what
/// the inspection gave.
pub proof fn law_repull<C, H>(
    step: RepullStep,
    container: &str,
    image: &str,
    failure: Option<String>,
    progress: RepullProgress,
    settings: C,
    host: Option<H>,
    created: Successor<C, H>,
)
    requires
        call_ensures(docker_engine::repull_and_restart, (step, container, image, failure),
            progress),
        call_ensures(docker_engine::successor::<C, H>, (container, image, settings, host), created),
    ensures
        failure is None || step == RepullStep::Stop ==> match step {
            RepullStep::Inspect => progress == RepullProgress::Next(RepullStep::Pull),
            RepullStep::Pull => progress == RepullProgress::Next(RepullStep::Stop),
            RepullStep::Stop => progress == RepullProgress::Next(RepullStep::Remove),
            RepullStep::Remove => progress == RepullProgress::Next(RepullStep::Create),
            RepullStep::Create => progress == RepullProgress::Next(RepullStep::Start),
            RepullStep::Start => progress == RepullProgress::Done(RestartOutcome::Succeeded),
        },
        failure is Some && step != RepullStep::Stop ==> (progress matches RepullProgress::Done(
            outcome,
        ) && outcome is Failed),
        created.name@ == container@,
        created.image@ == image@,
        created.config == settings,
        created.host_config == host,
{
    docker_engine::lemma_repull_in_full(
        progress,
        step,
        container@,
        image@,
        docker_engine::words(failure),
    );
}

// ---------------------------------------------------------------------------
// The same by the clock of the machine.
// ---------------------------------------------------------------------------

/// A change of status is news by any clock: it is never suppressed, and goes out
/// where the service was never alerted about and has a destination in use.
pub proof fn law_news_is_sent_now(
    event: &StatusChangeEvent,
    services: &Vec<ServiceConfig>,
    i: int,
    limits: &mut Table<RateLimitEntry>,
    plan: AlertPlan,
)
    requires
        call_ensures(alert::handle_event, (event, services, limits), plan),
        0 <= i < services@.len(),
        services@[i].id@ == event.service_id@,
        forall|j: int|
            i < j < services@.len() ==> (#[trigger] services@[j]).id@ != event.service_id@,
    ensures
        plan is Suppressed <==> event.previous_status == event.new_status && event.new_status
            != ServiceStatus::Failed,
        !old(limits)@.dom().contains(event.service_id@) && !(plan is Suppressed) && (exists|k: int|
            0 <= k < services@[i].alerts@.len() && (#[trigger] services@[i].alerts@[k]).enabled)
            ==> plan is Dispatch,
{
    let now = choose|now: Timestamp|
        now@ >= 0 && #[trigger] alert::is_planned(
            *event,
            services@,
            old(limits)@,
            now,
            plan,
            final(limits)@,
        );
    alert::lemma_changes_are_no_noise(*event, services@, old(limits)@, now, plan, final(limits)@);
    if !old(limits)@.dom().contains(event.service_id@) && (event.previous_status
        != event.new_status || event.new_status == ServiceStatus::Failed) {
        alert::lemma_news_is_sent(*event, services@, i, old(limits)@, now, plan, final(limits)@);
    }
}

/// By any clock a recovery is never held back, nor is the first alert of a
/// service, nor what follows an alert about no failure; and an alert begins the
/// cooldown of its service alone.
pub proof fn law_cooldown_now(
    id: &str,
    status: &ServiceStatus,
    limits: &Table<RateLimitEntry>,
    result: bool,
    alerted: &ServiceStatus,
    changed: &mut Table<RateLimitEntry>,
)
    requires
        call_ensures(alert::is_rate_limited, (id, status, limits), result),
        call_ensures(alert::update_rate_limit, (id, alerted, changed), ()),
    ensures
        result ==> *status != ServiceStatus::Healthy && limits@.dom().contains(id@)
            && limits@[id@].alerted_for_failure,
        final(changed)@.dom() == old(changed)@.dom().insert(id@),
        final(changed)@[id@].alerted_for_failure <==> (*alerted == ServiceStatus::Failed || *alerted
            == ServiceStatus::Degraded),
        final(changed)@[id@].last_alert_at@ >= 0,
        forall|other: Seq<char>|
            other != id@ && #[trigger] old(changed)@.dom().contains(other)
                ==> final(changed)@[other] == old(changed)@[other],
{
}

/// What a check found is noted of the instance that was checked, with its own
/// result, latency and words.
pub proof fn law_results_are_recorded(
    store: &mut VelaState,
    found: models::CheckResult,
    upstream: &UpstreamConfig,
    name: &str,
    threshold: u32,
    i: int,
    recorded: Result<Option<StatusChangeEvent>, VelaError>,
)
    requires
        call_ensures(health::record_result, (store, found, upstream, name, threshold), recorded),
        old(store).inner.services@.dom().contains(found.service_id@),
        old(store).inner.upstream_states@.dom().contains(found.service_id@),
        0 <= i < old(store).inner.upstream_states@[found.service_id@]@.len(),
        old(store).inner.upstream_states@[found.service_id@]@[i].host@ == upstream.host@,
        old(store).inner.upstream_states@[found.service_id@]@[i].port == upstream.port,
        old(store).inner.upstream_states@[found.service_id@]@[i].consecutive_failures < u32::MAX,
        forall|j: int|
            0 <= j < i ==> !((
            #[trigger] old(store).inner.upstream_states@[found.service_id@]@[j]).host@
                == upstream.host@ && old(store).inner.upstream_states@[found.service_id@]@[j].port
                == upstream.port),
    ensures
        ({
            let id = found.service_id@;
            let before = old(store).inner.upstream_states@[id]@[i];
            let after = final(store).inner.upstream_states@[id]@[i];
            let log = final(store).inner.health_records@[id]@;
            &&& recorded is Ok
            &&& after.latency_ms == Some(found.latency_ms)
            &&& found.success ==> after.status == ServiceStatus::Healthy
                && after.consecutive_failures == 0
            &&& !found.success ==> after.consecutive_failures
                == before.consecutive_failures + 1 && (
            after.status == ServiceStatus::Failed <==> after.consecutive_failures >= threshold)
            &&& log.len() > 0
            &&& log.last().success == found.success
            &&& log.last().latency_ms == found.latency_ms
            &&& log.last().error == found.error
        }),
{
    let now = choose|now: Timestamp|
        now@ >= 0 && #[trigger] final(store).after_upstream_check(
            *old(store),
            found.service_id@,
            upstream.host@,
            upstream.port,
            found.success,
            found.latency_ms,
            found.error,
            threshold,
            name@,
            now,
            recorded,
        );
    state::lemma_check_of_an_instance(
        *old(store),
        *final(store),
        found.service_id@,
        upstream.host@,
        upstream.port,
        i,
        found.success,
        found.latency_ms,
        found.error,
        threshold,
        name@,
        now,
        recorded,
    );
}

/// A check of a service that is noted by the clock of the machine changes the
/// service as its record says.
pub proof fn law_check_of_a_service_now(
    store: &mut VelaState,
    record: HealthRecord,
    name: String,
    threshold: u32,
    result: Result<Option<StatusChangeEvent>, VelaError>,
)
    requires
        call_ensures(VelaState::record_health_check, (store, record, name, threshold), result),
        old(store).inner.services@.dom().contains(record.service_id@),
        old(store).inner.services@[record.service_id@].consecutive_failures < u32::MAX,
    ensures
        ({
            let id = record.service_id@;
            let before = old(store).inner.services@[id];
            let after = final(store).inner.services@[id];
            let log = final(store).inner.health_records@[id]@;
            &&& record.success ==> after.status == ServiceStatus::Healthy
                && after.consecutive_failures == 0
            &&& !record.success ==> after.consecutive_failures == before.consecutive_failures + 1
                && (after.status == ServiceStatus::Failed <==> after.consecutive_failures
                >= threshold)
            &&& log.len() > 0 && log.last() == record
            &&& result is Ok
            &&& result->Ok_0 is Some <==> before.status != after.status
        }),
{
    let now = choose|now: Timestamp|
        now@ >= 0 && #[trigger] final(store).after_health_check(
            *old(store),
            record,
            name@,
            threshold,
            now,
            result,
        );
    state::lemma_check_of_a_service(
        *old(store),
        *final(store),
        record,
        name@,
        threshold,
        now,
        result,
    );
}

/// A check of an instance that is noted by the clock of the machine changes the
/// instance as it went.
pub proof fn law_check_of_an_instance_now(
    store: &mut VelaState,
    id: &str,
    host: &str,
    port: u16,
    i: int,
    success: bool,
    latency_ms: u64,
    error: Option<String>,
    threshold: u32,
    name: String,
    result: Result<Option<StatusChangeEvent>, VelaError>,
)
    requires
        call_ensures(
            VelaState::record_upstream_health_check,
            (store, id, host, port, success, latency_ms, error, threshold, name),
            result,
        ),
        old(store).inner.services@.dom().contains(id@),
        old(store).inner.upstream_states@.dom().contains(id@),
        0 <= i < old(store).inner.upstream_states@[id@]@.len(),
        old(store).inner.upstream_states@[id@]@[i].host@ == host@,
        old(store).inner.upstream_states@[id@]@[i].port == port,
        old(store).inner.upstream_states@[id@]@[i].consecutive_failures < u32::MAX,
        forall|j: int|
            0 <= j < i ==> !((#[trigger] old(store).inner.upstream_states@[id@]@[j]).host@ == host@
                && old(store).inner.upstream_states@[id@]@[j].port == port),
    ensures
        ({
            let before = old(store).inner.upstream_states@[id@]@[i];
            let after = final(store).inner.upstream_states@[id@]@[i];
            let log = final(store).inner.health_records@[id@]@;
            &&& result is Ok
            &&& result->Ok_0 is Some <==> old(store).inner.services@[id@].status
                != final(store).inner.services@[id@].status
            &&& after.latency_ms == Some(latency_ms)
            &&& success ==> after.status == ServiceStatus::Healthy && after.consecutive_failures
                == 0
            &&& !success ==> after.consecutive_failures == before.consecutive_failures + 1 && (
            after.status == ServiceStatus::Failed <==> after.consecutive_failures >= threshold)
            &&& log.len() > 0
            &&& log.last().success == success
            &&& log.last().latency_ms == latency_ms
            &&& log.last().error == error
        }),
{
    let now = choose|now: Timestamp|
        now@ >= 0 && #[trigger] final(store).after_upstream_check(
            *old(store),
            id@,
            host@,
            port,
            success,
            latency_ms,
            error,
            threshold,
            name@,
            now,
            result,
        );
    state::lemma_check_of_an_instance(
        *old(store),
        *final(store),
        id@,
        host@,
        port,
        i,
        success,
        latency_ms,
        error,
        threshold,
        name@,
        now,
        result,
    );
}

// ---------------------------------------------------------------------------
// Parts of the operations.
// ---------------------------------------------------------------------------

/// What a webhook and the log are told of an event: its service, its statuses, and
/// its name and message up to their lengths.
pub proof fn law_what_is_told(
    event: &StatusChangeEvent,
    payload: alert::WebhookPayload,
    delivery: Delivery,
)
    requires
        call_ensures(alert::build_webhook_payload, (event,), payload),
        call_ensures(alert::deliver_log, (event,), delivery),
    ensures
        payload.source@ == "vela"@,
        payload.version@ == "1"@,
        payload.event.service_id@ == event.service_id@,
        payload.event.service_name@ == unicode::shortened(event.service_name@, 128),
        payload.event.status_from@ == event.previous_status.name(),
        payload.event.status_to@ == event.new_status.name(),
        payload.event.message@ == unicode::shortened(event.message@, 512),
        payload.event.timestamp@ == crate::clock::rfc3339(event.timestamp@),
        delivery matches Delivery::Log { level, line } && {
            &&& level == alert::LogLevel::Error <==> event.new_status == ServiceStatus::Failed
            &&& level == alert::LogLevel::Warn <==> event.new_status == ServiceStatus::Degraded
            &&& line@ == "[ALERT] service='"@ + event.service_id@ + "' name='"@
                + unicode::shortened(event.service_name@, 128) + "' status="@
                + event.previous_status.name() + "→"@ + event.new_status.name() + " msg='"@
                + unicode::shortened(event.message@, 512) + "'"@
        },
{
}

/// The record of an alert says of which service and destination, when, for which
/// change, and whether it arrived; and it goes to the end of the log.
pub proof fn law_alert_record(
    event: &StatusChangeEvent,
    kind: AlertKind,
    delivered: bool,
    now: Timestamp,
    record: AlertRecord,
    store: &mut VelaState,
    result: Result<(), VelaError>,
)
    requires
        call_ensures(alert::alert_record, (event, kind, delivered, now), record),
        call_ensures(alert::record_delivery, (store, event, kind, delivered, now), result),
    ensures
        record.service_id@ == event.service_id@,
        record.kind == kind,
        record.sent_at == now,
        record.delivered == delivered,
        record.trigger@ == event.previous_status.name() + "→"@ + event.new_status.name(),
        record.error is None <==> delivered,
        record.error matches Some(words) ==> words@ == "Delivery failed for "@ + kind.name()
            + " target"@,
        ({
            let log = final(store).inner.alert_records@[event.service_id@]@;
            &&& result is Ok
            &&& grew(held(old(store).inner.alert_records@, event.service_id@), log, 50)
            &&& log.last().service_id@ == event.service_id@
            &&& log.last().kind == kind
            &&& log.last().sent_at == now
            &&& log.last().delivered == delivered
        }),
        final(store).inner.services == old(store).inner.services,
{
    let noted = choose|noted: AlertRecord|
        alert::notes(noted, *event, kind, delivered, now) && #[trigger] state::appended(
            old(store).inner.alert_records@,
            final(store).inner.alert_records@,
            event.service_id@,
            noted,
            state::MAX_ALERT_RECORDS as nat,
        );
    state::lemma_log_reads_back(
        old(store).inner.alert_records@,
        final(store).inner.alert_records@,
        event.service_id@,
        noted,
        state::MAX_ALERT_RECORDS as nat,
    );
}

/// Each question for one service is answered from its own log, refused for an id
/// with a strange character, and refused for an id that no service has.
pub proof fn law_questions(
    store: &VelaState,
    services: &Vec<ServiceConfig>,
    id: &str,
    one: Result<ApiResponse<ServiceSummary>, api::Refusal>,
    checks: Result<ApiResponse<Vec<HealthRecord>>, api::Refusal>,
    alerts: Result<ApiResponse<Vec<AlertRecord>>, api::Refusal>,
    restarts: Result<ApiResponse<Vec<RestartRecord>>, api::Refusal>,
)
    requires
        call_ensures(api::handle_get_service, (store, services, id), one),
        call_ensures(api::handle_get_checks, (store, services, id), checks),
        call_ensures(api::handle_get_alerts, (store, services, id), alerts),
        call_ensures(api::handle_get_restarts, (store, services, id), restarts),
    ensures
        ({
            let strange = api::has_strange_character(id@);
            let configured = exists|j: int|
                0 <= j < services@.len() && (#[trigger] services@[j]).id@ == id@;
            &&& one is Ok <==> !strange && store.inner.services@.dom().contains(id@)
            &&& one matches Ok(response) ==> response.ok && tells_all(
                response.data,
                store.inner.services@[id@],
                api::name_of(services@, id@),
            )
            &&& checks is Ok <==> !strange && configured
            &&& alerts is Ok <==> !strange && configured
            &&& restarts is Ok <==> !strange && configured
            &&& checks matches Ok(response) ==> response.ok && response.data@ == held(
                store.inner.health_records@,
                id@,
            )
            &&& alerts matches Ok(response) ==> response.ok && response.data@ == held(
                store.inner.alert_records@,
                id@,
            )
            &&& restarts matches Ok(response) ==> response.ok && response.data@ == held(
                store.inner.restart_records@,
                id@,
            )
            &&& one matches Err(refusal) ==> refusal.status == (if strange {
                400u16
            } else {
                404u16
            })
            &&& checks matches Err(refusal) ==> refusal.status == (if strange {
                400u16
            } else {
                404u16
            })
            &&& alerts matches Err(refusal) ==> refusal.status == (if strange {
                400u16
            } else {
                404u16
            })
            &&& restarts matches Err(refusal) ==> refusal.status == (if strange {
                400u16
            } else {
                404u16
            })
        }),
{
    config::lemma_service_position(services@, id@);
}

/// A request is admitted by the authorization header that holds the key, and by
/// nothing else; the liveness probe needs none.
pub proof fn law_headers(
    headers: &axum::http::HeaderMap,
    key: &[u8],
    admission: Result<(), &'static str>,
    response: &mut axum::http::HeaderMap,
    done: bool,
    name: Seq<char>,
    liveness: api::Liveness,
)
    requires
        call_ensures(api::extract_and_validate_bearer, (headers, key), admission),
        call_ensures(api::apply_security_headers, (response,), done),
        call_ensures(api::handle_liveness, (), liveness),
    ensures
        admission is Ok <==> (api::authorization(*headers) matches Some(value) && value
            == encode_utf8("Bearer "@) + key@ && forall|i: int|
            0 <= i < value.len() ==> 32 <= #[trigger] value[i] <= 126 || value[i] == 9),
        done ==> {
            let before = api::header_values(*old(response));
            let after = api::header_values(*final(response));
            &&& after.dom().contains("x-content-type-options"@)
            &&& after["x-content-type-options"@] == seq![encode_utf8("nosniff"@)]
            &&& after.dom().contains("x-frame-options"@)
            &&& after["x-frame-options"@] == seq![encode_utf8("DENY"@)]
            &&& after.dom().contains("cache-control"@)
            &&& after["cache-control"@] == seq![encode_utf8("no-store"@)]
            &&& !after.dom().contains("server"@)
            &&& name != "x-content-type-options"@ && name != "x-frame-options"@ && name
                != "cache-control"@ && name != "server"@ && before.dom().contains(name)
                ==> after.dom().contains(name) && after[name] == before[name]
        },
        liveness.ok,
        liveness.service@ == "vela"@,
{
    api::lemma_bearer_in_full(api::authorization(*headers), key@);
    reveal_strlit("x-content-type-options");
    reveal_strlit("x-frame-options");
    reveal_strlit("cache-control");
    reveal_strlit("server");
    assert("x-content-type-options"@.len() != "x-frame-options"@.len());
    assert("x-content-type-options"@.len() != "cache-control"@.len());
    assert("x-frame-options"@.len() != "cache-control"@.len());
    assert("server"@.len() == 6);
}

/// A service is healthy where all its instances are, failed where all are, unknown
/// where some were never checked and none has failed, and else degraded.
pub proof fn law_aggregate(upstreams: &Vec<UpstreamState>, status: ServiceStatus)
    requires
        call_ensures(state::aggregate, (upstreams,), status),
        upstreams@.len() > 0,
    ensures
        status == ServiceStatus::Healthy <==> forall|i: int|
            0 <= i < upstreams@.len() ==> (#[trigger] upstreams@[i]).status
                == ServiceStatus::Healthy,
        status == ServiceStatus::Failed <==> forall|i: int|
            0 <= i < upstreams@.len() ==> (#[trigger] upstreams@[i]).status
                == ServiceStatus::Failed,
        status == ServiceStatus::Unknown <==> (exists|i: int|
            0 <= i < upstreams@.len() && (#[trigger] upstreams@[i]).status
                == ServiceStatus::Unknown) && (forall|i: int|
            0 <= i < upstreams@.len() ==> (#[trigger] upstreams@[i]).status
                != ServiceStatus::Failed),
{
    state::lemma_aggregate_in_full(upstreams@);
}

/// A store begins empty. A service that is registered is known, was never checked
/// and has empty logs, and its instances are those that were given; the other
/// services stay as they are.
pub proof fn law_registered_services(
    fresh: VelaState,
    store: &mut VelaState,
    id: String,
    result: Result<(), VelaError>,
    filled: &mut VelaState,
    upstreams: Vec<UpstreamState>,
    other: Seq<char>,
)
    requires
        call_ensures(VelaState::new, (), fresh),
        call_ensures(VelaState::register_service, (store, id), result),
        call_ensures(VelaState::register_service_upstreams, (filled, id, upstreams), ()),
        other != id@,
    ensures
        !fresh.inner.services@.dom().contains(other),
        !fresh.inner.upstream_states@.dom().contains(other),
        result is Ok,
        final(store).inner.services@.dom().contains(id@),
        final(store).inner.services@[id@].service_id@ == id@,
        final(store).inner.services@[id@].status == ServiceStatus::Unknown,
        final(store).inner.services@[id@].consecutive_failures == 0,
        final(store).inner.services@[id@].restart_count == 0,
        final(store).inner.health_records@[id@]@.len() == 0,
        final(store).inner.restart_records@[id@]@.len() == 0,
        final(store).inner.alert_records@[id@]@.len() == 0,
        old(store).inner.services@.dom().contains(other)
            ==> final(store).inner.services@.dom().contains(other),
        filled_with(old(filled).inner.upstream_states@, final(filled).inner.upstream_states@,
            id@, upstreams),
        final(filled).inner.services == old(filled).inner.services,
{
}

/// Whether the instances of one service were set and all others kept.
pub open spec fn filled_with(
    before: Map<Seq<char>, Vec<UpstreamState>>,
    after: Map<Seq<char>, Vec<UpstreamState>>,
    id: Seq<char>,
    upstreams: Vec<UpstreamState>,
) -> bool {
    &&& after.dom().contains(id)
    &&& after[id] == upstreams
    &&& forall|other: Seq<char>|
        other != id && #[trigger] before.dom().contains(other) ==> after.dom().contains(other)
            && after[other] == before[other]
}

/// What the store can still count: the failures of a service and of an instance,
/// and the restarts of a service.
pub proof fn law_room_to_count(
    store: &VelaState,
    id: &str,
    host: &str,
    port: u16,
    i: int,
    failure: bool,
    restart: bool,
    upstream_failure: bool,
)
    requires
        call_ensures(VelaState::can_count_failure, (store, id), failure),
        call_ensures(VelaState::can_count_restart, (store, id), restart),
        call_ensures(VelaState::can_count_upstream_failure, (store, id, host, port),
            upstream_failure),
        store.inner.services@.dom().contains(id@),
        store.inner.upstream_states@.dom().contains(id@),
        0 <= i < store.inner.upstream_states@[id@]@.len(),
        store.inner.upstream_states@[id@]@[i].host@ == host@,
        store.inner.upstream_states@[id@]@[i].port == port,
        forall|j: int|
            0 <= j < i ==> !((#[trigger] store.inner.upstream_states@[id@]@[j]).host@ == host@
                && store.inner.upstream_states@[id@]@[j].port == port),
    ensures
        failure <==> store.inner.services@[id@].consecutive_failures < u32::MAX,
        restart <==> store.inner.services@[id@].restart_count < u32::MAX,
        upstream_failure <==> store.inner.upstream_states@[id@]@[i].consecutive_failures < u32::MAX,
{
    state::lemma_instance_is_found(store.inner.upstream_states@[id@]@, host@, port, i);
}

/// An id is valid where it is made of lower-case letters, digits and hyphens.
pub proof fn law_ids(id: &str, result: bool)
    requires
        call_ensures(config::id_is_valid, (id,), result),
    ensures
        result <==> forall|k: int|
            0 <= k < id@.len() ==> 97 <= (#[trigger] id@[k]) as int <= 122 || 48 <= id@[k] as int
                <= 57 || id@[k] as int == 45,
{
}

/// Completing a configuration succeeds exactly where every service has an address
/// and says how its kind of restart is done, and then gives each its instances.
pub proof fn law_completion(config: &mut VelaConfig, result: Result<(), VelaError>, i: int)
    requires
        call_ensures(config::synthesize_backward_compat_fields, (config,), result),
        0 <= i < old(config).services@.len(),
    ensures
        result is Ok ==> {
            let before = old(config).services@[i];
            let after = final(config).services@[i];
            &&& before.upstreams@.len() > 0 || (before.host is Some && before.port is Some)
            &&& final(config).services@.len() == old(config).services@.len()
            &&& before.upstreams@.len() > 0 ==> after.upstreams@ == before.upstreams@
            &&& before.upstreams@.len() == 0 ==> after.upstreams@.len() == 1
                && after.upstreams@[0].host == before.host->0 && after.upstreams@[0].port
                == before.port->0
            &&& before.restart is Some ==> after.restart == before.restart
            &&& before.restart is None ==> after.restart is Some && after.restart->0.command
                == before.command
            &&& after.command == before.command
            &&& after.max_restarts == before.max_restarts
            &&& after.id == before.id
        },
        result matches Err(e) ==> e is ConfigValidation && exists|n: int|
            0 <= n < old(config).services@.len() && cannot_be_completed(
                #[trigger] old(config).services@[n],
            ),
{
    match result {
        Ok(_) => {
            let before = old(config).services@[i];
            let after = final(config).services@[i];
            assert(config::completion_problem(before) is None);
            assert(config::completed(before, after));
            config::lemma_what_can_be_completed(before);
            config::lemma_completion_in_full(before, after);
        },
        Err(e) => {
            let n = choose|n: int| #[trigger]
                config::completion_stopped(*old(config), *final(config), n, e);
            config::lemma_completion_stops_at_the_first(*old(config), *final(config), n, e);
            assert(cannot_be_completed(old(config).services@[n]));
        },
    }
}

/// Whether a service has no address, or lacks what its kind of restart needs.
pub open spec fn cannot_be_completed(svc: ServiceConfig) -> bool {
    ||| svc.upstreams@.len() == 0 && (svc.host is None || svc.port is None)
    ||| svc.restart matches Some(restart) && ((restart.mode == RestartMode::Docker
        && restart.docker is None) || (restart.mode == RestartMode::Manual && restart.command
        is None))
}

/// The wait grows after each restart up to a limit, the rest of the recovery stays
/// as it is, and a fresh recovery has the first wait.
pub proof fn law_waits(
    waiting: &mut RecoveryState,
    forgotten: &mut RecoveryState,
    fresh: RecoveryState,
)
    requires
        call_ensures(RecoveryState::advance_backoff, (waiting,), ()),
        call_ensures(RecoveryState::reset, (forgotten,), ()),
        call_ensures(RecoveryState::initial, (), fresh),
    ensures
        old(waiting).current_backoff <= 150
            ==> 2 * old(waiting).current_backoff <= final(waiting).current_backoff
            - old(waiting).current_episode_attempts as int % 3,
        old(waiting).current_backoff > 150
            ==> final(waiting).current_backoff
            == 360 + old(waiting).current_episode_attempts as int % 3,
        final(waiting).current_episode_attempts == old(waiting).current_episode_attempts,
        final(waiting).restart_in_progress == old(waiting).restart_in_progress,
        final(waiting).backoff_started_at == old(waiting).backoff_started_at,
        final(forgotten).current_episode_attempts == 0,
        !final(forgotten).restart_in_progress,
        final(forgotten).backoff_started_at is None,
        final(forgotten).current_backoff == 5,
        fresh.current_episode_attempts == 0,
        !fresh.restart_in_progress,
        fresh.backoff_started_at is None,
        fresh.current_backoff == 5,
{
    models::lemma_backoff_in_numbers(
        old(waiting).current_backoff as int,
        old(waiting).current_episode_attempts as int,
    );
}

/// A restart is set up well exactly where it has what its mode needs.
pub proof fn law_restart_settings(
    restart: &models::RestartConfig,
    id: &str,
    result: Result<(), VelaError>,
)
    requires
        call_ensures(models::RestartConfig::validate, (restart, id), result),
    ensures
        result is Ok <==> match restart.mode {
            RestartMode::Docker => restart.docker is Some,
            RestartMode::Manual => restart.command is Some,
            RestartMode::MonitorOnly => true,
        },
        result matches Err(e) ==> e is ConfigValidation,
{
    models::lemma_restart_settings(*restart, id@);
}

/// The names of the statuses and of the kinds of alerts, and what a summary shows.
pub proof fn law_names(
    status: &ServiceStatus,
    label: &'static str,
    kind: &AlertKind,
    kind_label: &'static str,
    known: &models::ServiceState,
    name: &str,
    summary: ServiceSummary,
)
    requires
        call_ensures(ServiceStatus::label, (status,), label),
        call_ensures(AlertKind::label, (kind,), kind_label),
        call_ensures(ServiceSummary::from_state, (known, name), summary),
    ensures
        *status == ServiceStatus::Healthy <==> label@ == "Healthy"@,
        *status == ServiceStatus::Degraded <==> label@ == "Degraded"@,
        *status == ServiceStatus::Failed <==> label@ == "Failed"@,
        *status == ServiceStatus::Unknown <==> label@ == "Unknown"@,
        *kind == AlertKind::Webhook <==> kind_label@ == "Webhook"@,
        *kind == AlertKind::Log <==> kind_label@ == "Log"@,
        tells_all(summary, *known, name@),
{
    models::lemma_status_names(*status, *status);
    models::lemma_kind_names(*kind);
}

/// An error says what went wrong in the words of its kind.
pub proof fn law_error_texts(e: &VelaError, words: String)
    requires
        call_ensures(VelaError::to_text, (e,), words),
    ensures
        *e matches VelaError::ConfigValidation(m) ==> words@ == "Config validation error: "@ + m@,
        *e matches VelaError::HealthCheckFailed { service_id, reason } ==> words@
            == "Health check failed for '"@ + service_id@ + "': "@ + reason@,
        *e matches VelaError::ProcessError(m) ==> words@ == "Process error: "@ + m@,
        *e matches VelaError::AlertDeliveryFailed { kind, reason } ==> words@
            == "Alert delivery failed ["@ + kind@ + "]: "@ + reason@,
        *e matches VelaError::ProxyPortConflict { port, reason } ==> words@
            == "Proxy port conflict on port "@ + text::decimal(port as nat) + ": "@ + reason@,
        *e matches VelaError::ProxyBindError { port, reason } ==> words@
            == "Proxy failed to bind port "@ + text::decimal(port as nat) + ": "@ + reason@,
        *e matches VelaError::ApiError(m) ==> words@ == "API error: "@ + m@,
        *e matches VelaError::StateError(m) ==> words@ == "State error: "@ + m@,
{
    error::lemma_messages_in_full(*e);
}

// ---------------------------------------------------------------------------
// Texts.
// ---------------------------------------------------------------------------

/// A number is written so that reading it gives it back, and an address with its
/// port at its end.
pub proof fn law_numbers(n: u64, words: String, host: &str, port: u16, addr: String, s: &str,
    read: Option<u16>)
    requires
        call_ensures(text::decimal_text, (n,), words),
        call_ensures(proxy::address_text, (host, port), addr),
        call_ensures(text::parse_port, (s,), read),
    ensures
        text::digits_value(words@) == Some(n as nat),
        n < 10 ==> words@.len() == 1 && words@[0] as int == 48 + n,
        addr@ == host@ + ":"@ + text::decimal(port as nat),
        s@ == text::decimal(port as nat) ==> read == Some(port),
        s@.len() == 0 ==> read is None,
{
    text::lemma_decimal_spells(n as nat);
    text::lemma_decimal_digit_by_digit(n as nat);
    text::lemma_port_reads_back(port);
    text::lemma_port_in_full(s@);
    proxy::lemma_address_in_full(host@, port);
}

/// Where a text is cut, what is left is the beginning or the end of it that was
/// asked for.
pub proof fn law_cuts(
    s: &str,
    c: char,
    head: &str,
    tail: &str,
    stem: &str,
    start: Seq<char>,
    end: Seq<char>,
)
    requires
        call_ensures(text::part_before, (s, c), head),
        call_ensures(text::part_after_last, (s, c), tail),
        call_ensures(text::trim_trailing, (s, c), stem),
    ensures
        s@ == start + seq![c] + end && !start.contains(c) ==> head@ == start,
        !s@.contains(c) ==> head@ == s@ && tail@ == s@ && stem@ == s@,
        s@ == start + seq![c] + end && !end.contains(c) ==> tail@ == end,
        stem@.len() <= s@.len(),
        stem@ == s@.take(stem@.len() as int),
        forall|i: int| stem@.len() <= i < s@.len() ==> #[trigger] s@[i] == c,
        stem@.len() > 0 ==> stem@.last() != c,
{
    text::lemma_without_trailing_in_full(s@, c);
    if s@ == start + seq![c] + end && !start.contains(c) {
        text::lemma_before_of(start, c, end);
    }
    if s@ == start + seq![c] + end && !end.contains(c) {
        text::lemma_after_last_of(start, c, end);
    }
    if !s@.contains(c) {
        text::lemma_before_without(s@, c);
        text::lemma_after_last_without(s@, c);
        if stem@.len() < s@.len() {
            assert(s@[stem@.len() as int] == c);
        }
        assert(s@.take(s@.len() as int) == s@);
    }
}

/// Two texts are in order by their first difference, and a shorter one comes
/// before what continues it.
pub proof fn law_order(a: &str, b: &str, result: bool, n: int, equal: bool)
    requires
        call_ensures(text::comes_no_later, (a, b), result),
        call_ensures(text::same, (a, b), equal),
        0 <= n <= a@.len(),
        n <= b@.len(),
        forall|j: int| 0 <= j < n ==> a@[j] == b@[j],
    ensures
        n == a@.len() ==> result,
        n == b@.len() && n < a@.len() ==> !result,
        n < a@.len() && n < b@.len() && a@[n] != b@[n] ==> result == ((a@[n] as int) < (
        b@[n] as int)),
        equal <==> a@ == b@,
{
    text::lemma_order_by_first_difference(a@, b@, n);
}

/// White space is taken off both ends of a text and nowhere else; a text of
/// nothing else is blank; and a long text is shortened to what fits, with an
/// ellipsis.
pub proof fn law_white_space(
    s: &str,
    blank: bool,
    part: &str,
    max_len: usize,
    short: String,
    padded: String,
) -> (bounds: (int, int))
    requires
        call_ensures(unicode::is_blank, (s,), blank),
        call_ensures(unicode::trim, (s,), part),
        call_ensures(unicode::truncate_str, (s, max_len), short),
        call_ensures(text::pad_right, (s, max_len), padded),
    ensures
        blank <==> forall|i: int| 0 <= i < s@.len() ==> unicode::white_space(#[trigger] s@[i]),
        0 <= bounds.0 <= bounds.1 <= s@.len(),
        part@ == s@.subrange(bounds.0, bounds.1),
        forall|i: int|
            0 <= i < bounds.0 || bounds.1 <= i < s@.len() ==> unicode::white_space(
                #[trigger] s@[i],
            ),
        bounds.0 < bounds.1 ==> !unicode::white_space(s@[bounds.0]) && !unicode::white_space(
            s@[bounds.1 - 1],
        ),
        unicode::byte_len(s@) <= max_len ==> short@ == s@,
        padded@.len() == (if s@.len() >= max_len {
            s@.len() as int
        } else {
            max_len as int
        }),
        padded@.take(s@.len() as int) == s@,
        forall|i: int| s@.len() <= i < padded@.len() ==> #[trigger] padded@[i] == ' ',
{
    unicode::lemma_blank_in_full(s@);
    unicode::lemma_shortening_in_full(s@, max_len as int, 0);
    text::lemma_padded_in_full(s@, max_len as nat);
    unicode::lemma_trimmed_in_full(s@)
}

// ---------------------------------------------------------------------------
// The client.
// ---------------------------------------------------------------------------

/// Each command asks for its own page, at its own path, with the key of the API.
pub proof fn law_commands(
    command: vela_ctl::Command,
    chosen: Result<vela_ctl::Page, String>,
    base: &str,
    page: &vela_ctl::Page,
    url: String,
    key: &str,
    value: String,
)
    requires
        call_ensures(vela_ctl::choose_page, (command,), chosen),
        call_ensures(vela_ctl::page_url, (base, page), url),
        call_ensures(vela_ctl::authorization_value, (key,), value),
    ensures
        command is Status ==> chosen == Ok::<vela_ctl::Page, String>(vela_ctl::Page::Status),
        command matches vela_ctl::Command::Services { id, resource } ==> {
            &&& id is None ==> chosen == Ok::<vela_ctl::Page, String>(vela_ctl::Page::Status)
            &&& id is Some && resource is None ==> chosen == Ok::<vela_ctl::Page, String>(
                vela_ctl::Page::Detail(id->0),
            )
            &&& id is Some && resource is Some && resource->0@ == "checks"@ ==> chosen == Ok::<
                vela_ctl::Page,
                String,
            >(vela_ctl::Page::Checks(id->0))
            &&& id is Some && resource is Some && resource->0@ == "alerts"@ ==> chosen == Ok::<
                vela_ctl::Page,
                String,
            >(vela_ctl::Page::Alerts(id->0))
            &&& id is Some && resource is Some && resource->0@ == "restarts"@ ==> chosen == Ok::<
                vela_ctl::Page,
                String,
            >(vela_ctl::Page::Restarts(id->0))
            &&& id is Some && resource is Some && resource->0@ != "checks"@ && resource->0@
                != "alerts"@ && resource->0@ != "restarts"@ ==> chosen is Err
        },
        *page is Status ==> url@ == base@ + "/api/v1/status"@,
        *page matches vela_ctl::Page::Detail(id) ==> url@ == base@ + ("/api/v1/services/"@ + id@),
        *page matches vela_ctl::Page::Checks(id) ==> url@ == base@ + ("/api/v1/services/"@ + id@
            + "/checks"@),
        *page matches vela_ctl::Page::Alerts(id) ==> url@ == base@ + ("/api/v1/services/"@ + id@
            + "/alerts"@),
        *page matches vela_ctl::Page::Restarts(id) ==> url@ == base@ + ("/api/v1/services/"@ + id@
            + "/restarts"@),
        value@ == "Bearer "@ + key@,
{
    vela_ctl::lemma_pages_in_full(command);
    vela_ctl::lemma_paths_in_full(*page);
}

/// Where the API is and which key it has: the flag decides before the environment.
/// Slashes at the end of the address are dropped, and a blank key is none.
pub proof fn law_settings(
    flag: Option<String>,
    env: Option<String>,
    given: Seq<char>,
    url: String,
    key: Option<String>,
)
    requires
        call_ensures(vela_ctl::base_url, (flag, env), url),
        call_ensures(vela_ctl::api_key, (flag, env), key),
        flag is Some ==> given == flag->0@,
        flag is None && env is Some ==> given == env->0@,
        flag is None && env is None ==> given == "http://127.0.0.1:7700"@,
    ensures
        url@.len() <= given.len(),
        url@ == given.take(url@.len() as int),
        forall|k: int| url@.len() <= k < given.len() ==> #[trigger] given[k] == '/',
        url@.len() > 0 ==> url@.last() != '/',
        key is Some ==> key == (if flag is Some {
            flag
        } else {
            env
        }),
        flag is None && env is None ==> key is None,
        flag is Some ==> (key is None <==> forall|k: int|
            0 <= k < flag->0@.len() ==> unicode::white_space(#[trigger] flag->0@[k])),
        flag is None && env is Some ==> (key is None <==> forall|k: int|
            0 <= k < env->0@.len() ==> unicode::white_space(#[trigger] env->0@[k])),
{
    vela_ctl::lemma_base_url_in_full(flag, env, given);
}

/// What was fetched is handed on exactly where the API answers with success and
/// has data.
pub proof fn law_fetching<T>(
    fetched: vela_ctl::Fetched<T>,
    base: &str,
    asked: Option<&str>,
    result: Result<T, String>,
)
    requires
        call_ensures(vela_ctl::get_json::<T>, (fetched, base, asked), result),
    ensures
        result is Ok <==> (fetched matches vela_ctl::Fetched::Answered { status, body } && 200
            <= status <= 299 && body is Ok && body->Ok_0.ok && body->Ok_0.data is Some),
        result matches Ok(data) ==> (fetched matches vela_ctl::Fetched::Answered { status, body }
            && body->Ok_0.data == Some(data)),
        fetched is Unreachable ==> (result matches Err(words) && words@ == "Cannot reach Vela at "@
            + base@ + ". Is it running?"@),
        fetched matches vela_ctl::Fetched::Answered { status, body } ==> (status == 401 ==> (result
            matches Err(words) && words@ == "Authentication failed. Check your API key."@)),
{
    vela_ctl::lemma_fetching_in_full(
        fetched,
        base@,
        match asked {
            Some(id) => Some(id@),
            None => None,
        },
    );
}

/// How a status looks, and how a long text is clipped.
pub proof fn law_looks(
    status: &str,
    shown: vela_ctl::Span,
    style: vela_ctl::Style,
    s: &str,
    max: usize,
    clipped: String,
    time: Option<Timestamp>,
    when: String,
)
    requires
        call_ensures(vela_ctl::status_display, (status,), shown),
        call_ensures(vela_ctl::colorize, (status,), style),
        call_ensures(vela_ctl::truncate, (s, max), clipped),
        call_ensures(vela_ctl::fmt_time, (time,), when),
    ensures
        shown.style == style,
        status@ == "Healthy"@ ==> style == vela_ctl::Style::Green && shown.text@ == "●"@ + " "@
            + "Healthy"@,
        status@ == "Degraded"@ ==> style == vela_ctl::Style::Yellow && shown.text@ == "◐"@ + " "@
            + "Degraded"@,
        status@ == "Failed"@ ==> style == vela_ctl::Style::Red && shown.text@ == "✗"@ + " "@
            + "Failed"@,
        status@ != "Healthy"@ && status@ != "Degraded"@ && status@ != "Failed"@ ==> style
            == vela_ctl::Style::Grey && shown.text@ == "○"@ + " "@ + "Unknown"@,
        s@.len() <= max ==> clipped@ == s@,
        s@.len() > max > 0 ==> clipped@ == s@.take(max - 1) + "…"@,
        time is None ==> when@ == "never"@,
        time matches Some(at) ==> crate::clock::is_local_time(at, when@),
{
    vela_ctl::lemma_status_looks_in_full(status@);
    vela_ctl::lemma_clipping_in_full(s@, max as nat);
    vela_ctl::lemma_times_in_full(time, when@);
}

/// The status page shows each count in the style of its status, and then every
/// service of the answer.
pub proof fn law_status_page(
    response: vela_ctl::StatusResponse,
    lines: Vec<vela_ctl::Line>,
    i: int,
)
    requires
        call_ensures(vela_ctl::run_status, (response,), lines),
        0 <= i < response.services@.len(),
    ensures
        ({
            let page = vela_ctl::line_views(lines@);
            &&& lines@.len() == 3 + response.services@.len()
            &&& page[0][0] == (
                vela_ctl::Style::Green,
                text::decimal(response.healthy_count as nat),
            )
            &&& page[0][2] == (
                vela_ctl::Style::Yellow,
                text::decimal(response.degraded_count as nat),
            )
            &&& page[0][4] == (vela_ctl::Style::Red, text::decimal(response.failed_count as nat))
            &&& page[0][6] == (vela_ctl::Style::Grey, text::decimal(response.unknown_count as nat))
            &&& page[0][7].1 == " unknown  ("@ + text::decimal(response.total_services as nat)
                + " total)"@
            &&& exists|k: int, time: Seq<char>|
                3 <= k < page.len() && vela_ctl::is_time(
                    response.services@[i].last_checked_at,
                    time,
                ) && #[trigger] page[k] == #[trigger] vela_ctl::status_row(
                    response.services@[i],
                    time,
                )
        }),
{
    let page = vela_ctl::line_views(lines@);
    vela_ctl::lemma_status_page_in_full(page, response, i);
    vela_ctl::lemma_count_line_in_full(
        response.healthy_count as nat,
        response.degraded_count as nat,
        response.failed_count as nat,
        response.unknown_count as nat,
        response.total_services as nat,
    );
}

/// A history shows the latest records first, each with its own time, and of an
/// empty one that there is none.
pub proof fn law_histories(
    id: &str,
    checks: &Vec<vela_ctl::HealthCheckRecord>,
    check_lines: Vec<vela_ctl::Line>,
    alerts: &Vec<vela_ctl::AlertRecord>,
    alert_lines: Vec<vela_ctl::Line>,
    restarts: &Vec<vela_ctl::RestartRecord>,
    restart_lines: Vec<vela_ctl::Line>,
    i: int,
)
    requires
        call_ensures(vela_ctl::run_checks, (checks, id), check_lines),
        call_ensures(vela_ctl::run_alerts, (alerts, id), alert_lines),
        call_ensures(vela_ctl::run_restarts, (restarts, id), restart_lines),
        i >= 0,
    ensures
        checks@.len() > 0 ==> check_lines@.len() == 2 + (if checks@.len() <= 15 {
            checks@.len() as int
        } else {
            15
        }),
        i < checks@.len() && i < 15 ==> exists|time: Seq<char>|
            crate::clock::is_local_time(checks@[checks@.len() - 1 - i].checked_at, time)
                && vela_ctl::line_views(check_lines@)[2 + i] == #[trigger] vela_ctl::check_row(
                checks@[checks@.len() - 1 - i],
                time,
            ),
        alerts@.len() > 0 ==> alert_lines@.len() == 2 + (if alerts@.len() <= 10 {
            alerts@.len() as int
        } else {
            10
        }),
        i < alerts@.len() && i < 10 ==> exists|time: Seq<char>|
            crate::clock::is_local_time(alerts@[alerts@.len() - 1 - i].sent_at, time)
                && vela_ctl::line_views(alert_lines@)[2 + i] == #[trigger] vela_ctl::alert_row(
                alerts@[alerts@.len() - 1 - i],
                time,
            ),
        restarts@.len() > 0 ==> restart_lines@.len() == 2 + (if restarts@.len() <= 10 {
            restarts@.len() as int
        } else {
            10
        }),
        i < restarts@.len() && i < 10 ==> exists|time: Seq<char>|
            crate::clock::is_local_time(restarts@[restarts@.len() - 1 - i].attempted_at, time)
                && vela_ctl::line_views(restart_lines@)[2 + i] == #[trigger] vela_ctl::restart_row(
                restarts@[restarts@.len() - 1 - i],
                time,
            ),
{
    let check_times = choose|times: Seq<Seq<char>>| #[trigger]
        vela_ctl::are_times(vela_ctl::check_stamps(checks@), times) && vela_ctl::line_views(
            check_lines@,
        ) == vela_ctl::checks_page(checks@, id@, times);
    let alert_times = choose|times: Seq<Seq<char>>| #[trigger]
        vela_ctl::are_times(vela_ctl::alert_stamps(alerts@), times) && vela_ctl::line_views(
            alert_lines@,
        ) == vela_ctl::alerts_page(alerts@, id@, times);
    let restart_times = choose|times: Seq<Seq<char>>| #[trigger]
        vela_ctl::are_times(vela_ctl::restart_stamps(restarts@), times) && vela_ctl::line_views(
            restart_lines@,
        ) == vela_ctl::restarts_page(restarts@, id@, times);
    vela_ctl::lemma_history_in_full(id@, check_times, checks@, alerts@, restarts@, i);
    vela_ctl::lemma_history_in_full(id@, alert_times, checks@, alerts@, restarts@, i);
    vela_ctl::lemma_history_in_full(id@, restart_times, checks@, alerts@, restarts@, i);
    assert(vela_ctl::line_views(check_lines@).len() == check_lines@.len());
    assert(vela_ctl::line_views(alert_lines@).len() == alert_lines@.len());
    assert(vela_ctl::line_views(restart_lines@).len() == restart_lines@.len());
    if i < checks@.len() && i < 15 {
        assert(crate::clock::is_local_time(vela_ctl::check_stamps(checks@)[i], check_times[i]));
    }
    if i < alerts@.len() && i < 10 {
        assert(crate::clock::is_local_time(vela_ctl::alert_stamps(alerts@)[i], alert_times[i]));
    }
    if i < restarts@.len() && i < 10 {
        assert(crate::clock::is_local_time(
            vela_ctl::restart_stamps(restarts@)[i],
            restart_times[i],
        ));
    }
}

/// The heads of the pages name their columns, each over its own, and a rule of the
/// width of the page parts them from what follows.
pub proof fn law_heads(
    healthy: usize,
    degraded: usize,
    failed: usize,
    unknown: usize,
    total: usize,
    services: &Vec<vela_ctl::ServiceSummary>,
    times: &Vec<String>,
    status: Vec<vela_ctl::Line>,
    id: &str,
    checks: &Vec<vela_ctl::HealthCheckRecord>,
    check_lines: Vec<vela_ctl::Line>,
    alerts: &Vec<vela_ctl::AlertRecord>,
    alert_lines: Vec<vela_ctl::Line>,
    restarts: &Vec<vela_ctl::RestartRecord>,
    restart_lines: Vec<vela_ctl::Line>,
)
    requires
        call_ensures(
            vela_ctl::layout_status,
            (healthy, degraded, failed, unknown, total, services, times),
            status,
        ),
        call_ensures(vela_ctl::layout_checks, (checks, id, times), check_lines),
        call_ensures(vela_ctl::layout_alerts, (alerts, id, times), alert_lines),
        call_ensures(vela_ctl::layout_restarts, (restarts, id, times), restart_lines),
    ensures
        ({
            let page = vela_ctl::line_views(status@);
            let check_page = vela_ctl::line_views(check_lines@);
            let alert_page = vela_ctl::line_views(alert_lines@);
            let restart_page = vela_ctl::line_views(restart_lines@);
            let parted = seq![(vela_ctl::Style::Plain, text::repeated('─', 88))];
            &&& page.len() == 3 + services@.len()
            &&& page[1] == parted
            &&& page[2] == seq![
                (
                    vela_ctl::Style::Plain,
                    text::padded("SERVICE"@, 24) + " "@ + text::padded("STATUS"@, 14) + " "@
                        + text::padded("FAILURES"@, 10) + " "@ + text::padded("RESTARTS"@, 10)
                        + " LAST CHECK"@,
                ),
            ]
            &&& forall|i: int|
                0 <= i < services@.len() ==> page[3 + i] == #[trigger] vela_ctl::status_row(
                    services@[i],
                    times@[i]@,
                )
            &&& checks@.len() > 0 ==> check_page[1] == parted && check_page[0] == seq![
                (
                    vela_ctl::Style::Plain,
                    text::padded("TIMESTAMP"@, 22) + " "@ + text::padded("RESULT"@, 12) + " "@
                        + text::padded("LATENCY"@, 10) + " ERROR"@,
                ),
            ]
            &&& alerts@.len() > 0 ==> alert_page[1] == parted && alert_page[0] == seq![
                (
                    vela_ctl::Style::Plain,
                    text::padded("TIMESTAMP"@, 22) + " "@ + text::padded("TRANSITION"@, 20) + " "@
                        + text::padded("KIND"@, 10) + " STATUS"@,
                ),
            ]
            &&& restarts@.len() > 0 ==> restart_page[1] == seq![
                (vela_ctl::Style::Plain, text::repeated('─', 60)),
            ] && restart_page[0] == seq![
                (
                    vela_ctl::Style::Plain,
                    text::padded("TIMESTAMP"@, 22) + " "@ + text::padded("ATTEMPT #"@, 10)
                        + " OUTCOME"@,
                ),
            ]
        }),
{
}

/// Each row of a history that is laid out shows one record, the latest first, with
/// the time that stands for it; and the page of a service shows what is known of
/// it.
pub proof fn law_rows(
    id: &str,
    times: &Vec<String>,
    checks: &Vec<vela_ctl::HealthCheckRecord>,
    check_lines: Vec<vela_ctl::Line>,
    alerts: &Vec<vela_ctl::AlertRecord>,
    alert_lines: Vec<vela_ctl::Line>,
    restarts: &Vec<vela_ctl::RestartRecord>,
    restart_lines: Vec<vela_ctl::Line>,
    i: int,
    svc: &vela_ctl::ServiceSummary,
    checked: &str,
    succeeded: &str,
    detail: Vec<vela_ctl::Line>,
)
    requires
        call_ensures(vela_ctl::layout_checks, (checks, id, times), check_lines),
        call_ensures(vela_ctl::layout_alerts, (alerts, id, times), alert_lines),
        call_ensures(vela_ctl::layout_restarts, (restarts, id, times), restart_lines),
        call_ensures(vela_ctl::layout_detail, (svc, checked, succeeded), detail),
        0 <= i < times@.len(),
    ensures
        i < checks@.len() && i < 15 ==> vela_ctl::line_views(check_lines@)[2 + i]
            == vela_ctl::check_row(checks@[checks@.len() - 1 - i], times@[i]@),
        i < alerts@.len() && i < 10 ==> vela_ctl::line_views(alert_lines@)[2 + i]
            == vela_ctl::alert_row(alerts@[alerts@.len() - 1 - i], times@[i]@),
        i < restarts@.len() && i < 10 ==> vela_ctl::line_views(restart_lines@)[2 + i]
            == vela_ctl::restart_row(restarts@[restarts@.len() - 1 - i], times@[i]@),
        ({
            let page = vela_ctl::line_views(detail@);
            &&& detail@.len() == 8
            &&& page[0] == seq![(vela_ctl::Style::Bold, svc.service_name@)]
            &&& page[1] == seq![(vela_ctl::Style::Plain, text::repeated('─', 50))]
            &&& page[2] == seq![
                (vela_ctl::Style::Plain, text::padded("Service ID:"@, 22) + " "@ + svc.service_id@),
            ]
            &&& page[4] == seq![
                (
                    vela_ctl::Style::Plain,
                    text::padded("Consecutive failures:"@, 22) + " "@ + text::decimal(
                        svc.consecutive_failures as nat,
                    ),
                ),
            ]
            &&& page[5] == seq![
                (
                    vela_ctl::Style::Plain,
                    text::padded("Restart count:"@, 22) + " "@ + text::decimal(
                        svc.restart_count as nat,
                    ),
                ),
            ]
            &&& page[6] == seq![
                (vela_ctl::Style::Plain, text::padded("Last checked:"@, 22) + " "@ + checked@),
            ]
            &&& page[7] == seq![
                (vela_ctl::Style::Plain, text::padded("Last success:"@, 22) + " "@ + succeeded@),
            ]
        }),
{
    let shown = vela_ctl::views(times@);
    assert(shown[i] == times@[i]@);
    vela_ctl::lemma_history_in_full(id@, shown, checks@, alerts@, restarts@, i);
    vela_ctl::lemma_detail_page_in_full(*svc, checked@, succeeded@);
    assert(vela_ctl::line_views(detail@).len() == detail@.len());
}

/// The page of one service that was fetched shows it with the times of its last
/// check and of its last success, each on its own line.
pub proof fn law_detail(svc: &vela_ctl::ServiceSummary, lines: Vec<vela_ctl::Line>)
    requires
        call_ensures(vela_ctl::run_service_detail, (svc,), lines),
    ensures
        vela_ctl::line_views(lines@).len() == 8,
        vela_ctl::line_views(lines@)[0] == seq![(vela_ctl::Style::Bold, svc.service_name@)],
        exists|time: Seq<char>| #[trigger]
            vela_ctl::is_time(svc.last_checked_at, time) && vela_ctl::line_views(lines@)[6] == seq![
                (vela_ctl::Style::Plain, text::padded("Last checked:"@, 22) + " "@ + time),
            ],
        exists|time: Seq<char>| #[trigger]
            vela_ctl::is_time(svc.last_ok_at, time) && vela_ctl::line_views(lines@)[7] == seq![
                (vela_ctl::Style::Plain, text::padded("Last success:"@, 22) + " "@ + time),
            ],
{
    let (checked, succeeded) = choose|checked: Seq<char>, succeeded: Seq<char>|
        vela_ctl::is_time(svc.last_checked_at, checked) && vela_ctl::is_time(
            svc.last_ok_at,
            succeeded,
        ) && vela_ctl::line_views(lines@) == #[trigger] vela_ctl::detail_page(
            *svc,
            checked,
            succeeded,
        );
    vela_ctl::lemma_detail_page_in_full(*svc, checked, succeeded);
}

/// The pieces of the pages: a column is padded before it is styled, a plain line is
/// written as it is, and the messages say what they say.
pub proof fn law_pieces(
    words: &str,
    width: usize,
    style: vela_ctl::Style,
    column: vela_ctl::Span,
    look: (&'static str, &'static str),
    padded: vela_ctl::Span,
    line: &vela_ctl::Line,
    out: String,
    complaint: vela_ctl::Line,
    no_client: String,
)
    requires
        call_ensures(vela_ctl::pad_then_color, (words, width, style), column),
        call_ensures(vela_ctl::status_symbol_label, (words,), look),
        call_ensures(vela_ctl::status_display_padded, (words, width), padded),
        call_ensures(vela_ctl::render, (line,), out),
        call_ensures(vela_ctl::error_line, (words,), complaint),
        call_ensures(vela_ctl::no_client_message, (words,), no_client),
    ensures
        column.style == style,
        column.text@ == text::padded(words@, width as nat),
        look.0@ == "●"@ && look.1@ == "Healthy"@ || words@ != "Healthy"@,
        look.0@ == "◐"@ && look.1@ == "Degraded"@ || words@ != "Degraded"@,
        look.0@ == "✗"@ && look.1@ == "Failed"@ || words@ != "Failed"@,
        look.0@ == "○"@ && look.1@ == "Unknown"@ || words@ == "Healthy"@ || words@ == "Degraded"@
            || words@ == "Failed"@,
        padded.text@ == text::padded(look.0@ + " "@ + look.1@, width as nat),
        (forall|i: int| 0 <= i < line@.len() ==> (#[trigger] line@[i]).0 == vela_ctl::Style::Plain)
            ==> out@ == vela_ctl::plain_text(line@),
        complaint@ == seq![
            (vela_ctl::Style::RedBold, "Error:"@),
            (vela_ctl::Style::Plain, " "@ + words@),
        ],
        no_client@ == "failed to build HTTP client: "@ + words@,
{
    vela_ctl::lemma_status_looks_in_full(words@);
    if forall|i: int|
        0 <= i < line@.len() ==> (#[trigger] line@[i]).0 == vela_ctl::Style::Plain {
        vela_ctl::lemma_plain_lines_are_written_as_they_are(out@, line@);
    }
}

// ---------------------------------------------------------------------------
// The smallest parts.
// ---------------------------------------------------------------------------

/// A point in time counts nanoseconds: its parts make it up, an earlier one comes
/// before it, and the time since is counted in whole seconds.
pub proof fn law_time(
    secs: i64,
    nanos: u32,
    made: Option<Timestamp>,
    a: Timestamp,
    b: Timestamp,
    parts: (i64, u32),
    before: bool,
    since: u64,
)
    requires
        call_ensures(Timestamp::new, (secs, nanos), made),
        call_ensures(Timestamp::parts, (a,), parts),
        call_ensures(Timestamp::is_no_later, (a, b), before),
        call_ensures(Timestamp::seconds_since, (b, a), since),
    ensures
        made matches Some(t) ==> t@ == secs * 1_000_000_000 + nanos && nanos < 1_000_000_000,
        0 <= secs <= 8210266876799 && nanos < 1_000_000_000 ==> made is Some,
        a@ == parts.0 * 1_000_000_000 + parts.1,
        parts.1 < 1_000_000_000,
        before <==> a@ <= b@,
        before ==> since * 1_000_000_000 <= b@ - a@ < (since + 1) * 1_000_000_000,
{
    crate::clock::lemma_elapsed_counts_whole_seconds(a, b);
}

/// A table gives back what was put under a key last, and keeps what is under the
/// other keys.
pub proof fn law_tables<V>(
    fresh: Table<V>,
    table: &mut Table<V>,
    key: String,
    value: V,
    later: &Table<V>,
    asked: &str,
    there: bool,
    found: Option<&V>,
    other: Seq<char>,
)
    requires
        call_ensures(Table::<V>::new, (), fresh),
        call_ensures(Table::<V>::insert, (table, key, value), ()),
        call_ensures(Table::<V>::contains, (later, asked), there),
        call_ensures(Table::<V>::get, (later, asked), found),
    ensures
        !fresh@.dom().contains(other),
        later@ == final(table)@ && asked@ == key@ ==> there && found == Some(&value),
        later@ == final(table)@ && asked@ != key@ ==> (there <==> old(table)@.dom().contains(
            asked@,
        )) && (there ==> found == Some(&old(table)@[asked@])),
        found is Some <==> there,
{
}

/// Sorting keeps every item and puts them in the order of their keys.
pub proof fn law_sorting<T: Keyed>(items: Vec<T>, sorted: Vec<T>, i: int)
    requires
        call_ensures(sorting::sort::<T>, (items,), sorted),
        0 <= i < items@.len(),
    ensures
        sorted@.len() == items@.len(),
        sorted@.contains(items@[i]),
        items@.contains(sorted@[i]),
        forall|k: int, l: int|
            0 <= k < l < sorted@.len() ==> text::no_later(
                (#[trigger] sorted@[k]).key(),
                (#[trigger] sorted@[l]).key(),
            ),
{
    sorting::lemma_sorting_in_full(sorted@, items@, i);
}

/// What a configuration has where it says nothing.
pub proof fn law_defaults(
    api_port: u16,
    log_dir: String,
    interval: u64,
    threshold: u32,
    restarts: u32,
    timeout: u64,
    enabled: bool,
)
    requires
        call_ensures(models::default_api_port, (), api_port),
        call_ensures(models::default_log_dir, (), log_dir),
        call_ensures(models::default_check_interval, (), interval),
        call_ensures(models::default_failure_threshold, (), threshold),
        call_ensures(models::default_max_restarts, (), restarts),
        call_ensures(models::default_timeout_ms, (), timeout),
        call_ensures(models::default_true, (), enabled),
    ensures
        api_port == 7700,
        log_dir@ == "/var/log/vela"@,
        interval == 10,
        threshold == 3,
        restarts == 5,
        timeout == 5000,
        enabled,
{
}

/// What is new is empty of everything but what it is made of: a listener, an
/// instance, a service, an envelope and a refusal.
pub proof fn law_beginnings(
    listener: ListenerState,
    host: String,
    port: u16,
    instance: UpstreamState,
    id: String,
    service: models::ServiceState,
    data: bool,
    envelope: ApiResponse<bool>,
    words: &str,
    refusal: models::ApiError,
)
    requires
        call_ensures(ListenerState::new, (), listener),
        call_ensures(UpstreamState::initial, (host, port), instance),
        call_ensures(models::ServiceState::initial, (id,), service),
        call_ensures(ApiResponse::<bool>::success, (data,), envelope),
        call_ensures(models::ApiError::new, (words,), refusal),
    ensures
        listener.turn == 0 && listener.active == 0 && !listener.draining,
        instance.host == host && instance.port == port,
        instance.status == ServiceStatus::Unknown,
        instance.consecutive_failures == 0,
        instance.last_checked_at is None && instance.last_ok_at is None && instance.latency_ms
            is None,
        service.service_id == id,
        service.status == ServiceStatus::Unknown,
        service.consecutive_failures == 0 && service.restart_count == 0 && !service.is_recovering,
        service.last_checked_at is None && service.last_ok_at is None,
        envelope.ok && envelope.version@ == "1"@ && envelope.data == data,
        !refusal.ok && refusal.version@ == "1"@ && refusal.error@ == words@,
{
}

/// Each failure outside the library becomes an error that says what failed and
/// why.
pub proof fn law_outside_failures(
    path: &str,
    detail: &str,
    unreadable: VelaError,
    malformed: VelaError,
    connect: VelaError,
    ping: VelaError,
    inspect: VelaError,
    client: VelaError,
)
    requires
        call_ensures(config::unreadable_error, (path, detail), unreadable),
        call_ensures(config::malformed_error, (detail,), malformed),
        call_ensures(docker_engine::connect_error, (detail,), connect),
        call_ensures(docker_engine::ping_error, (detail,), ping),
        call_ensures(docker_engine::inspect_error, (path, detail), inspect),
        call_ensures(alert::client_error, (detail,), client),
    ensures
        unreadable matches VelaError::ConfigParse(words) && words@
            == "Cannot read config file at '"@ + path@ + "': "@ + detail@,
        malformed matches VelaError::ConfigParse(words) && words@ == detail@,
        connect is ProcessError,
        ping matches VelaError::ProcessError(words) && words@
            == "Docker daemon did not respond to ping: "@ + detail@
            + ". Is the Docker daemon running?"@,
        inspect matches VelaError::ProcessError(words) && words@
            == "Failed to inspect container '"@ + path@ + "': "@ + detail@,
        client matches VelaError::AlertDeliveryFailed { kind, reason } && kind@ == "init"@
            && reason@ == "Failed to build HTTP client: "@ + detail@,
{
}

/// A status code is one of success from 200 to 299; a dispatch comes to each of its
/// destinations in turn; and the instances that are read are those that the store
/// holds.
pub proof fn law_turns_of_a_dispatch(
    code: u16,
    success: bool,
    dispatch: &Dispatch,
    count: usize,
    target: &AlertTargetConfig,
    delivery: &Delivery,
    store: &VelaState,
    upstreams: Table<Vec<UpstreamState>>,
    id: Seq<char>,
)
    requires
        call_ensures(health::status_is_success, (code,), success),
        call_ensures(Dispatch::count, (dispatch,), count),
        call_ensures(Dispatch::target, (dispatch,), target),
        call_ensures(Dispatch::delivery, (dispatch,), delivery),
        call_ensures(VelaState::snapshot_upstream_states, (store,), upstreams),
    ensures
        success <==> 200 <= code <= 299,
        count == dispatch.targets().len(),
        dispatch.sent() < count,
        *target == dispatch.targets()[dispatch.sent() as int],
        *delivery is Log <==> target.kind == AlertKind::Log,
        upstreams@.dom().contains(id) <==> store.inner.upstream_states@.dom().contains(id),
        upstreams@.dom().contains(id) ==> upstreams@[id]@ == store.inner.upstream_states@[id]@,
{
    health::lemma_success_codes(code);
    alert::lemma_delivery_in_full(*delivery, dispatch.event(), *target);
}

/// A URL is judged by what it says of its scheme and its host, and a webhook with
/// it is told of the event there, without the white space around it.
pub proof fn law_webhooks_by_their_urls(
    url: &str,
    judged: Result<(), String>,
    event: &StatusChangeEvent,
    target: &AlertTargetConfig,
    delivery: Delivery,
)
    requires
        call_ensures(alert::validate_webhook_url, (url,), judged),
        call_ensures(alert::deliver_webhook, (event, target), delivery),
    ensures
        judged is Ok <==> (alert::parsed_url(url@) matches Ok((scheme, host)) && (scheme
            == "https"@ || (scheme == "http"@ && host is Some && (host->0 == "localhost"@ || host->0
            == "127.0.0.1"@ || host->0 == "::1"@)))),
        delivery is NoEndpoint <==> (target.endpoint is None || forall|k: int|
            0 <= k < target.endpoint->0@.len() ==> unicode::white_space(
                #[trigger] target.endpoint->0@[k],
            )),
        delivery matches Delivery::Post { endpoint, payload } ==> endpoint@ == unicode::trimmed(
            target.endpoint->0@,
        ) && payload.event.service_id@ == event.service_id@ && payload.event.status_to@
            == event.new_status.name(),
        target.endpoint is Some && unicode::trimmed(target.endpoint->0@) == url@ && judged is Ok
            && !(delivery is NoEndpoint) ==> delivery is Post,
        target.endpoint is Some && unicode::trimmed(target.endpoint->0@) == url@ && judged is Err
            ==> !(delivery is Post),
{
    let parts = alert::parsed_url(alert::url_of(target.endpoint));
    alert::lemma_webhook_rule_in_full(alert::parsed_url(url@));
    alert::lemma_webhook_delivery_in_full(delivery, *event, target.endpoint, parts);
}

/// A repeated character, a number with its sign and the characters of a text.
pub proof fn law_small_texts(
    piece: &str,
    n: usize,
    repeated: String,
    number: i32,
    signed: String,
    chars: Vec<char>,
    i: int,
)
    requires
        call_ensures(text::repeat, (piece, n), repeated),
        call_ensures(text::signed_decimal_text, (number,), signed),
        call_ensures(text::characters, (piece,), chars),
    ensures
        repeated@.len() == n,
        0 <= i < n ==> repeated@[i] == piece@[0],
        number >= 0 ==> text::digits_value(signed@) == Some(number as nat),
        number < 0 ==> signed@ == "-"@ + text::decimal((-number) as nat),
        chars@ == piece@,
{
    text::lemma_repeated_in_full(piece@[0], n as nat);
    text::lemma_signed_decimal_in_full(number as int);
}

/// An item is put into an ordered list at a place where the list stays ordered,
/// and all other items keep their order.
pub proof fn law_insertion<T: Keyed>(items: &mut Vec<T>, item: T, at: usize)
    requires
        call_ensures(sorting::insert_in_order::<T>, (items, item), at),
        old(items)@.len() < usize::MAX,
    ensures
        final(items)@.len() == old(items)@.len() + 1,
        final(items)@[at as int] == item,
        forall|j: int| 0 <= j < at ==> #[trigger] final(items)@[j] == old(items)@[j],
        forall|j: int|
            at < j < final(items)@.len() ==> #[trigger] final(items)@[j] == old(items)@[j - 1],
        forall|k: int, l: int|
            0 <= k < l < final(items)@.len() ==> text::no_later(
                (#[trigger] final(items)@[k]).key(),
                (#[trigger] final(items)@[l]).key(),
            ),
{
}

/// A table is walked in the order in which its keys came, and a value that takes
/// the place of another hands it back.
pub proof fn law_walks<V>(
    table: &Table<V>,
    n: usize,
    i: usize,
    key: &String,
    value: &V,
    changed: &mut Table<V>,
    at: &str,
    new: V,
    previous: V,
    other: Seq<char>,
)
    requires
        call_ensures(Table::<V>::len, (table,), n),
        call_ensures(Table::<V>::key_at, (table, i), key),
        call_ensures(Table::<V>::value_at, (table, i), value),
        call_ensures(Table::<V>::replace, (changed, at, new), previous),
        i < n,
        old(changed)@.dom().contains(at@),
    ensures
        n == table.order().len(),
        table@.dom().contains(key@),
        *value == table@[key@],
        previous == old(changed)@[at@],
        final(changed)@[at@] == new,
        final(changed)@.dom() == old(changed)@.dom(),
        other != at@ ==> final(changed)@[other] == old(changed)@[other],
{
}

/// Of a URL its scheme and its host are shown; of a text that holds no scheme,
/// nothing.
pub proof fn law_shown_urls(
    url: &str,
    shown: String,
    user: Seq<char>,
    port: Seq<char>,
    tail: Seq<char>,
    scheme: Seq<char>,
    host: Seq<char>,
)
    requires
        call_ensures(error::origin_text, (url,), shown),
    ensures
        error::is_made_of(url@, scheme, user, host, port, tail) ==> shown@ == scheme + "://"@
            + host,
        (forall|i: int|
            0 <= i <= url@.len() - 3 ==> #[trigger] url@.subrange(i, i + 3) != "://"@) ==> shown@
            == "(url hidden)"@,
{
    if error::is_made_of(url@, scheme, user, host, port, tail) {
        error::lemma_origin_of(url@, scheme, user, host, port, tail);
    }
    if forall|i: int| 0 <= i <= url@.len() - 3 ==> #[trigger] url@.subrange(i, i + 3) != "://"@ {
        error::lemma_texts_without_scheme_are_hidden(url@);
    }
}

} // verus!
