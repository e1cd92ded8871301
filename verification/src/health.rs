//! The health engine: what each check of an instance consists of, and what its
//! outcome means.
//!
//! An instance that runs in a Docker container is asked for at the Docker
//! daemon first, where there is one: a container that is not running fails the
//! check at once. Otherwise, and after a container was found running, the
//! instance itself has to answer.

use vstd::prelude::*;
use vstd::string::*;

use crate::clock::Timestamp;
use crate::error;
use crate::error::VelaError;
use crate::models::{
    CheckResult, HealthCheckConfig, HealthCheckKind, ServiceConfig, StatusChangeEvent,
    UpstreamConfig,
};
use crate::proxy;
use crate::state::VelaState;
use crate::text;

verus! {

/// What `http::StatusCode` gives as the reason of a status code: its canonical
/// reason, or a remark that it has none.
pub uninterp spec fn status_reason(code: u16) -> Seq<char>;

/// Makes an `http::StatusCode` of a number and writes it out: the number, a
/// space and the reason, which depends on the number alone. Only three-digit
/// numbers are status codes.
#[verifier::external_body]
fn status_code_text(code: u16) -> (result: String)
    requires
        100 <= code <= 999,
    ensures
        result@ == text::decimal(code as nat) + " "@ + status_reason(code),
{
    reqwest::StatusCode::from_u16(code).unwrap().to_string()
}

/// Whether a status code says that a request succeeded.
pub open spec fn is_success(code: u16) -> bool {
    200 <= code < 300
}

/// Whether a status code says that a request succeeded.
pub fn status_is_success(code: u16) -> (result: bool)
    ensures
        result == is_success(code),
{
    200 <= code && code < 300
}

/// How an attempt to connect ended.
#[derive(Debug)]
pub enum TcpEnd {
    /// The connection was accepted.
    Connected,
    /// It was not, for this reason.
    Refused(String),
    /// There was no answer in time.
    TimedOut,
}

/// How an HTTP request ended.
#[derive(Debug)]
pub enum HttpEnd {
    /// The client could not be set up, for this reason.
    NoClient(String),
    /// There was an answer with this status code.
    Answered(u16),
    /// There was none, for this reason.
    Failed(String),
    /// There was none in time.
    TimedOut,
}

/// Why a TCP check failed, if it did.
pub open spec fn tcp_failure(end: TcpEnd, timeout_ms: u64) -> Option<Seq<char>> {
    match end {
        TcpEnd::Connected => None,
        TcpEnd::Refused(detail) => Some("TCP connection refused or reset: "@ + detail@),
        TcpEnd::TimedOut => Some(
            "TCP connection timed out after "@ + text::decimal(timeout_ms as nat) + "ms"@,
        ),
    }
}

/// Why an HTTP check failed, if it did: any answer but a success is a failure.
pub open spec fn http_failure(end: HttpEnd, timeout_ms: u64) -> Option<Seq<char>> {
    match end {
        HttpEnd::NoClient(detail) => Some("Failed to build HTTP client: "@ + detail@),
        HttpEnd::Answered(code) => if is_success(code) {
            None
        } else {
            Some(
                "HTTP check returned non-2xx status: "@ + (text::decimal(code as nat) + " "@
                    + status_reason(code)),
            )
        },
        HttpEnd::Failed(detail) => Some("HTTP request failed: "@ + detail@),
        HttpEnd::TimedOut => Some(
            "HTTP check timed out after "@ + text::decimal(timeout_ms as nat) + "ms"@,
        ),
    }
}

/// Whether `result` is a failed check of `target` for the given reason, or a
/// passed one where there is none.
pub open spec fn is_verdict(
    result: Result<(), VelaError>,
    target: Seq<char>,
    failure: Option<Seq<char>>,
) -> bool {
    match failure {
        None => result is Ok,
        Some(words) => result matches Err(e) && e matches VelaError::HealthCheckFailed {
            service_id,
            reason,
        } && service_id@ == target && reason@ == words,
    }
}

fn check_failed(target: &str, reason: String) -> (result: Result<(), VelaError>)
    ensures
        is_verdict(result, target@, Some(reason@)),
{
    Err(VelaError::HealthCheckFailed { service_id: target.to_owned(), reason })
}

/// What the end of an attempt to connect to `addr` means.
pub fn check_tcp(addr: &str, end: TcpEnd, timeout_ms: u64) -> (result: Result<(), VelaError>)
    ensures
        is_verdict(result, addr@, tcp_failure(end, timeout_ms)),
{
    match end {
        TcpEnd::Connected => Ok(()),
        TcpEnd::Refused(detail) => check_failed(
            addr,
            String::from_str("TCP connection refused or reset: ").concat(detail.as_str()),
        ),
        TcpEnd::TimedOut => check_failed(
            addr,
            String::from_str("TCP connection timed out after ").concat(
                text::decimal_text(timeout_ms).as_str(),
            ).concat("ms"),
        ),
    }
}

/// What the end of an HTTP request to `url` means.
pub fn check_http(url: &str, end: HttpEnd, timeout_ms: u64) -> (result: Result<(), VelaError>)
    requires
        end matches HttpEnd::Answered(code) ==> 100 <= code <= 999,
    ensures
        is_verdict(result, url@, http_failure(end, timeout_ms)),
{
    match end {
        HttpEnd::NoClient(detail) => check_failed(
            url,
            String::from_str("Failed to build HTTP client: ").concat(detail.as_str()),
        ),
        HttpEnd::Answered(code) => {
            if status_is_success(code) {
                Ok(())
            } else {
                check_failed(
                    url,
                    String::from_str("HTTP check returned non-2xx status: ").concat(
                        status_code_text(code).as_str(),
                    ),
                )
            }
        },
        HttpEnd::Failed(detail) => check_failed(
            url,
            String::from_str("HTTP request failed: ").concat(detail.as_str()),
        ),
        HttpEnd::TimedOut => check_failed(
            url,
            String::from_str("HTTP check timed out after ").concat(
                text::decimal_text(timeout_ms).as_str(),
            ).concat("ms"),
        ),
    }
}

/// What to ask of an instance.
#[derive(Debug)]
pub enum Probe {
    /// Connect to this address.
    Tcp(String),
    /// Send a GET request for this URL.
    Http(String),
}

/// Whether `probe` is the one that the configuration asks for.
pub open spec fn is_probe(
    probe: Probe,
    upstream: UpstreamConfig,
    health_check: HealthCheckConfig,
) -> bool {
    match health_check.kind {
        HealthCheckKind::Tcp => probe matches Probe::Tcp(addr) && addr@ == proxy::address(
            upstream.host@,
            upstream.port,
        ),
        HealthCheckKind::Http => probe matches Probe::Http(url) && url@ == "http://"@
            + proxy::address(upstream.host@, upstream.port) + (match health_check.http_path {
            Some(path) => path@,
            None => "/health"@,
        }),
    }
}

fn probe_of(upstream: &UpstreamConfig, health_check: &HealthCheckConfig) -> (probe: Probe)
    ensures
        is_probe(probe, *upstream, *health_check),
{
    let addr = proxy::address_text(upstream.host.as_str(), upstream.port);
    match health_check.kind {
        HealthCheckKind::Tcp => Probe::Tcp(addr),
        HealthCheckKind::Http => {
            let path = match &health_check.http_path {
                Some(path) => path.as_str(),
                None => "/health",
            };
            Probe::Http(String::from_str("http://").concat(addr.as_str()).concat(path))
        },
    }
}

/// What happened in the course of a check.
#[derive(Debug)]
pub enum CheckEvent {
    /// It began, with or without a Docker daemon to ask.
    Begun { docker_available: bool },
    /// The daemon answered whether the container is running.
    DockerAnswered(Result<bool, VelaError>),
    /// The instance was probed.
    Probed(Result<(), VelaError>),
}

/// What comes next in the course of a check.
#[derive(Debug)]
pub enum CheckStep {
    /// Ask the Docker daemon whether this container is running.
    AskDocker(String),
    /// Probe the instance.
    Probe(Probe),
    /// Nothing: this is the result.
    Done(CheckResult),
}

/// Whether `step` ends the check with a failure for this reason, or with
/// success where there is none.
pub open spec fn ends_with(
    step: CheckStep,
    service_id: Seq<char>,
    latency_ms: u64,
    failure: Option<Seq<char>>,
) -> bool {
    step matches CheckStep::Done(result) && result.service_id@ == service_id && result.latency_ms
        == latency_ms && result.success == (failure is None) && match failure {
        None => result.error is None,
        Some(words) => result.error matches Some(error) && error@ == words,
    }
}

/// Whether `step` is what follows `event` in the check of an instance.
pub open spec fn is_next_step(
    step: CheckStep,
    upstream: UpstreamConfig,
    health_check: HealthCheckConfig,
    service_id: Seq<char>,
    event: CheckEvent,
    latency_ms: u64,
) -> bool {
    match event {
        CheckEvent::Begun { docker_available } => if docker_available && upstream.docker_container
            is Some {
            step == CheckStep::AskDocker(upstream.docker_container->0)
        } else {
            step matches CheckStep::Probe(probe) && is_probe(probe, upstream, health_check)
        },
        CheckEvent::DockerAnswered(Ok(running)) => if running {
            step matches CheckStep::Probe(probe) && is_probe(probe, upstream, health_check)
        } else {
            ends_with(
                step,
                service_id,
                latency_ms,
                Some("Docker container '"@ + upstream.docker_container->0@ + "' is not running"@),
            )
        },
        CheckEvent::DockerAnswered(Err(e)) => ends_with(
            step,
            service_id,
            latency_ms,
            Some(
                "Docker status check failed for '"@ + upstream.docker_container->0@ + "': "@
                    + e.message(),
            ),
        ),
        CheckEvent::Probed(Ok(_)) => ends_with(step, service_id, latency_ms, None),
        CheckEvent::Probed(Err(e)) => ends_with(step, service_id, latency_ms, Some(e.message())),
    }
}

fn failed_step(service_id: &str, latency_ms: u64, reason: String) -> (step: CheckStep)
    ensures
        ends_with(step, service_id@, latency_ms, Some(reason@)),
{
    CheckStep::Done(
        CheckResult {
            service_id: service_id.to_owned(),
            success: false,
            latency_ms,
            error: Some(reason),
        },
    )
}

/// Moves the check of an instance on by one step. `latency_ms` is the time
/// since the check began.
pub fn execute_check(
    upstream: &UpstreamConfig,
    health_check: &HealthCheckConfig,
    service_id: &str,
    event: CheckEvent,
    latency_ms: u64,
) -> (step: CheckStep)
    requires
        event is DockerAnswered ==> upstream.docker_container is Some,
    ensures
        is_next_step(step, *upstream, *health_check, service_id@, event, latency_ms),
{
    match event {
        CheckEvent::Begun { docker_available } => {
            if docker_available {
                if let Some(container) = &upstream.docker_container {
                    return CheckStep::AskDocker(container.clone());
                }
            }
            CheckStep::Probe(probe_of(upstream, health_check))
        },
        CheckEvent::DockerAnswered(answer) => {
            let container = match &upstream.docker_container {
                Some(container) => container.as_str(),
                None => "",
            };
            match answer {
                Ok(true) => CheckStep::Probe(probe_of(upstream, health_check)),
                Ok(false) => failed_step(
                    service_id,
                    latency_ms,
                    String::from_str("Docker container '").concat(container).concat(
                        "' is not running",
                    ),
                ),
                Err(e) => failed_step(
                    service_id,
                    latency_ms,
                    String::from_str("Docker status check failed for '").concat(container).concat(
                        "': ",
                    ).concat(e.to_text().as_str()),
                ),
            }
        },
        CheckEvent::Probed(Ok(_)) => CheckStep::Done(
            CheckResult {
                service_id: service_id.to_owned(),
                success: true,
                latency_ms,
                error: None,
            },
        ),
        CheckEvent::Probed(Err(e)) => failed_step(service_id, latency_ms, e.to_text()),
    }
}

/// The service and the instance that each check loop watches, by their
/// positions: one loop for every instance of every service.
pub open spec fn check_loops(services: Seq<ServiceConfig>) -> Seq<(int, int)>
    decreases services.len(),
{
    if services.len() == 0 {
        Seq::empty()
    } else {
        check_loops(services.drop_last()) + Seq::new(
            services.last().upstreams@.len(),
            |k: int| (services.len() - 1, k),
        )
    }
}

/// Positions as mathematical integers.
pub open spec fn positions(pairs: Seq<(usize, usize)>) -> Seq<(int, int)> {
    pairs.map_values(|p: (usize, usize)| (p.0 as int, p.1 as int))
}

/// Lists the check loops to start. There has to be at least one service.
pub fn plan_check_loops(services: &Vec<ServiceConfig>) -> (result: Result<
    Vec<(usize, usize)>,
    VelaError,
>)
    ensures
        match result {
            Ok(loops) => services@.len() > 0 && positions(loops@) == check_loops(services@),
            Err(e) => services@.len() == 0 && error::is_config_error(
                e,
                "Health engine started with zero services — nothing to monitor"@,
            ),
        },
{
    if services.len() == 0 {
        return Err(
            VelaError::ConfigValidation(
                String::from_str("Health engine started with zero services — nothing to monitor"),
            ),
        );
    }
    let mut loops: Vec<(usize, usize)> = Vec::new();
    assert(positions(loops@) =~= Seq::empty());
    let mut i: usize = 0;
    while i < services.len()
        invariant
            i <= services@.len(),
            positions(loops@) == check_loops(services@.take(i as int)),
        decreases services.len() - i,
    {
        let ghost before = check_loops(services@.take(i as int));
        let count: usize = services[i].upstreams.len();
        let mut k: usize = 0;
        assert(positions(loops@) =~= before + Seq::new(0, |k: int| (i as int, k)));
        while k < count
            invariant
                i < services@.len(),
                k <= count,
                positions(loops@) == before + Seq::new(k as nat, |k: int| (i as int, k)),
            decreases count - k,
        {
            let ghost so_far = loops@;
            loops.push((i, k));
            assert(positions(loops@) =~= positions(so_far).push((i as int, k as int)));
            assert(positions(loops@) =~= before + Seq::new((k + 1) as nat, |k: int| (i as int, k)));
            k = k + 1;
        }
        assert(services@.take(i + 1).drop_last() =~= services@.take(i as int));
        assert(services@.take(i + 1).last() == services@[i as int]);
        assert(positions(loops@) =~= check_loops(services@.take(i + 1)));
        i = i + 1;
    }
    assert(services@.take(i as int) =~= services@);
    Ok(loops)
}

/// Records the result of the check of an instance in the state store. Returns
/// the event to broadcast where the status of the service changed.
pub fn record_result(
    state: &mut VelaState,
    result: CheckResult,
    upstream: &UpstreamConfig,
    service_name: &str,
    failure_threshold: u32,
) -> (recorded: Result<Option<StatusChangeEvent>, VelaError>)
    requires
        result.success || old(state).upstream_has_room(
            result.service_id@,
            upstream.host@,
            upstream.port,
        ),
    ensures
        old(state).logs_bounded() ==> final(state).logs_bounded(),
        exists|now: Timestamp|
            now@ >= 0 && #[trigger] final(state).after_upstream_check(
                *old(state),
                result.service_id@,
                upstream.host@,
                upstream.port,
                result.success,
                result.latency_ms,
                result.error,
                failure_threshold,
                service_name@,
                now,
                recorded,
            ),
{
    state.record_upstream_health_check(
        result.service_id.as_str(),
        upstream.host.as_str(),
        upstream.port,
        result.success,
        result.latency_ms,
        result.error,
        failure_threshold,
        service_name.to_owned(),
    )
}

/// A container that is not running fails the check whatever the instance would
/// have answered: the instance is not probed.
pub proof fn lemma_stopped_container_fails(
    step: CheckStep,
    upstream: UpstreamConfig,
    health_check: HealthCheckConfig,
    service_id: Seq<char>,
    latency_ms: u64,
)
    requires
        is_next_step(
            step,
            upstream,
            health_check,
            service_id,
            CheckEvent::DockerAnswered(Ok(false)),
            latency_ms,
        ),
    ensures
        step matches CheckStep::Done(result) && !result.success && result.error is Some,
{
}

/// A check passes only after the instance itself has answered: no other event
/// ends it with success.
pub proof fn lemma_only_a_probe_passes(
    step: CheckStep,
    upstream: UpstreamConfig,
    health_check: HealthCheckConfig,
    service_id: Seq<char>,
    event: CheckEvent,
    latency_ms: u64,
)
    requires
        is_next_step(step, upstream, health_check, service_id, event, latency_ms),
    ensures
        step matches CheckStep::Done(result) ==> result.success == (event matches CheckEvent::Probed(
            outcome,
        ) && outcome is Ok),
        step matches CheckStep::Done(result) ==> result.success == (result.error is None),
{
}

/// Without a Docker daemon an instance in a container is probed like any other.
pub proof fn lemma_docker_is_optional(
    step: CheckStep,
    upstream: UpstreamConfig,
    health_check: HealthCheckConfig,
    service_id: Seq<char>,
    latency_ms: u64,
)
    requires
        is_next_step(
            step,
            upstream,
            health_check,
            service_id,
            CheckEvent::Begun { docker_available: false },
            latency_ms,
        ),
    ensures
        step matches CheckStep::Probe(probe) && is_probe(probe, upstream, health_check),
{
}

/// Every instance of every service has a check loop of its own.
pub proof fn lemma_every_upstream_is_checked(services: Seq<ServiceConfig>, i: int, k: int)
    requires
        0 <= i < services.len(),
        0 <= k < services[i].upstreams@.len(),
    ensures
        check_loops(services).contains((i, k)),
    decreases services.len(),
{
    let rest = services.drop_last();
    let all = check_loops(services);
    let n = check_loops(rest).len();
    if i == services.len() - 1 {
        assert(all[n + k] == (i, k));
    } else {
        lemma_every_upstream_is_checked(rest, i, k);
        let at = check_loops(rest).index_of((i, k));
        assert(check_loops(rest)[at] == (i, k));
        assert(all[at] == (i, k));
    }
}

/// An instance is probed as its service is configured: a TCP check connects to
/// its host and port, and an HTTP check gets the configured path there, or
/// `/health` where none is configured.
pub proof fn lemma_probe_in_full(
    probe: Probe,
    upstream: UpstreamConfig,
    health_check: HealthCheckConfig,
)
    requires
        is_probe(probe, upstream, health_check),
    ensures
        ({
            let place = upstream.host@ + ":"@ + text::decimal(upstream.port as nat);
            &&& health_check.kind == HealthCheckKind::Tcp ==> (probe matches Probe::Tcp(addr)
                && addr@ == place)
            &&& health_check.kind == HealthCheckKind::Http && health_check.http_path is Some ==> (
            probe matches Probe::Http(url) && url@ == "http://"@ + place
                + health_check.http_path->0@ && url@.skip(
                url@.len() - health_check.http_path->0@.len(),
            ) == health_check.http_path->0@)
            &&& health_check.kind == HealthCheckKind::Http && health_check.http_path is None ==> (
            probe matches Probe::Http(url) && url@ == "http://"@ + place + "/health"@)
        }),
{
    proxy::lemma_address_in_full(upstream.host@, upstream.port);
    if health_check.kind == HealthCheckKind::Http && health_check.http_path is Some {
        let path = health_check.http_path->0@;
        if let Probe::Http(url) = probe {
            assert(url@.skip(url@.len() - path.len()) =~= path);
        }
    }
}

/// Two HTTP checks of one instance at different paths ask for different URLs.
pub proof fn lemma_paths_are_told_apart(
    upstream: UpstreamConfig,
    check: HealthCheckConfig,
    probe: Probe,
    other_check: HealthCheckConfig,
    other_probe: Probe,
)
    requires
        check.kind == HealthCheckKind::Http,
        other_check.kind == HealthCheckKind::Http,
        check.http_path is Some,
        other_check.http_path is Some,
        check.http_path->0@ != other_check.http_path->0@,
        is_probe(probe, upstream, check),
        is_probe(other_probe, upstream, other_check),
    ensures
        probe matches Probe::Http(url) && other_probe matches Probe::Http(other_url) && url@
            != other_url@,
{
    lemma_probe_in_full(probe, upstream, check);
    lemma_probe_in_full(other_probe, upstream, other_check);
    let start = "http://"@ + (upstream.host@ + ":"@ + text::decimal(upstream.port as nat));
    let path = check.http_path->0@;
    let other_path = other_check.http_path->0@;
    assert((start + path).skip(start.len() as int) =~= path);
    assert((start + other_path).skip(start.len() as int) =~= other_path);
}

/// The course of a check, step by step: Docker is asked for the container of the
/// instance where both are there; the instance is probed where not, or where the
/// container runs; and the check ends with the answer of the instance, or with
/// the failure of its container.
pub proof fn lemma_check_in_full(
    step: CheckStep,
    upstream: UpstreamConfig,
    health_check: HealthCheckConfig,
    service_id: Seq<char>,
    event: CheckEvent,
    latency_ms: u64,
)
    requires
        is_next_step(step, upstream, health_check, service_id, event, latency_ms),
    ensures
        event matches CheckEvent::Begun { docker_available } ==> if docker_available
            && upstream.docker_container is Some {
            step matches CheckStep::AskDocker(container) && container
                == upstream.docker_container->0
        } else {
            step matches CheckStep::Probe(probe) && is_probe(probe, upstream, health_check)
        },
        event matches CheckEvent::DockerAnswered(Ok(running)) ==> if running {
            step matches CheckStep::Probe(probe) && is_probe(probe, upstream, health_check)
        } else {
            step matches CheckStep::Done(result) && !result.success && (result.error matches Some(
                words,
            ) && words@ == "Docker container '"@ + upstream.docker_container->0@
                + "' is not running"@)
        },
        event matches CheckEvent::DockerAnswered(Err(e)) ==> (step matches CheckStep::Done(result)
            && !result.success && (result.error matches Some(words) && words@
            == "Docker status check failed for '"@ + upstream.docker_container->0@ + "': "@
            + e.message())),
        event matches CheckEvent::Probed(Ok(_)) ==> (step matches CheckStep::Done(result)
            && result.success && result.error is None),
        event matches CheckEvent::Probed(Err(e)) ==> (step matches CheckStep::Done(result)
            && !result.success && (result.error matches Some(words) && words@ == e.message())),
        step matches CheckStep::Done(result) ==> result.service_id@ == service_id
            && result.latency_ms == latency_ms,
{
}

/// A TCP check passes exactly where the connection was accepted, an HTTP check
/// exactly where the answer is between 200 and 299. A failure names what was
/// probed, and why it failed.
pub proof fn lemma_verdicts_in_full(
    target: Seq<char>,
    timeout_ms: u64,
    tcp: TcpEnd,
    tcp_result: Result<(), VelaError>,
    http: HttpEnd,
    http_result: Result<(), VelaError>,
)
    requires
        is_verdict(tcp_result, target, tcp_failure(tcp, timeout_ms)),
        is_verdict(http_result, target, http_failure(http, timeout_ms)),
    ensures
        tcp_result is Ok <==> tcp is Connected,
        tcp_result matches Err(e) ==> (e matches VelaError::HealthCheckFailed { service_id, reason }
            && service_id@ == target && reason@ == (match tcp {
            TcpEnd::Refused(detail) => "TCP connection refused or reset: "@ + detail@,
            _ => "TCP connection timed out after "@ + text::decimal(timeout_ms as nat) + "ms"@,
        })),
        http_result is Ok <==> (http matches HttpEnd::Answered(code) && 200 <= code <= 299),
        http_result matches Err(e) ==> (e matches VelaError::HealthCheckFailed {
            service_id,
            reason,
        } && service_id@ == target && reason@ == (match http {
            HttpEnd::NoClient(detail) => "Failed to build HTTP client: "@ + detail@,
            HttpEnd::Answered(code) => "HTTP check returned non-2xx status: "@ + (text::decimal(
                code as nat,
            ) + " "@ + status_reason(code)),
            HttpEnd::Failed(detail) => "HTTP request failed: "@ + detail@,
            HttpEnd::TimedOut => "HTTP check timed out after "@ + text::decimal(timeout_ms as nat)
                + "ms"@,
        })),
{
}

/// A status code is one of success exactly from 200 to 299.
pub proof fn lemma_success_codes(code: u16)
    ensures
        is_success(code) <==> 200 <= code <= 299,
{
}

/// The check loops are those of the instances of the services, each of them once
/// and in their order.
pub proof fn lemma_check_loops_in_full(
    services: Seq<ServiceConfig>,
    loops: Seq<(usize, usize)>,
    i: int,
    k: int,
)
    requires
        positions(loops) == check_loops(services),
    ensures
        forall|n: int|
            0 <= n < loops.len() ==> (#[trigger] loops[n]).0 < services.len() && loops[n].1
                < services[loops[n].0 as int].upstreams@.len(),
        forall|m: int, n: int|
            0 <= m < n < loops.len() ==> {
                let a = #[trigger] loops[m];
                let b = #[trigger] loops[n];
                a.0 < b.0 || (a.0 == b.0 && a.1 < b.1)
            },
        0 <= i < services.len() && 0 <= k < services[i].upstreams@.len() ==> exists|n: int|
            0 <= n < loops.len() && (#[trigger] loops[n]).0 == i && loops[n].1 == k,
{
    let all = check_loops(services);
    lemma_check_loops_are_ordered(services);
    assert(all.len() == loops.len());
    assert forall|n: int| 0 <= n < loops.len() implies (#[trigger] loops[n]).0 < services.len()
        && loops[n].1 < services[loops[n].0 as int].upstreams@.len() by {
        assert(positions(loops)[n] == all[n]);
    }
    assert forall|m: int, n: int| 0 <= m < n < loops.len() implies {
        let a = #[trigger] loops[m];
        let b = #[trigger] loops[n];
        a.0 < b.0 || (a.0 == b.0 && a.1 < b.1)
    } by {
        assert(positions(loops)[m] == all[m]);
        assert(positions(loops)[n] == all[n]);
    }
    if 0 <= i < services.len() && 0 <= k < services[i].upstreams@.len() {
        lemma_every_upstream_is_checked(services, i, k);
        let n = all.index_of((i, k));
        assert(all[n] == (i, k));
        assert(positions(loops)[n] == all[n]);
        assert(loops[n].0 == i);
    }
}

proof fn lemma_check_loops_are_ordered(services: Seq<ServiceConfig>)
    ensures
        forall|n: int|
            0 <= n < check_loops(services).len() ==> 0 <= (#[trigger] check_loops(services)[n]).0
                < services.len() && 0 <= check_loops(services)[n].1
                < services[check_loops(services)[n].0].upstreams@.len(),
        forall|m: int, n: int|
            0 <= m < n < check_loops(services).len() ==> {
                let a = #[trigger] check_loops(services)[m];
                let b = #[trigger] check_loops(services)[n];
                a.0 < b.0 || (a.0 == b.0 && a.1 < b.1)
            },
    decreases services.len(),
{
    if services.len() > 0 {
        let rest = services.drop_last();
        let fewer = check_loops(rest);
        let all = check_loops(services);
        lemma_check_loops_are_ordered(rest);
        assert forall|n: int| 0 <= n < all.len() implies 0 <= (#[trigger] all[n]).0 < services.len()
            && 0 <= all[n].1 < services[all[n].0].upstreams@.len() by {
            if n < fewer.len() {
                assert(all[n] == fewer[n]);
                assert(rest[fewer[n].0] == services[fewer[n].0]);
            }
        }
        assert forall|m: int, n: int| 0 <= m < n < all.len() implies {
            let a = #[trigger] all[m];
            let b = #[trigger] all[n];
            a.0 < b.0 || (a.0 == b.0 && a.1 < b.1)
        } by {
            if m < fewer.len() {
                assert(all[m] == fewer[m]);
            }
            if n < fewer.len() {
                assert(all[n] == fewer[n]);
            }
        }
    }
}

} // verus!
