//! The data types of the project: what the configuration declares, what the
//! engines observe at run time, and what the API answers.

use vstd::prelude::*;
use vstd::string::*;

use crate::clock::Timestamp;
use crate::error;
use crate::error::VelaError;
use crate::sorting::Keyed;

verus! {

/// The whole configuration file.
#[derive(Debug, Clone)]
pub struct VelaConfig {
    /// Settings of the instance as a whole.
    pub global: GlobalConfig,
    /// The services to monitor.
    pub services: Vec<ServiceConfig>,
}

/// Settings of the instance as a whole.
#[derive(Debug, Clone)]
pub struct GlobalConfig {
    /// The port that the REST API listens on.
    pub api_port: u16,
    /// The secret that every API request has to present.
    pub api_key: String,
    /// The directory for log files.
    pub log_dir: String,
}

/// The API port where the configuration names none.
pub fn default_api_port() -> (port: u16)
    ensures
        port == 7700,
{
    7700
}

/// The log directory where the configuration names none.
pub fn default_log_dir() -> (dir: String)
    ensures
        dir@ == "/var/log/vela"@,
{
    String::from_str("/var/log/vela")
}

/// One monitored service.
#[derive(Debug, Clone)]
pub struct ServiceConfig {
    /// The unique name used in logs, alerts and the API.
    pub id: String,
    /// The name shown to people.
    pub name: String,
    /// The host of a service that lists no upstreams.
    pub host: Option<String>,
    /// The port of a service that lists no upstreams.
    pub port: Option<u16>,
    /// The shell command that restarts a service that has no `restart`.
    pub command: Option<String>,
    /// The instances of the service. After loading there is at least one.
    pub upstreams: Vec<UpstreamConfig>,
    /// How to restart the service. After loading it is always there.
    pub restart: Option<RestartConfig>,
    /// Seconds between two health checks.
    pub check_interval_secs: u64,
    /// Failed checks in a row after which the service counts as failed.
    pub failure_threshold: u32,
    /// Restart attempts before giving up.
    pub max_restarts: u32,
    /// How to check the health of the service.
    pub health_check: HealthCheckConfig,
    /// The proxy in front of the service, if there is one.
    pub proxy: Option<ProxyConfig>,
    /// Where to send alerts.
    pub alerts: Vec<AlertTargetConfig>,
}

/// The seconds between two checks where the configuration names none.
pub fn default_check_interval() -> (secs: u64)
    ensures
        secs == 10,
{
    10
}

/// The failure threshold where the configuration names none.
pub fn default_failure_threshold() -> (threshold: u32)
    ensures
        threshold == 3,
{
    3
}

/// The restart limit where the configuration names none.
pub fn default_max_restarts() -> (limit: u32)
    ensures
        limit == 5,
{
    5
}

/// How a service that has failed is restarted.
#[derive(Debug, Clone, Copy, PartialEq, Eq, Structural)]
pub enum RestartMode {
    /// Through the Docker API.
    Docker,
    /// By a shell command.
    Manual,
    /// Never: the service is only watched.
    MonitorOnly,
}

/// What a restart through Docker needs to know.
#[derive(Debug, Clone)]
pub struct DockerConfig {
    /// The name of the container.
    pub container: String,
    /// The image to pull before the container is recreated from it. Without
    /// one the container is restarted as it is.
    pub image: Option<String>,
    /// The Docker socket, where it is not the default one.
    pub socket_path: Option<String>,
}

/// How one service is restarted.
#[derive(Debug, Clone)]
pub struct RestartConfig {
    /// The way to restart it.
    pub mode: RestartMode,
    /// The shell command, for `RestartMode::Manual`.
    pub command: Option<String>,
    /// The Docker parameters, for `RestartMode::Docker`.
    pub docker: Option<DockerConfig>,
}

impl RestartConfig {
    /// What is wrong with this configuration of the service `service_id`, if
    /// anything: a field that its mode needs is absent.
    pub open spec fn problem(&self, service_id: Seq<char>) -> Option<Seq<char>> {
        if self.mode == RestartMode::Docker && self.docker is None {
            Some(
                "Service '"@ + service_id
                    + "' has restart.mode = \"docker\" but no [services.restart.docker] block"@,
            )
        } else if self.mode == RestartMode::Manual && self.command is None {
            Some(
                "Service '"@ + service_id
                    + "' has restart.mode = \"manual\" but restart.command is not set"@,
            )
        } else {
            None
        }
    }

    /// Checks that the fields that the mode needs are there.
    pub fn validate(&self, service_id: &str) -> (result: Result<(), VelaError>)
        ensures
            result is Ok == self.problem(service_id@) is None,
            result matches Err(e) ==> error::is_config_error(e, self.problem(service_id@)->0),
    {
        if self.mode == RestartMode::Docker && self.docker.is_none() {
            Err(
                VelaError::ConfigValidation(
                    String::from_str("Service '").concat(service_id).concat(
                        "' has restart.mode = \"docker\" but no [services.restart.docker] block",
                    ),
                ),
            )
        } else if self.mode == RestartMode::Manual && self.command.is_none() {
            Err(
                VelaError::ConfigValidation(
                    String::from_str("Service '").concat(service_id).concat(
                        "' has restart.mode = \"manual\" but restart.command is not set",
                    ),
                ),
            )
        } else {
            Ok(())
        }
    }
}

/// One instance of a service.
#[derive(Debug, Clone)]
pub struct UpstreamConfig {
    /// Its host.
    pub host: String,
    /// Its port.
    pub port: u16,
    /// The container it runs in. Where one is named, a health check also asks
    /// whether the container is running.
    pub docker_container: Option<String>,
}

/// The observed health of one instance of a service.
#[derive(Debug)]
pub struct UpstreamState {
    pub host: String,
    pub port: u16,
    pub status: ServiceStatus,
    pub consecutive_failures: u32,
    pub last_checked_at: Option<Timestamp>,
    pub last_ok_at: Option<Timestamp>,
    pub latency_ms: Option<u64>,
}

impl UpstreamState {
    /// Whether this is the state of an instance that was never checked.
    pub open spec fn is_initial(&self, host: Seq<char>, port: u16) -> bool {
        &&& self.host@ == host
        &&& self.port == port
        &&& self.status == ServiceStatus::Unknown
        &&& self.consecutive_failures == 0
        &&& self.last_checked_at is None
        &&& self.last_ok_at is None
        &&& self.latency_ms is None
    }

    /// The state of an instance before its first check.
    pub fn initial(host: String, port: u16) -> (state: Self)
        ensures
            state.is_initial(host@, port),
            state.host == host,
    {
        UpstreamState {
            host,
            port,
            status: ServiceStatus::Unknown,
            consecutive_failures: 0,
            last_checked_at: None,
            last_ok_at: None,
            latency_ms: None,
        }
    }
}

impl Clone for UpstreamState {
    fn clone(&self) -> (result: Self)
        ensures
            result == *self,
    {
        UpstreamState {
            host: self.host.clone(),
            port: self.port,
            status: self.status,
            consecutive_failures: self.consecutive_failures,
            last_checked_at: self.last_checked_at,
            last_ok_at: self.last_ok_at,
            latency_ms: self.latency_ms,
        }
    }
}

/// The kind of a health check and its parameters.
#[derive(Debug, Clone)]
pub struct HealthCheckConfig {
    /// A TCP connection, or an HTTP request.
    pub kind: HealthCheckKind,
    /// The path of the HTTP request.
    pub http_path: Option<String>,
    /// Milliseconds to wait for a response.
    pub timeout_ms: u64,
}

/// The timeout of a health check where the configuration names none.
pub fn default_timeout_ms() -> (ms: u64)
    ensures
        ms == 5000,
{
    5000
}

/// The protocol of a health check.
#[derive(Debug, Clone, Copy, PartialEq, Eq, Structural)]
pub enum HealthCheckKind {
    Tcp,
    Http,
}

/// The proxy in front of a service.
#[derive(Debug, Clone, Copy)]
pub struct ProxyConfig {
    /// The port that the proxy listens on.
    pub listen_port: u16,
    /// Whether it listens on every interface, or on loopback only.
    pub bind_all_interfaces: bool,
}

/// One destination of alerts.
#[derive(Debug)]
pub struct AlertTargetConfig {
    /// The way of delivery.
    pub kind: AlertKind,
    /// The URL of a webhook.
    pub endpoint: Option<String>,
    /// Whether this destination is in use.
    pub enabled: bool,
}

impl Clone for AlertTargetConfig {
    fn clone(&self) -> (result: Self)
        ensures
            result == *self,
    {
        AlertTargetConfig {
            kind: self.kind,
            endpoint: self.endpoint.clone(),
            enabled: self.enabled,
        }
    }
}

/// Whether a destination is in use where the configuration does not say.
pub fn default_true() -> (value: bool)
    ensures
        value,
{
    true
}

/// An alert that was sent, or that could not be sent.
#[derive(Debug)]
pub struct AlertRecord {
    /// The service the alert is about.
    pub service_id: String,
    /// The way of delivery.
    pub kind: AlertKind,
    /// Whether it was delivered.
    pub delivered: bool,
    /// The status transition that caused it.
    pub trigger: String,
    /// When it was sent.
    pub sent_at: Timestamp,
    /// Why it was not delivered.
    pub error: Option<String>,
}

impl Clone for AlertRecord {
    fn clone(&self) -> (result: Self)
        ensures
            result == *self,
    {
        AlertRecord {
            service_id: self.service_id.clone(),
            kind: self.kind,
            delivered: self.delivered,
            trigger: self.trigger.clone(),
            sent_at: self.sent_at,
            error: self.error.clone(),
        }
    }
}

/// The longest service name in an alert, in bytes.
pub const MAX_ALERT_NAME_LEN: usize = 128;

/// The longest message in an alert, in bytes.
pub const MAX_ALERT_MESSAGE_LEN: usize = 512;

/// Seconds after an alert before the next one for the same service.
pub const DEFAULT_ALERT_COOLDOWN_SECS: u64 = 60;

/// Seconds to wait for a webhook to answer.
pub const WEBHOOK_REQUEST_TIMEOUT_SECS: u64 = 10;

/// The most connections that one proxy listener serves at a time.
pub const MAX_CONCURRENT_CONNECTIONS: usize = 1024;

/// Seconds to wait for a connection to an upstream.
pub const PROXY_IDLE_TIMEOUT_SECS: u64 = 30;

/// Seconds after which a transfer is ended.
pub const PROXY_TRANSFER_TIMEOUT_SECS: u64 = 60;

/// Where a proxy listens and what it forwards to.
#[derive(Debug, Clone)]
pub struct ProxyBinding {
    /// The service it forwards to.
    pub service_id: String,
    /// The name of that service for people.
    pub service_name: String,
    /// The address it listens on.
    pub listen_addr: String,
    /// The addresses of all instances of the service.
    pub upstream_addrs: Vec<String>,
}

/// The way an alert is delivered.
#[derive(Debug, Clone, Copy, PartialEq, Eq, Structural)]
pub enum AlertKind {
    Webhook,
    Log,
}

impl AlertKind {
    /// The name of the way of delivery.
    pub open spec fn name(&self) -> Seq<char> {
        match self {
            AlertKind::Webhook => "Webhook"@,
            AlertKind::Log => "Log"@,
        }
    }

    /// The name of the way of delivery.
    pub fn label(&self) -> (result: &'static str)
        ensures
            result@ == self.name(),
    {
        match self {
            AlertKind::Webhook => "Webhook",
            AlertKind::Log => "Log",
        }
    }
}

/// The observed status of a service.
#[derive(Debug, Clone, Copy, PartialEq, Eq, Structural)]
pub enum ServiceStatus {
    /// The last check passed.
    Healthy,
    /// Some checks failed, fewer than the failure threshold.
    Degraded,
    /// As many checks failed as the failure threshold.
    Failed,
    /// There was no check yet.
    Unknown,
}

impl ServiceStatus {
    /// The name of the status.
    pub open spec fn name(&self) -> Seq<char> {
        match self {
            ServiceStatus::Healthy => "Healthy"@,
            ServiceStatus::Degraded => "Degraded"@,
            ServiceStatus::Failed => "Failed"@,
            ServiceStatus::Unknown => "Unknown"@,
        }
    }

    /// The name of the status.
    pub fn label(&self) -> (result: &'static str)
        ensures
            result@ == self.name(),
    {
        match self {
            ServiceStatus::Healthy => "Healthy",
            ServiceStatus::Degraded => "Degraded",
            ServiceStatus::Failed => "Failed",
            ServiceStatus::Unknown => "Unknown",
        }
    }
}

/// The observed state of a service.
#[derive(Debug)]
pub struct ServiceState {
    /// The service.
    pub service_id: String,
    /// Its status.
    pub status: ServiceStatus,
    /// Failed checks in a row.
    pub consecutive_failures: u32,
    /// When it was last checked.
    pub last_checked_at: Option<Timestamp>,
    /// When a check last passed.
    pub last_ok_at: Option<Timestamp>,
    /// Restart attempts so far.
    pub restart_count: u32,
    /// Whether a recovery is under way.
    pub is_recovering: bool,
}

impl ServiceState {
    /// Whether this is the state of a service that was never checked.
    pub open spec fn is_initial(&self, service_id: Seq<char>) -> bool {
        &&& self.service_id@ == service_id
        &&& self.status == ServiceStatus::Unknown
        &&& self.consecutive_failures == 0
        &&& self.last_checked_at is None
        &&& self.last_ok_at is None
        &&& self.restart_count == 0
        &&& !self.is_recovering
    }

    /// The state of a service before its first check.
    pub fn initial(service_id: String) -> (state: Self)
        ensures
            state.is_initial(service_id@),
            state.service_id == service_id,
    {
        ServiceState {
            service_id,
            status: ServiceStatus::Unknown,
            consecutive_failures: 0,
            last_checked_at: None,
            last_ok_at: None,
            restart_count: 0,
            is_recovering: false,
        }
    }
}

impl Clone for ServiceState {
    fn clone(&self) -> (result: Self)
        ensures
            result == *self,
    {
        ServiceState {
            service_id: self.service_id.clone(),
            status: self.status,
            consecutive_failures: self.consecutive_failures,
            last_checked_at: self.last_checked_at,
            last_ok_at: self.last_ok_at,
            restart_count: self.restart_count,
            is_recovering: self.is_recovering,
        }
    }
}

/// The result of one health check, as it is kept for the API.
#[derive(Debug)]
pub struct HealthRecord {
    pub service_id: String,
    pub success: bool,
    pub latency_ms: u64,
    pub checked_at: Timestamp,
    /// Why the check failed.
    pub error: Option<String>,
}

impl Clone for HealthRecord {
    fn clone(&self) -> (result: Self)
        ensures
            result == *self,
    {
        HealthRecord {
            service_id: self.service_id.clone(),
            success: self.success,
            latency_ms: self.latency_ms,
            checked_at: self.checked_at,
            error: self.error.clone(),
        }
    }
}

/// Limits of the health engine itself.
#[derive(Debug, Clone, Copy)]
pub struct HealthEngineConfig {
    /// The most checks that run at a time.
    pub max_concurrent_checks: usize,
}

impl Default for HealthEngineConfig {
    fn default() -> (config: Self)
        ensures
            config.max_concurrent_checks == 1000,
    {
        HealthEngineConfig { max_concurrent_checks: 1000 }
    }
}

/// The result of one health check, before it is recorded.
#[derive(Debug)]
pub struct CheckResult {
    pub service_id: String,
    pub success: bool,
    pub latency_ms: u64,
    pub error: Option<String>,
}

/// One restart attempt.
#[derive(Debug)]
pub struct RestartRecord {
    pub service_id: String,
    pub attempted_at: Timestamp,
    pub succeeded: bool,
    pub attempt_number: u32,
}

impl Clone for RestartRecord {
    fn clone(&self) -> (result: Self)
        ensures
            result == *self,
    {
        RestartRecord {
            service_id: self.service_id.clone(),
            attempted_at: self.attempted_at,
            succeeded: self.succeeded,
            attempt_number: self.attempt_number,
        }
    }
}

/// Seconds to wait before the second restart attempt, before they are doubled.
pub const BASE_BACKOFF_SECS: u64 = 5;

/// The ceiling of the doubled wait in seconds.
pub const MAX_BACKOFF_SECS: u64 = 300;

/// Where the recovery of one service stands.
#[derive(Debug, Clone, Copy)]
pub struct RecoveryState {
    /// Seconds to wait before the next attempt.
    pub current_backoff: u64,
    /// Whether a restart is running right now.
    pub restart_in_progress: bool,
    /// Attempts since the service was last seen healthy.
    pub current_episode_attempts: u32,
    /// When the current wait began.
    pub backoff_started_at: Option<Timestamp>,
}

/// The wait that follows a wait of `backoff` seconds after `attempts`
/// attempts: doubled, cut at the ceiling, then lengthened by a fifth and by up
/// to two seconds that spread the attempts of different services.
pub open spec fn next_backoff(backoff: int, attempts: int) -> int {
    let doubled = if 2 * backoff <= MAX_BACKOFF_SECS {
        2 * backoff
    } else {
        MAX_BACKOFF_SECS as int
    };
    doubled + doubled / 5 + attempts % 3
}

impl RecoveryState {
    /// Whether this is the state at the start of a failure episode.
    pub open spec fn is_initial(&self) -> bool {
        &&& self.current_backoff == BASE_BACKOFF_SECS
        &&& !self.restart_in_progress
        &&& self.current_episode_attempts == 0
        &&& self.backoff_started_at is None
    }

    /// The state at the start of a failure episode.
    pub fn initial() -> (state: Self)
        ensures
            state.is_initial(),
    {
        RecoveryState {
            current_backoff: BASE_BACKOFF_SECS,
            restart_in_progress: false,
            current_episode_attempts: 0,
            backoff_started_at: None,
        }
    }

    /// Moves on to the next, longer wait.
    pub fn advance_backoff(&mut self)
        ensures
            *final(self) == (RecoveryState {
                current_backoff: next_backoff(
                    old(self).current_backoff as int,
                    old(self).current_episode_attempts as int,
                ) as u64,
                ..*old(self)
            }),
            final(self).current_backoff == next_backoff(
                old(self).current_backoff as int,
                old(self).current_episode_attempts as int,
            ),
    {
        let capped: u64 = if self.current_backoff <= MAX_BACKOFF_SECS / 2 {
            self.current_backoff * 2
        } else {
            MAX_BACKOFF_SECS
        };
        let jitter: u64 = capped / 5 + (self.current_episode_attempts % 3) as u64;
        self.current_backoff = capped + jitter;
    }

    /// Goes back to the start when the service is healthy again.
    pub fn reset(&mut self)
        ensures
            final(self).is_initial(),
    {
        self.current_backoff = BASE_BACKOFF_SECS;
        self.restart_in_progress = false;
        self.current_episode_attempts = 0;
        self.backoff_started_at = None;
    }
}

/// A wait never exceeds the ceiling by more than its fifth and two seconds.
pub proof fn lemma_backoff_is_bounded(backoff: int, attempts: int)
    requires
        backoff >= 0,
        attempts >= 0,
    ensures
        0 <= next_backoff(backoff, attempts) <= MAX_BACKOFF_SECS + MAX_BACKOFF_SECS / 5 + 2,
{
}

/// Below the ceiling a wait is at least twice the one before it, and from
/// there on it is at least the ceiling.
pub proof fn lemma_backoff_doubles(backoff: int, attempts: int)
    requires
        backoff >= 0,
        attempts >= 0,
    ensures
        2 * backoff <= MAX_BACKOFF_SECS ==> next_backoff(backoff, attempts) >= 2 * backoff,
        2 * backoff > MAX_BACKOFF_SECS ==> next_backoff(backoff, attempts) >= MAX_BACKOFF_SECS,
{
}

/// How a restart attempt ended.
#[derive(Debug, Clone, PartialEq)]
pub enum RestartOutcome {
    /// It succeeded.
    Succeeded,
    /// It ran and failed.
    Failed(String),
    /// It could not be started.
    SpawnError(String),
    /// It did not end in time.
    TimedOut,
}

/// A change of the status of a service.
#[derive(Debug)]
pub struct StatusChangeEvent {
    pub service_id: String,
    pub service_name: String,
    pub previous_status: ServiceStatus,
    pub new_status: ServiceStatus,
    pub timestamp: Timestamp,
    pub message: String,
}

impl Clone for StatusChangeEvent {
    fn clone(&self) -> (result: Self)
        ensures
            result == *self,
    {
        StatusChangeEvent {
            service_id: self.service_id.clone(),
            service_name: self.service_name.clone(),
            previous_status: self.previous_status,
            new_status: self.new_status,
            timestamp: self.timestamp,
            message: self.message.clone(),
        }
    }
}

/// The version of the API, which every answer carries.
pub const API_VERSION: &'static str = "1";

/// The envelope of every answer of the API.
#[derive(Debug)]
pub struct ApiResponse<T> {
    pub ok: bool,
    pub version: &'static str,
    pub data: T,
}

impl<T> ApiResponse<T> {
    /// Wraps the data of a successful answer.
    pub fn success(data: T) -> (response: Self)
        ensures
            response.ok,
            response.version@ == "1"@,
            response.data == data,
    {
        ApiResponse { ok: true, version: API_VERSION, data }
    }
}

/// The envelope of an answer that reports an error.
#[derive(Debug)]
pub struct ApiError {
    pub ok: bool,
    pub version: &'static str,
    /// A description that gives nothing internal away.
    pub error: String,
}

impl ApiError {
    /// Wraps the description of an error.
    pub fn new(error: &str) -> (result: Self)
        ensures
            !result.ok,
            result.version@ == "1"@,
            result.error@ == error@,
    {
        ApiError { ok: false, version: API_VERSION, error: error.to_owned() }
    }
}

/// What the API shows of a service.
#[derive(Debug)]
pub struct ServiceSummary {
    pub service_id: String,
    pub service_name: String,
    pub status: String,
    pub consecutive_failures: u32,
    pub restart_count: u32,
    pub is_recovering: bool,
    pub last_checked_at: Option<Timestamp>,
    pub last_ok_at: Option<Timestamp>,
}

impl ServiceSummary {
    /// Whether this shows the given state under the given name.
    pub open spec fn shows(&self, state: ServiceState, name: Seq<char>) -> bool {
        &&& self.service_id@ == state.service_id@
        &&& self.service_name@ == name
        &&& self.status@ == state.status.name()
        &&& self.consecutive_failures == state.consecutive_failures
        &&& self.restart_count == state.restart_count
        &&& self.is_recovering == state.is_recovering
        &&& self.last_checked_at == state.last_checked_at
        &&& self.last_ok_at == state.last_ok_at
    }

    /// Turns the internal state into what the API shows.
    pub fn from_state(state: &ServiceState, name: &str) -> (summary: Self)
        ensures
            summary.shows(*state, name@),
    {
        ServiceSummary {
            service_id: state.service_id.clone(),
            service_name: name.to_owned(),
            status: state.status.label().to_owned(),
            consecutive_failures: state.consecutive_failures,
            restart_count: state.restart_count,
            is_recovering: state.is_recovering,
            last_checked_at: state.last_checked_at,
            last_ok_at: state.last_ok_at,
        }
    }
}

impl Keyed for ServiceSummary {
    open spec fn key(&self) -> Seq<char> {
        self.service_id@
    }

    fn key_text(&self) -> &str {
        self.service_id.as_str()
    }
}

/// What the API answers to the question for the overall status.
#[derive(Debug)]
pub struct VelaStatusResponse {
    pub healthy_count: usize,
    pub degraded_count: usize,
    pub failed_count: usize,
    pub unknown_count: usize,
    pub total_services: usize,
    pub services: Vec<ServiceSummary>,
}

/// A wait is doubled as long as the double is within five minutes, and five
/// minutes from there on; a fifth of that is added, and by the number of
/// attempts none, one or two seconds.
pub proof fn lemma_backoff_in_numbers(backoff: int, attempts: int)
    requires
        backoff >= 0,
        attempts >= 0,
    ensures
        backoff <= 150 ==> 2 * backoff <= next_backoff(backoff, attempts) - attempts % 3,
        backoff <= 150 ==> 5 * (next_backoff(backoff, attempts) - attempts % 3) <= 12 * backoff
            < 5 * (next_backoff(backoff, attempts) - attempts % 3) + 5,
        backoff > 150 ==> next_backoff(backoff, attempts) == 360 + attempts % 3,
        0 < backoff <= 300 ==> next_backoff(backoff, attempts) > backoff,
{
}

/// At the start of a failure episode there was no attempt, nothing is running,
/// and there is nothing to wait for.
pub proof fn lemma_episode_starts_afresh(state: RecoveryState)
    requires
        state.is_initial(),
    ensures
        state.current_episode_attempts == 0,
        !state.restart_in_progress,
        state.backoff_started_at is None,
        state.current_backoff == 5,
{
}

/// The settings for a restart are in order exactly where a restart through
/// Docker has its Docker settings, and one by command its command.
pub proof fn lemma_restart_settings(restart: RestartConfig, service_id: Seq<char>)
    ensures
        restart.problem(service_id) is None <==> match restart.mode {
            RestartMode::Docker => restart.docker is Some,
            RestartMode::Manual => restart.command is Some,
            RestartMode::MonitorOnly => true,
        },
        restart.problem(service_id) matches Some(words) ==> words == "Service '"@ + service_id + (
        if restart.mode == RestartMode::Docker {
            "' has restart.mode = \"docker\" but no [services.restart.docker] block"@
        } else {
            "' has restart.mode = \"manual\" but restart.command is not set"@
        }),
{
}

/// The four statuses have four different names, which are their own.
pub proof fn lemma_status_names(a: ServiceStatus, b: ServiceStatus)
    ensures
        a.name() == b.name() <==> a == b,
        a.name() == "Healthy"@ <==> a == ServiceStatus::Healthy,
        a.name() == "Degraded"@ <==> a == ServiceStatus::Degraded,
        a.name() == "Failed"@ <==> a == ServiceStatus::Failed,
        a.name() == "Unknown"@ <==> a == ServiceStatus::Unknown,
{
    reveal_strlit("Healthy");
    reveal_strlit("Degraded");
    reveal_strlit("Failed");
    reveal_strlit("Unknown");
    assert("Healthy"@[0] == 'H');
    assert("Degraded"@[0] == 'D');
    assert("Failed"@[0] == 'F');
    assert("Unknown"@[0] == 'U');
}

/// The two ways of delivery have two different names, which are their own.
pub proof fn lemma_kind_names(a: AlertKind)
    ensures
        a.name() == "Webhook"@ <==> a == AlertKind::Webhook,
        a.name() == "Log"@ <==> a == AlertKind::Log,
{
    reveal_strlit("Webhook");
    reveal_strlit("Log");
    assert("Webhook"@.len() == 7);
    assert("Log"@.len() == 3);
}

/// A service or an instance that was never checked has an unknown status, no
/// failures and no times.
pub proof fn lemma_unchecked_is_unknown(
    service: ServiceState,
    id: Seq<char>,
    upstream: UpstreamState,
    host: Seq<char>,
    port: u16,
)
    requires
        service.is_initial(id),
        upstream.is_initial(host, port),
    ensures
        service.service_id@ == id,
        service.status == ServiceStatus::Unknown,
        service.consecutive_failures == 0,
        service.restart_count == 0,
        !service.is_recovering,
        service.last_checked_at is None,
        service.last_ok_at is None,
        upstream.host@ == host,
        upstream.port == port,
        upstream.status == ServiceStatus::Unknown,
        upstream.consecutive_failures == 0,
        upstream.last_checked_at is None,
        upstream.last_ok_at is None,
        upstream.latency_ms is None,
{
}

/// What is shown of a service is what is known of it, field by field.
pub proof fn lemma_summary_tells_the_state(
    summary: ServiceSummary,
    state: ServiceState,
    name: Seq<char>,
)
    requires
        summary.shows(state, name),
    ensures
        summary.service_id@ == state.service_id@,
        summary.service_name@ == name,
        summary.status@ == "Healthy"@ <==> state.status == ServiceStatus::Healthy,
        summary.status@ == "Degraded"@ <==> state.status == ServiceStatus::Degraded,
        summary.status@ == "Failed"@ <==> state.status == ServiceStatus::Failed,
        summary.status@ == "Unknown"@ <==> state.status == ServiceStatus::Unknown,
        summary.consecutive_failures == state.consecutive_failures,
        summary.restart_count == state.restart_count,
        summary.is_recovering == state.is_recovering,
        summary.last_checked_at == state.last_checked_at,
        summary.last_ok_at == state.last_ok_at,
{
    lemma_status_names(state.status, state.status);
}

} // verus!
