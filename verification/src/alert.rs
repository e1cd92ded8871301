//! The alert engine: which status changes are worth an alert, where the alert
//! goes, and what it says.
//!
//! After an alert about a failure further failures of the same service are
//! passed over for a while. A recovery is always reported, and a failure after
//! a reported recovery is a new episode, which is reported at once.

use vstd::prelude::*;
use vstd::string::*;

use crate::clock;
use crate::clock::Timestamp;
use crate::config;
use crate::error::VelaError;
use crate::health;
use crate::models::{
    AlertKind, AlertRecord, AlertTargetConfig, ServiceConfig, ServiceStatus, StatusChangeEvent,
    DEFAULT_ALERT_COOLDOWN_SECS, MAX_ALERT_MESSAGE_LEN, MAX_ALERT_NAME_LEN,
};
use crate::recovery;
use crate::state;
use crate::state::VelaState;
use crate::table::Table;
use crate::text;
use crate::unicode;

verus! {

/// The last alert about a service.
#[derive(Debug, Clone, Copy)]
pub struct RateLimitEntry {
    /// When it was sent.
    pub last_alert_at: Timestamp,
    /// Whether it was about a failure.
    pub alerted_for_failure: bool,
}

/// The error for an HTTP client that could not be set up.
pub fn client_error(detail: &str) -> (e: VelaError)
    ensures
        e matches VelaError::AlertDeliveryFailed { kind, reason } && kind@ == "init"@ && reason@
            == "Failed to build HTTP client: "@ + detail@,
{
    VelaError::AlertDeliveryFailed {
        kind: String::from_str("init"),
        reason: String::from_str("Failed to build HTTP client: ").concat(detail),
    }
}

/// Whether a change says nothing: the status was and is healthy, unknown or
/// degraded.
pub open spec fn is_noise(previous: ServiceStatus, new: ServiceStatus) -> bool {
    previous == new && previous != ServiceStatus::Failed
}

/// Whether an event is passed over because it says nothing.
pub fn should_suppress_event(event: &StatusChangeEvent) -> (result: bool)
    ensures
        result == is_noise(event.previous_status, event.new_status),
{
    event.previous_status == event.new_status && event.previous_status != ServiceStatus::Failed
}

/// Whether an alert about this status is passed over at the time `now`, after
/// the alerts so far.
pub open spec fn limited(
    limits: Map<Seq<char>, RateLimitEntry>,
    service_id: Seq<char>,
    new_status: ServiceStatus,
    now: Timestamp,
) -> bool {
    &&& limits.dom().contains(service_id)
    &&& new_status != ServiceStatus::Healthy
    &&& limits[service_id].alerted_for_failure
    &&& clock::elapsed(limits[service_id].last_alert_at, now) < DEFAULT_ALERT_COOLDOWN_SECS
}

/// Whether an alert about this status is passed over at the time `now`.
pub fn is_rate_limited_at(
    service_id: &str,
    new_status: &ServiceStatus,
    rate_limits: &Table<RateLimitEntry>,
    now: Timestamp,
) -> (result: bool)
    ensures
        result == limited(rate_limits@, service_id@, *new_status, now),
{
    let entry = match rate_limits.get(service_id) {
        Some(entry) => *entry,
        None => return false,
    };
    if *new_status == ServiceStatus::Healthy {
        return false;
    }
    if !entry.alerted_for_failure {
        return false;
    }
    now.seconds_since(entry.last_alert_at) < DEFAULT_ALERT_COOLDOWN_SECS
}

/// Whether an alert about this status is passed over now.
pub fn is_rate_limited(
    service_id: &str,
    new_status: &ServiceStatus,
    rate_limits: &Table<RateLimitEntry>,
) -> (result: bool)
    ensures
        exists|now: Timestamp|
            now@ >= 0 && result == #[trigger] limited(rate_limits@, service_id@, *new_status, now),
{
    is_rate_limited_at(service_id, new_status, rate_limits, Timestamp::now())
}

/// The entry of an alert about this status at this time.
pub open spec fn entry_of(new_status: ServiceStatus, now: Timestamp) -> RateLimitEntry {
    RateLimitEntry {
        last_alert_at: now,
        alerted_for_failure: new_status == ServiceStatus::Failed || new_status
            == ServiceStatus::Degraded,
    }
}

/// Notes that an alert about this status went out at the time `now`.
pub fn update_rate_limit_at(
    service_id: &str,
    new_status: &ServiceStatus,
    rate_limits: &mut Table<RateLimitEntry>,
    now: Timestamp,
)
    ensures
        final(rate_limits)@ == old(rate_limits)@.insert(service_id@, entry_of(*new_status, now)),
{
    let alerted_for_failure = *new_status == ServiceStatus::Failed || *new_status
        == ServiceStatus::Degraded;
    rate_limits.insert(
        service_id.to_owned(),
        RateLimitEntry { last_alert_at: now, alerted_for_failure },
    );
}

/// Notes that an alert about this status went out now.
pub fn update_rate_limit(
    service_id: &str,
    new_status: &ServiceStatus,
    rate_limits: &mut Table<RateLimitEntry>,
)
    ensures
        exists|now: Timestamp|
            now@ >= 0 && final(rate_limits)@ == old(rate_limits)@.insert(
                service_id@,
                #[trigger] entry_of(*new_status, now),
            ),
{
    let now = Timestamp::now();
    update_rate_limit_at(service_id, new_status, rate_limits, now);
    assert(rate_limits@ == old(rate_limits)@.insert(service_id@, entry_of(*new_status, now)));
}

/// The destinations that are in use.
pub open spec fn enabled(targets: Seq<AlertTargetConfig>) -> Seq<AlertTargetConfig>
    decreases targets.len(),
{
    if targets.len() == 0 {
        Seq::empty()
    } else if targets.last().enabled {
        enabled(targets.drop_last()).push(targets.last())
    } else {
        enabled(targets.drop_last())
    }
}

fn enabled_targets(targets: &Vec<AlertTargetConfig>) -> (result: Vec<AlertTargetConfig>)
    ensures
        result@ == enabled(targets@),
{
    let mut result: Vec<AlertTargetConfig> = Vec::new();
    let mut i: usize = 0;
    while i < targets.len()
        invariant
            i <= targets@.len(),
            result@ == enabled(targets@.take(i as int)),
        decreases targets.len() - i,
    {
        assert(targets@.take(i + 1).drop_last() =~= targets@.take(i as int));
        if targets[i].enabled {
            result.push(targets[i].clone());
        }
        i = i + 1;
    }
    assert(targets@.take(i as int) =~= targets@);
    result
}

/// What to do about a status change.
#[derive(Debug)]
pub enum AlertPlan {
    /// Nothing: it says nothing.
    Suppressed,
    /// Nothing: there was an alert about the service just now.
    RateLimited,
    /// Nothing: the service is not in the configuration.
    UnknownService,
    /// Nothing: the service has no destination in use.
    NoTargets,
    /// Send an alert to one destination after the other.
    Dispatch(Dispatch),
}

/// Whether `plan` and `after` are what becomes of a status change at the time
/// `now`, where the alerts so far stand at `before`.
pub open spec fn is_planned(
    event: StatusChangeEvent,
    services: Seq<ServiceConfig>,
    before: Map<Seq<char>, RateLimitEntry>,
    now: Timestamp,
    plan: AlertPlan,
    after: Map<Seq<char>, RateLimitEntry>,
) -> bool {
    let id = event.service_id@;
    if is_noise(event.previous_status, event.new_status) {
        plan is Suppressed && after == before
    } else if limited(before, id, event.new_status, now) {
        plan is RateLimited && after == before
    } else {
        match config::service_position(services, id) {
            None => plan is UnknownService && after == before,
            Some(i) => if enabled(services[i].alerts@).len() == 0 {
                plan is NoTargets && after == before.insert(id, entry_of(event.new_status, now))
            } else {
                &&& plan matches AlertPlan::Dispatch(dispatch) && dispatch.event() == event
                    && dispatch.targets() == enabled(services[i].alerts@) && dispatch.sent() == 0
                &&& after == before
            },
        }
    }
}

/// Decides what to do about a status change at the time `now`. Where alerts go
/// out, `Dispatch::finish` notes them, one after the other, and after the last
/// one the cooldown begins.
pub fn handle_event_at(
    event: &StatusChangeEvent,
    services: &Vec<ServiceConfig>,
    rate_limits: &mut Table<RateLimitEntry>,
    now: Timestamp,
) -> (plan: AlertPlan)
    ensures
        is_planned(*event, services@, old(rate_limits)@, now, plan, final(rate_limits)@),
{
    if should_suppress_event(event) {
        return AlertPlan::Suppressed;
    }
    if is_rate_limited_at(event.service_id.as_str(), &event.new_status, rate_limits, now) {
        return AlertPlan::RateLimited;
    }
    let i: usize = match config::find_service(services, event.service_id.as_str()) {
        Some(i) => i,
        None => return AlertPlan::UnknownService,
    };
    let targets = enabled_targets(&services[i].alerts);
    if targets.len() == 0 {
        update_rate_limit_at(event.service_id.as_str(), &event.new_status, rate_limits, now);
        return AlertPlan::NoTargets;
    }
    AlertPlan::Dispatch(Dispatch::begin(event, targets))
}

/// Decides what to do about a status change now.
pub fn handle_event(
    event: &StatusChangeEvent,
    services: &Vec<ServiceConfig>,
    rate_limits: &mut Table<RateLimitEntry>,
) -> (plan: AlertPlan)
    ensures
        exists|now: Timestamp|
            now@ >= 0 && #[trigger] is_planned(*event, services@, old(rate_limits)@, now, plan, final(rate_limits)@),
{
    handle_event_at(event, services, rate_limits, Timestamp::now())
}

/// What parsing a text as a URL gives: its scheme and its host, where it has
/// one, or the words of the error.
pub uninterp spec fn parsed_url(url: Seq<char>) -> Result<
    (Seq<char>, Option<Seq<char>>),
    Seq<char>,
>;

/// A parsed URL, or the words of an error, by their characters.
pub open spec fn parts_view(parts: Result<(String, Option<String>), String>) -> Result<
    (Seq<char>, Option<Seq<char>>),
    Seq<char>,
> {
    match parts {
        Ok((scheme, host)) => Ok(
            (
                scheme@,
                match host {
                    Some(host) => Some(host@),
                    None => None,
                },
            ),
        ),
        Err(words) => Err(words@),
    }
}

/// Parses a text by `reqwest::Url` and takes its `scheme` and its `host_str`.
/// What comes of it depends on the text alone.
#[verifier::external_body]
fn parse_url(url: &str) -> (result: Result<(String, Option<String>), String>)
    ensures
        parts_view(result) == parsed_url(url@),
{
    match url.parse::<reqwest::Url>() {
        Ok(parsed) => Ok((parsed.scheme().to_string(), parsed.host_str().map(str::to_string))),
        Err(e) => Err(e.to_string()),
    }
}

/// Whether a host is this machine itself.
pub open spec fn is_loopback(host: Seq<char>) -> bool {
    host == "localhost"@ || host == "127.0.0.1"@ || host == "::1"@
}

/// Why a webhook may not be called, if so: the URL is none, its scheme is
/// neither `http` nor `https`, or it would leave this machine unencrypted.
pub open spec fn webhook_problem(
    parts: Result<(Seq<char>, Option<Seq<char>>), Seq<char>>,
) -> Option<Seq<char>> {
    match parts {
        Err(words) => Some("Invalid URL: "@ + words),
        Ok((scheme, host)) => {
            let name = match host {
                Some(host) => host,
                None => ""@,
            };
            if scheme != "http"@ && scheme != "https"@ {
                Some("Unsupported scheme '"@ + scheme + "' — only http/https allowed"@)
            } else if scheme == "http"@ && !is_loopback(name) {
                Some(
                    "Non-loopback webhook URL must use HTTPS — got HTTP for host '"@ + name + "'"@,
                )
            } else {
                None
            }
        },
    }
}

/// Whether `result` refuses for the given reason, or accepts where there is
/// none.
pub open spec fn is_judgement(result: Result<(), String>, problem: Option<Seq<char>>) -> bool {
    match problem {
        None => result is Ok,
        Some(words) => result matches Err(reason) && reason@ == words,
    }
}

/// Judges a webhook URL by its parts.
pub fn validate_webhook_parts(parts: &Result<(String, Option<String>), String>) -> (result: Result<
    (),
    String,
>)
    ensures
        is_judgement(result, webhook_problem(parts_view(*parts))),
{
    match parts {
        Err(words) => Err(String::from_str("Invalid URL: ").concat(words.as_str())),
        Ok((scheme, host)) => {
            let plain = text::same(scheme.as_str(), "http");
            if !plain && !text::same(scheme.as_str(), "https") {
                return Err(
                    String::from_str("Unsupported scheme '").concat(scheme.as_str()).concat(
                        "' — only http/https allowed",
                    ),
                );
            }
            if plain {
                let name = match host {
                    Some(host) => host.as_str(),
                    None => "",
                };
                let loopback = text::same(name, "localhost") || text::same(name, "127.0.0.1")
                    || text::same(name, "::1");
                if !loopback {
                    return Err(
                        String::from_str(
                            "Non-loopback webhook URL must use HTTPS — got HTTP for host '",
                        ).concat(name).concat("'"),
                    );
                }
            } else {
                proof {
                    reveal_strlit("http");
                    reveal_strlit("https");
                    assert("http"@.len() != "https"@.len());
                }
            }
            Ok(())
        },
    }
}

/// Judges a webhook URL before anything is sent to it.
pub fn validate_webhook_url(url: &str) -> (result: Result<(), String>)
    ensures
        is_judgement(result, webhook_problem(parsed_url(url@))),
{
    validate_webhook_parts(&parse_url(url))
}

/// What a webhook is sent.
#[derive(Debug)]
pub struct WebhookPayload {
    pub source: String,
    pub version: String,
    pub event: WebhookEvent,
}

/// The status change in what a webhook is sent.
#[derive(Debug)]
pub struct WebhookEvent {
    pub service_id: String,
    pub service_name: String,
    pub status_from: String,
    pub status_to: String,
    pub message: String,
    pub timestamp: String,
}

/// Whether `payload` tells of this status change, with the name and the message
/// of the service cut to their limits.
pub open spec fn tells(payload: WebhookPayload, event: StatusChangeEvent) -> bool {
    &&& payload.source@ == "vela"@
    &&& payload.version@ == "1"@
    &&& payload.event.service_id@ == event.service_id@
    &&& payload.event.service_name@ == unicode::shortened(
        event.service_name@,
        MAX_ALERT_NAME_LEN as int,
    )
    &&& payload.event.status_from@ == event.previous_status.name()
    &&& payload.event.status_to@ == event.new_status.name()
    &&& payload.event.message@ == unicode::shortened(event.message@, MAX_ALERT_MESSAGE_LEN as int)
    &&& payload.event.timestamp@ == clock::rfc3339(event.timestamp@)
}

/// Builds what a webhook is sent.
pub fn build_webhook_payload(event: &StatusChangeEvent) -> (payload: WebhookPayload)
    ensures
        tells(payload, *event),
{
    WebhookPayload {
        source: String::from_str("vela"),
        version: String::from_str("1"),
        event: WebhookEvent {
            service_id: event.service_id.clone(),
            service_name: unicode::truncate_str(event.service_name.as_str(), MAX_ALERT_NAME_LEN),
            status_from: event.previous_status.label().to_owned(),
            status_to: event.new_status.label().to_owned(),
            message: unicode::truncate_str(event.message.as_str(), MAX_ALERT_MESSAGE_LEN),
            timestamp: event.timestamp.to_rfc3339(),
        },
    }
}

/// How loudly an alert goes into the log.
#[derive(Debug, Clone, Copy, PartialEq, Eq, Structural)]
pub enum LogLevel {
    Error,
    Warn,
    Info,
}

/// How loudly an alert about this status goes into the log.
pub open spec fn level_of(status: ServiceStatus) -> LogLevel {
    match status {
        ServiceStatus::Failed => LogLevel::Error,
        ServiceStatus::Degraded => LogLevel::Warn,
        _ => LogLevel::Info,
    }
}

/// The line of an alert in the log.
pub open spec fn log_line(event: StatusChangeEvent) -> Seq<char> {
    "[ALERT] service='"@ + event.service_id@ + "' name='"@ + unicode::shortened(
        event.service_name@,
        MAX_ALERT_NAME_LEN as int,
    ) + "' status="@ + event.previous_status.name() + "→"@ + event.new_status.name() + " msg='"@
        + unicode::shortened(event.message@, MAX_ALERT_MESSAGE_LEN as int) + "'"@
}

/// How one alert is delivered.
#[derive(Debug)]
pub enum Delivery {
    /// Write this line to the log.
    Log { level: LogLevel, line: String },
    /// Send this to this URL.
    Post { endpoint: String, payload: WebhookPayload },
    /// Not at all: the webhook has no URL.
    NoEndpoint,
    /// Not at all: the URL may not be called, for this reason.
    Refused(String),
}

/// Builds the line of an alert in the log.
pub fn deliver_log(event: &StatusChangeEvent) -> (delivery: Delivery)
    ensures
        delivery matches Delivery::Log { level, line } && level == level_of(event.new_status)
            && line@ == log_line(*event),
{
    let level = match event.new_status {
        ServiceStatus::Failed => LogLevel::Error,
        ServiceStatus::Degraded => LogLevel::Warn,
        _ => LogLevel::Info,
    };
    let name = unicode::truncate_str(event.service_name.as_str(), MAX_ALERT_NAME_LEN);
    let message = unicode::truncate_str(event.message.as_str(), MAX_ALERT_MESSAGE_LEN);
    let line = String::from_str("[ALERT] service='").concat(event.service_id.as_str()).concat(
        "' name='",
    ).concat(name.as_str()).concat("' status=").concat(event.previous_status.label()).concat(
        "→",
    ).concat(event.new_status.label()).concat(" msg='").concat(message.as_str()).concat("'");
    Delivery::Log { level, line }
}

/// Whether `delivery` is how a webhook with this endpoint is told of a status
/// change, where parsing its URL gives `parts`.
pub open spec fn is_webhook_delivery(
    delivery: Delivery,
    event: StatusChangeEvent,
    endpoint: Option<String>,
    parts: Result<(Seq<char>, Option<Seq<char>>), Seq<char>>,
) -> bool {
    if endpoint is None || unicode::blank(endpoint->0@) {
        delivery is NoEndpoint
    } else {
        match webhook_problem(parts) {
            Some(words) => delivery matches Delivery::Refused(reason) && reason@ == words,
            None => delivery matches Delivery::Post { endpoint: to, payload } && to@
                == unicode::trimmed(endpoint->0@) && tells(payload, event),
        }
    }
}

/// The text that is parsed as the URL of an endpoint.
pub open spec fn url_of(endpoint: Option<String>) -> Seq<char> {
    match endpoint {
        Some(url) => unicode::trimmed(url@),
        None => ""@,
    }
}

/// Decides how a webhook is told of a status change, where parsing its URL gave
/// `parts`.
pub fn deliver_webhook_parts(
    event: &StatusChangeEvent,
    target: &AlertTargetConfig,
    parts: &Result<(String, Option<String>), String>,
) -> (delivery: Delivery)
    ensures
        is_webhook_delivery(delivery, *event, target.endpoint, parts_view(*parts)),
{
    let endpoint = match &target.endpoint {
        Some(url) => {
            if unicode::is_blank(url.as_str()) {
                return Delivery::NoEndpoint;
            }
            unicode::trim(url.as_str())
        },
        None => return Delivery::NoEndpoint,
    };
    match validate_webhook_parts(parts) {
        Ok(_) => Delivery::Post {
            endpoint: endpoint.to_owned(),
            payload: build_webhook_payload(event),
        },
        Err(reason) => Delivery::Refused(reason),
    }
}

/// Decides how a webhook is told of a status change.
pub fn deliver_webhook(event: &StatusChangeEvent, target: &AlertTargetConfig) -> (delivery:
    Delivery)
    ensures
        is_webhook_delivery(
            delivery,
            *event,
            target.endpoint,
            parsed_url(url_of(target.endpoint)),
        ),
{
    match &target.endpoint {
        Some(url) => {
            if unicode::is_blank(url.as_str()) {
                return Delivery::NoEndpoint;
            }
            let parts = parse_url(unicode::trim(url.as_str()));
            deliver_webhook_parts(event, target, &parts)
        },
        None => Delivery::NoEndpoint,
    }
}

/// Whether `delivery` is how this destination is told of a status change.
pub open spec fn is_delivery(
    delivery: Delivery,
    event: StatusChangeEvent,
    target: AlertTargetConfig,
) -> bool {
    match target.kind {
        AlertKind::Webhook => is_webhook_delivery(
            delivery,
            event,
            target.endpoint,
            parsed_url(url_of(target.endpoint)),
        ),
        AlertKind::Log => delivery matches Delivery::Log { level, line } && level == level_of(
            event.new_status,
        ) && line@ == log_line(event),
    }
}

/// Decides how one destination is told of a status change.
pub fn dispatch_alert(event: &StatusChangeEvent, target: &AlertTargetConfig) -> (delivery:
    Delivery)
    ensures
        is_delivery(delivery, *event, *target),
{
    match target.kind {
        AlertKind::Webhook => deliver_webhook(event, target),
        AlertKind::Log => deliver_log(event),
    }
}

/// Whether an alert came through: always where it went to the log; where it was
/// posted, if an answer came back whose status code says that it succeeded; and
/// never where nothing was posted.
pub open spec fn delivered(delivery: Delivery, answer: Option<u16>) -> bool {
    match delivery {
        Delivery::Log { .. } => true,
        Delivery::Post { .. } => answer is Some && health::is_success(answer->0),
        _ => false,
    }
}

/// Whether an alert came through. `answer` is the status code that came back
/// from a webhook, if one did. Redirections are not followed.
pub fn was_delivered(delivery: &Delivery, answer: Option<u16>) -> (result: bool)
    ensures
        result == delivered(*delivery, answer),
{
    match delivery {
        Delivery::Log { .. } => true,
        Delivery::Post { .. } => match answer {
            Some(code) => health::status_is_success(code),
            None => false,
        },
        _ => false,
    }
}

/// Whether an alert to this destination comes through with this answer: to the
/// log always; to a webhook if it has a URL that may be called and answers that
/// the request succeeded.
pub open spec fn comes_through(target: AlertTargetConfig, answer: Option<u16>) -> bool {
    match target.kind {
        AlertKind::Log => true,
        AlertKind::Webhook => {
            &&& target.endpoint is Some
            &&& !unicode::blank(target.endpoint->0@)
            &&& webhook_problem(parsed_url(url_of(target.endpoint))) is None
            &&& answer is Some
            &&& health::is_success(answer->0)
        },
    }
}

/// An alert to the log always comes through. One to a webhook comes through
/// exactly where the webhook has a URL, the URL may be called, and an answer
/// between 200 and 299 comes back.
pub proof fn lemma_delivered_exactly_on_success(
    delivery: Delivery,
    event: StatusChangeEvent,
    target: AlertTargetConfig,
    answer: Option<u16>,
)
    requires
        is_delivery(delivery, event, target),
    ensures
        delivered(delivery, answer) == comes_through(target, answer),
        target.kind == AlertKind::Webhook && delivered(delivery, answer) ==> delivery is Post && 200
            <= answer->0 < 300,
{
}

/// Whether `record` notes the alert about this status change.
pub open spec fn notes(
    record: AlertRecord,
    event: StatusChangeEvent,
    kind: AlertKind,
    delivered: bool,
    now: Timestamp,
) -> bool {
    &&& record.service_id@ == event.service_id@
    &&& record.kind == kind
    &&& record.delivered == delivered
    &&& record.trigger@ == event.previous_status.name() + "→"@ + event.new_status.name()
    &&& record.sent_at == now
    &&& match record.error {
        None => delivered,
        Some(words) => !delivered && words@ == "Delivery failed for "@ + kind.name() + " target"@,
    }
}

/// Builds the record of an alert.
pub fn alert_record(
    event: &StatusChangeEvent,
    kind: AlertKind,
    delivered: bool,
    now: Timestamp,
) -> (record: AlertRecord)
    ensures
        notes(record, *event, kind, delivered, now),
{
    AlertRecord {
        service_id: event.service_id.clone(),
        kind,
        delivered,
        trigger: event.previous_status.label().to_owned().concat("→").concat(
            event.new_status.label(),
        ),
        sent_at: now,
        error: if delivered {
            None
        } else {
            Some(
                String::from_str("Delivery failed for ").concat(kind.label()).concat(" target"),
            )
        },
    }
}

/// Records an alert that was delivered, or that was not.
pub fn record_delivery(
    state: &mut VelaState,
    event: &StatusChangeEvent,
    kind: AlertKind,
    delivered: bool,
    now: Timestamp,
) -> (result: Result<(), VelaError>)
    ensures
        result is Ok,
        old(state).logs_bounded() ==> final(state).logs_bounded(),
        exists|record: AlertRecord|
            notes(record, *event, kind, delivered, now) && #[trigger] state::appended(
                old(state).inner.alert_records@,
                final(state).inner.alert_records@,
                event.service_id@,
                record,
                state::MAX_ALERT_RECORDS as nat,
            ),
        final(state).inner.services == old(state).inner.services,
        final(state).inner.health_records == old(state).inner.health_records,
        final(state).inner.restart_records == old(state).inner.restart_records,
        final(state).inner.upstream_states == old(state).inner.upstream_states,
{
    let record = alert_record(event, kind, delivered, now);
    let ghost kept = record;
    let result = state.record_alert(record);
    assert(state::appended(
        old(state).inner.alert_records@,
        state.inner.alert_records@,
        event.service_id@,
        kept,
        state::MAX_ALERT_RECORDS as nat,
    ));
    result
}

/// Alerts about one status change on their way to one destination after the
/// other. At least one of them is still to be sent.
#[derive(Debug)]
pub struct Dispatch {
    event: StatusChangeEvent,
    targets: Vec<AlertTargetConfig>,
    sent: usize,
    delivery: Delivery,
}

/// Whether the alert of `before` whose turn it is was noted at the time `now`
/// with this answer, and `rest` is what is still to be sent: the log of alerts
/// has one record more, and after the last alert the cooldown has begun.
pub open spec fn is_noted(
    before: Dispatch,
    answer: Option<u16>,
    now: Timestamp,
    old_logs: Map<Seq<char>, Vec<AlertRecord>>,
    new_logs: Map<Seq<char>, Vec<AlertRecord>>,
    old_limits: Map<Seq<char>, RateLimitEntry>,
    new_limits: Map<Seq<char>, RateLimitEntry>,
    rest: Option<Dispatch>,
) -> bool {
    let event = before.event();
    let id = event.service_id@;
    let target = before.targets()[before.sent() as int];
    &&& exists|record: AlertRecord|
        notes(record, event, target.kind, comes_through(target, answer), now)
            && #[trigger] state::appended(
            old_logs,
            new_logs,
            id,
            record,
            state::MAX_ALERT_RECORDS as nat,
        )
    &&& if before.sent() + 1 < before.targets().len() {
        &&& rest matches Some(next) && next.event() == event && next.targets() == before.targets()
            && next.sent() == before.sent() + 1
        &&& new_limits == old_limits
    } else {
        &&& rest is None
        &&& new_limits == old_limits.insert(id, entry_of(event.new_status, now))
    }
}

impl Dispatch {
    #[verifier::type_invariant]
    spec fn valid(self) -> bool {
        self.sent < self.targets@.len() && is_delivery(
            self.delivery,
            self.event,
            self.targets@[self.sent as int],
        )
    }

    /// The status change.
    pub closed spec fn event(&self) -> StatusChangeEvent {
        self.event
    }

    /// All destinations, in their order.
    pub closed spec fn targets(&self) -> Seq<AlertTargetConfig> {
        self.targets@
    }

    /// How many of the destinations had their turn.
    pub closed spec fn sent(&self) -> nat {
        self.sent as nat
    }

    fn begin(event: &StatusChangeEvent, targets: Vec<AlertTargetConfig>) -> (dispatch: Dispatch)
        requires
            targets@.len() > 0,
        ensures
            dispatch.event() == *event,
            dispatch.targets() == targets@,
            dispatch.sent() == 0,
    {
        let delivery = dispatch_alert(event, &targets[0]);
        Dispatch { event: event.clone(), targets, sent: 0, delivery }
    }

    /// How many destinations there are.
    pub fn count(&self) -> (n: usize)
        ensures
            n == self.targets().len(),
    {
        self.targets.len()
    }

    /// The destination whose turn it is.
    pub fn target(&self) -> (target: &AlertTargetConfig)
        ensures
            self.sent() < self.targets().len(),
            *target == self.targets()[self.sent() as int],
    {
        proof {
            use_type_invariant(self);
        }
        &self.targets[self.sent]
    }

    /// How the destination whose turn it is is told.
    pub fn delivery(&self) -> (delivery: &Delivery)
        ensures
            self.sent() < self.targets().len(),
            is_delivery(*delivery, self.event(), self.targets()[self.sent() as int]),
    {
        proof {
            use_type_invariant(self);
        }
        &self.delivery
    }

    /// Notes the alert whose turn it is, delivered or not, at the time `now`,
    /// and goes on to the next one. `answer` is the status code that came back
    /// from a webhook, if one did. After the last alert the cooldown begins.
    pub fn finish(
        self,
        answer: Option<u16>,
        state: &mut VelaState,
        rate_limits: &mut Table<RateLimitEntry>,
        now: Timestamp,
    ) -> (rest: Option<Dispatch>)
        ensures
            is_noted(
                self,
                answer,
                now,
                old(state).inner.alert_records@,
                final(state).inner.alert_records@,
                old(rate_limits)@,
                final(rate_limits)@,
                rest,
            ),
            old(state).logs_bounded() ==> final(state).logs_bounded(),
            final(state).inner.services == old(state).inner.services,
            final(state).inner.health_records == old(state).inner.health_records,
            final(state).inner.restart_records == old(state).inner.restart_records,
            final(state).inner.upstream_states == old(state).inner.upstream_states,
    {
        proof {
            use_type_invariant(&self);
            lemma_delivered_exactly_on_success(
                self.delivery,
                self.event,
                self.targets@[self.sent as int],
                answer,
            );
        }
        let done = was_delivered(&self.delivery, answer);
        let kind = self.targets[self.sent].kind;
        let _recorded = record_delivery(state, &self.event, kind, done, now);
        let count: usize = self.targets.len();
        let next: usize = self.sent + 1;
        if next == count {
            update_rate_limit_at(
                self.event.service_id.as_str(),
                &self.event.new_status,
                rate_limits,
                now,
            );
            return None;
        }
        let delivery = dispatch_alert(&self.event, &self.targets[next]);
        Some(Dispatch { event: self.event, targets: self.targets, sent: next, delivery })
    }
}

/// One alert after the other: `logs` holds the alerts kept of the service at
/// the start and after each alert, which got these answers at these times.
pub open spec fn is_run(
    event: StatusChangeEvent,
    targets: Seq<AlertTargetConfig>,
    answers: Seq<Option<u16>>,
    times: Seq<Timestamp>,
    logs: Seq<Seq<AlertRecord>>,
) -> bool {
    &&& answers.len() == times.len() == targets.len()
    &&& logs.len() == targets.len() + 1
    &&& forall|i: int|
        0 <= i < targets.len() ==> is_next_log(
            event,
            #[trigger] targets[i],
            answers[i],
            times[i],
            logs[i],
            logs[i + 1],
        )
}

/// Whether the log `after` is the log `before` with a record of the alert to
/// this destination.
pub open spec fn is_next_log(
    event: StatusChangeEvent,
    target: AlertTargetConfig,
    answer: Option<u16>,
    now: Timestamp,
    before: Seq<AlertRecord>,
    after: Seq<AlertRecord>,
) -> bool {
    exists|record: AlertRecord|
        notes(record, event, target.kind, comes_through(target, answer), now) && after
            == #[trigger] state::rolled(before, record, state::MAX_ALERT_RECORDS as nat)
}

/// Each step of a dispatch adds the record of its destination to the log of the
/// service, and leaves the logs of other services as they are.
pub proof fn lemma_noted_in_the_log(
    before: Dispatch,
    answer: Option<u16>,
    now: Timestamp,
    old_logs: Map<Seq<char>, Vec<AlertRecord>>,
    new_logs: Map<Seq<char>, Vec<AlertRecord>>,
    old_limits: Map<Seq<char>, RateLimitEntry>,
    new_limits: Map<Seq<char>, RateLimitEntry>,
    rest: Option<Dispatch>,
    other: Seq<char>,
)
    requires
        is_noted(before, answer, now, old_logs, new_logs, old_limits, new_limits, rest),
    ensures
        is_next_log(
            before.event(),
            before.targets()[before.sent() as int],
            answer,
            now,
            state::log_of(old_logs, before.event().service_id@),
            state::log_of(new_logs, before.event().service_id@),
        ),
        other != before.event().service_id@ ==> state::log_of(new_logs, other) == state::log_of(
            old_logs,
            other,
        ),
{
    let id = before.event().service_id@;
    let target = before.targets()[before.sent() as int];
    let max = state::MAX_ALERT_RECORDS as nat;
    let record = choose|record: AlertRecord|
        notes(record, before.event(), target.kind, comes_through(target, answer), now)
            && #[trigger] state::appended(old_logs, new_logs, id, record, max);
    assert(state::log_of(new_logs, id) == state::rolled(
        state::log_of(old_logs, id),
        record,
        max,
    ));
    if other != id && old_logs.dom().contains(other) {
        assert(new_logs[other] == old_logs[other]);
    }
}

/// A dispatch leaves one record for each destination, in their order, after the
/// records that were there, as long as the log has room for them all. The
/// record of an alert to the log says that it was delivered.
pub proof fn lemma_every_target_is_recorded(
    event: StatusChangeEvent,
    targets: Seq<AlertTargetConfig>,
    answers: Seq<Option<u16>>,
    times: Seq<Timestamp>,
    logs: Seq<Seq<AlertRecord>>,
)
    requires
        is_run(event, targets, answers, times, logs),
        logs[0].len() + targets.len() <= state::MAX_ALERT_RECORDS,
    ensures
        logs.last().len() == logs[0].len() + targets.len(),
        logs.last().take(logs[0].len() as int) == logs[0],
        forall|i: int|
            0 <= i < targets.len() ==> notes(
                #[trigger] logs.last()[logs[0].len() + i],
                event,
                targets[i].kind,
                comes_through(targets[i], answers[i]),
                times[i],
            ),
        forall|i: int|
            0 <= i < targets.len() && (#[trigger] targets[i]).kind == AlertKind::Log ==> (
            logs.last()[logs[0].len() + i]).delivered,
    decreases targets.len(),
{
    let start = logs[0].len() as int;
    if targets.len() == 0 {
        assert(logs[0].take(start) =~= logs[0]);
    } else {
        let n = targets.len() - 1;
        let fewer = logs.drop_last();
        assert forall|i: int| 0 <= i < n implies is_next_log(
            event,
            #[trigger] targets.drop_last()[i],
            answers.drop_last()[i],
            times.drop_last()[i],
            fewer[i],
            fewer[i + 1],
        ) by {
            assert(targets.drop_last()[i] == targets[i]);
        }
        lemma_every_target_is_recorded(
            event,
            targets.drop_last(),
            answers.drop_last(),
            times.drop_last(),
            fewer,
        );
        assert(is_next_log(event, targets[n], answers[n], times[n], logs[n], logs[n + 1]));
        assert(fewer.last() == logs[n]);
        let record = choose|record: AlertRecord|
            notes(record, event, targets[n].kind, comes_through(targets[n], answers[n]), times[n])
                && logs[n + 1] == #[trigger] state::rolled(
                logs[n],
                record,
                state::MAX_ALERT_RECORDS as nat,
            );
        assert(logs[n + 1] == logs[n].push(record));
        assert(logs.last().take(start) =~= logs[n].take(start));
        assert forall|i: int| 0 <= i < targets.len() implies notes(
            #[trigger] logs.last()[start + i],
            event,
            targets[i].kind,
            comes_through(targets[i], answers[i]),
            times[i],
        ) by {
            if i < n {
                assert(fewer.last()[start + i] == logs.last()[start + i]);
                assert(targets.drop_last()[i] == targets[i]);
                assert(answers.drop_last()[i] == answers[i]);
                assert(times.drop_last()[i] == times[i]);
            }
        }
        assert forall|i: int|
            0 <= i < targets.len() && (#[trigger] targets[i]).kind == AlertKind::Log implies (
        logs.last()[start + i]).delivered by {
            let noted = logs.last()[start + i];
            assert(notes(
                noted,
                event,
                targets[i].kind,
                comes_through(targets[i], answers[i]),
                times[i],
            ));
        }
    }
}

/// After the alerts about a failure have gone out, whether they came through or
/// not, a further failure of the same service within the cooldown is passed
/// over.
pub proof fn lemma_dispatch_begins_the_cooldown(
    last: Dispatch,
    answer: Option<u16>,
    at: Timestamp,
    old_logs: Map<Seq<char>, Vec<AlertRecord>>,
    new_logs: Map<Seq<char>, Vec<AlertRecord>>,
    old_limits: Map<Seq<char>, RateLimitEntry>,
    new_limits: Map<Seq<char>, RateLimitEntry>,
    later: StatusChangeEvent,
    services: Seq<ServiceConfig>,
    now: Timestamp,
    plan: AlertPlan,
    later_limits: Map<Seq<char>, RateLimitEntry>,
)
    requires
        is_noted(last, answer, at, old_logs, new_logs, old_limits, new_limits, None),
        last.event().new_status == ServiceStatus::Failed || last.event().new_status
            == ServiceStatus::Degraded,
        later.service_id@ == last.event().service_id@,
        later.new_status != ServiceStatus::Healthy,
        !is_noise(later.previous_status, later.new_status),
        clock::elapsed(at, now) < DEFAULT_ALERT_COOLDOWN_SECS,
        is_planned(later, services, new_limits, now, plan, later_limits),
    ensures
        plan is RateLimited,
        later_limits == new_limits,
{
}

/// That the recovery engine has given up on a service counts as news, though
/// the status stays the same.
pub proof fn lemma_giving_up_is_no_noise(
    event: StatusChangeEvent,
    svc: ServiceConfig,
    now: Timestamp,
)
    requires
        recovery::is_give_up(event, svc, now),
    ensures
        !is_noise(event.previous_status, event.new_status),
{
}

/// A recovery is never passed over because of earlier alerts.
pub proof fn lemma_recovery_is_never_limited(
    limits: Map<Seq<char>, RateLimitEntry>,
    service_id: Seq<char>,
    now: Timestamp,
)
    ensures
        !limited(limits, service_id, ServiceStatus::Healthy, now),
{
}

/// A failure after a reported recovery is a new episode: it is not passed over,
/// however soon it comes.
pub proof fn lemma_new_episode_is_not_limited(
    limits: Map<Seq<char>, RateLimitEntry>,
    service_id: Seq<char>,
    recovered_at: Timestamp,
    new_status: ServiceStatus,
    now: Timestamp,
)
    ensures
        !limited(
            limits.insert(service_id, entry_of(ServiceStatus::Healthy, recovered_at)),
            service_id,
            new_status,
            now,
        ),
{
}

/// After an alert about a failure, further failures of the same service are
/// passed over for as long as the cooldown lasts, and no longer.
pub proof fn lemma_failures_cool_down(
    limits: Map<Seq<char>, RateLimitEntry>,
    service_id: Seq<char>,
    alerted: ServiceStatus,
    at: Timestamp,
    new_status: ServiceStatus,
    now: Timestamp,
)
    requires
        alerted == ServiceStatus::Failed || alerted == ServiceStatus::Degraded,
        new_status != ServiceStatus::Healthy,
    ensures
        limited(limits.insert(service_id, entry_of(alerted, at)), service_id, new_status, now) == (
        clock::elapsed(at, now) < DEFAULT_ALERT_COOLDOWN_SECS),
{
}

/// The alerts about one service never hold back those about another.
pub proof fn lemma_services_are_limited_apart(
    limits: Map<Seq<char>, RateLimitEntry>,
    service_id: Seq<char>,
    entry: RateLimitEntry,
    other: Seq<char>,
    new_status: ServiceStatus,
    now: Timestamp,
)
    requires
        other != service_id,
    ensures
        limited(limits.insert(service_id, entry), other, new_status, now) == limited(
            limits,
            other,
            new_status,
            now,
        ),
{
}

/// What is sent to a webhook is bounded in length: the name and the message of
/// the service take at most their limits and an ellipsis.
pub proof fn lemma_payload_is_bounded(payload: WebhookPayload, event: StatusChangeEvent)
    requires
        tells(payload, event),
    ensures
        unicode::byte_len(payload.event.service_name@) <= MAX_ALERT_NAME_LEN + 3,
        unicode::byte_len(payload.event.message@) <= MAX_ALERT_MESSAGE_LEN + 3,
{
    unicode::lemma_shortened_is_bounded(event.service_name@, MAX_ALERT_NAME_LEN as int);
    unicode::lemma_shortened_is_bounded(event.message@, MAX_ALERT_MESSAGE_LEN as int);
}

/// Nothing leaves this machine unencrypted: a webhook is called only by HTTPS,
/// or by HTTP on this machine itself.
pub proof fn lemma_webhooks_are_encrypted_or_local(
    delivery: Delivery,
    event: StatusChangeEvent,
    endpoint: Option<String>,
    parts: Result<(Seq<char>, Option<Seq<char>>), Seq<char>>,
)
    requires
        is_webhook_delivery(delivery, event, endpoint, parts),
        delivery is Post,
    ensures
        parts matches Ok((scheme, host)) && (scheme == "https"@ || (scheme == "http"@
            && host is Some && is_loopback(host->0))),
{
    reveal_strlit("");
    reveal_strlit("localhost");
    reveal_strlit("127.0.0.1");
    reveal_strlit("::1");
    assert(""@.len() == 0);
    assert("localhost"@.len() == 9);
    assert("127.0.0.1"@.len() == 9);
    assert("::1"@.len() == 3);
}

/// A real change is never passed over as noise; a status that stays the same is,
/// unless it is a failure.
pub proof fn lemma_changes_are_no_noise(
    event: StatusChangeEvent,
    services: Seq<ServiceConfig>,
    before: Map<Seq<char>, RateLimitEntry>,
    now: Timestamp,
    plan: AlertPlan,
    after: Map<Seq<char>, RateLimitEntry>,
)
    requires
        is_planned(event, services, before, now, plan, after),
    ensures
        event.previous_status != event.new_status ==> !(plan is Suppressed),
        event.new_status == ServiceStatus::Failed ==> !(plan is Suppressed),
        event.previous_status == event.new_status && event.new_status != ServiceStatus::Failed
            ==> plan is Suppressed && after == before,
{
}

/// The cooldown of a service holds its alerts back exactly where the last one was
/// about a failure less than a minute ago and the new one is not about a
/// recovery.
pub proof fn lemma_cooldown_in_full(
    limits: Map<Seq<char>, RateLimitEntry>,
    service_id: Seq<char>,
    new_status: ServiceStatus,
    now: Timestamp,
)
    requires
        limits.dom().contains(service_id) ==> limits[service_id].last_alert_at@ <= now@,
    ensures
        limited(limits, service_id, new_status, now) <==> {
            &&& limits.dom().contains(service_id)
            &&& limits[service_id].alerted_for_failure
            &&& new_status != ServiceStatus::Healthy
            &&& now@ - limits[service_id].last_alert_at@ < 60_000_000_000
        },
{
    if limits.dom().contains(service_id) {
        clock::lemma_elapsed_counts_whole_seconds(limits[service_id].last_alert_at, now);
    }
}

/// Whether these are, in their order, the positions of the destinations that are
/// in use, each one once.
pub open spec fn are_positions_in_use(positions: Seq<int>, targets: Seq<AlertTargetConfig>) -> bool {
    &&& forall|k: int|
        0 <= k < positions.len() ==> 0 <= #[trigger] positions[k] < targets.len()
            && targets[positions[k]].enabled
    &&& forall|k: int, l: int|
        0 <= k < l < positions.len() ==> #[trigger] positions[k] < #[trigger] positions[l]
    &&& forall|i: int|
        0 <= i < targets.len() && (#[trigger] targets[i]).enabled ==> positions.contains(i)
}

proof fn lemma_enabled_positions(targets: Seq<AlertTargetConfig>) -> (positions: Seq<int>)
    ensures
        are_positions_in_use(positions, targets),
        positions.len() == enabled(targets).len(),
        forall|k: int|
            0 <= k < positions.len() ==> enabled(targets)[k] == targets[#[trigger] positions[k]],
    decreases targets.len(),
{
    if targets.len() == 0 {
        Seq::empty()
    } else {
        let rest = targets.drop_last();
        let n = targets.len() - 1;
        let fewer = lemma_enabled_positions(rest);
        let positions = if targets.last().enabled {
            fewer.push(n)
        } else {
            fewer
        };
        assert forall|k: int| 0 <= k < positions.len() implies 0 <= #[trigger] positions[k]
            < targets.len() && targets[positions[k]].enabled && enabled(targets)[k]
            == targets[positions[k]] by {
            if k < fewer.len() {
                assert(positions[k] == fewer[k]);
                assert(rest[fewer[k]] == targets[fewer[k]]);
            }
        }
        assert forall|k: int, l: int| 0 <= k < l < positions.len() implies #[trigger] positions[k]
            < #[trigger] positions[l] by {
            assert(positions[k] == fewer[k]);
            if l < fewer.len() {
                assert(positions[l] == fewer[l]);
            }
        }
        assert forall|i: int|
            0 <= i < targets.len() && (#[trigger] targets[i]).enabled implies positions.contains(
            i,
        ) by {
            if i < n {
                assert(rest[i] == targets[i]);
                assert(fewer.contains(i));
                let k = fewer.index_of(i);
                assert(positions[k] == i);
            } else {
                assert(positions[fewer.len() as int] == n);
            }
        }
        positions
    }
}

/// What becomes of news of a service that is in the configuration: within the
/// cooldown nothing; otherwise alerts go to all destinations that are in use and
/// to no other, in their order, and where there is none the cooldown begins at
/// once.
pub proof fn lemma_news_is_sent(
    event: StatusChangeEvent,
    services: Seq<ServiceConfig>,
    i: int,
    before: Map<Seq<char>, RateLimitEntry>,
    now: Timestamp,
    plan: AlertPlan,
    after: Map<Seq<char>, RateLimitEntry>,
)
    requires
        is_planned(event, services, before, now, plan, after),
        event.previous_status != event.new_status || event.new_status == ServiceStatus::Failed,
        0 <= i < services.len(),
        services[i].id@ == event.service_id@,
        forall|j: int| i < j < services.len() ==> (#[trigger] services[j]).id@ != event.service_id@,
        before.dom().contains(event.service_id@) ==> before[event.service_id@].last_alert_at@
            <= now@,
    ensures
        ({
            let id = event.service_id@;
            let held = before.dom().contains(id) && before[id].alerted_for_failure
                && event.new_status != ServiceStatus::Healthy && now@ - before[id].last_alert_at@
                < 60_000_000_000;
            let some = exists|k: int|
                0 <= k < services[i].alerts@.len() && (#[trigger] services[i].alerts@[k]).enabled;
            &&& held ==> plan is RateLimited && after == before
            &&& !held && some ==> {
                &&& plan matches AlertPlan::Dispatch(dispatch) && dispatch.event() == event
                    && dispatch.sent() == 0 && exists|positions: Seq<int>| #[trigger]
                    are_positions_in_use(positions, services[i].alerts@) && positions.len()
                        == dispatch.targets().len() && forall|k: int|
                        0 <= k < positions.len() ==> dispatch.targets()[k]
                            == services[i].alerts@[#[trigger] positions[k]]
                &&& after == before
            }
            &&& !held && !some ==> {
                &&& plan is NoTargets
                &&& after.dom() == before.dom().insert(id)
                &&& after[id].last_alert_at == now
                &&& after[id].alerted_for_failure == (event.new_status == ServiceStatus::Failed
                    || event.new_status == ServiceStatus::Degraded)
                &&& forall|other: Seq<char>|
                    other != id && #[trigger] before.dom().contains(other) ==> after[other]
                        == before[other]
            }
        }),
{
    let id = event.service_id@;
    config::lemma_service_position_is_the_last(services, id, i);
    lemma_cooldown_in_full(before, id, event.new_status, now);
    let targets = services[i].alerts@;
    let positions = lemma_enabled_positions(targets);
    if exists|k: int| 0 <= k < targets.len() && (#[trigger] targets[k]).enabled {
        let k = choose|k: int| 0 <= k < targets.len() && (#[trigger] targets[k]).enabled;
        assert(positions.contains(k));
        assert(positions.len() > 0);
    } else if positions.len() > 0 {
        assert(targets[positions[0]].enabled);
    }
    if let AlertPlan::Dispatch(dispatch) = plan {
        assert(are_positions_in_use(positions, targets));
        assert forall|k: int| 0 <= k < positions.len() implies dispatch.targets()[k]
            == targets[#[trigger] positions[k]] by {
            assert(enabled(targets)[k] == targets[positions[k]]);
        }
    }
}

/// News of a service that is not in the configuration is dropped.
pub proof fn lemma_news_of_a_stranger(
    event: StatusChangeEvent,
    services: Seq<ServiceConfig>,
    before: Map<Seq<char>, RateLimitEntry>,
    now: Timestamp,
    plan: AlertPlan,
    after: Map<Seq<char>, RateLimitEntry>,
)
    requires
        is_planned(event, services, before, now, plan, after),
        forall|j: int| 0 <= j < services.len() ==> (#[trigger] services[j]).id@ != event.service_id@,
    ensures
        !(plan is Dispatch),
        !(plan is NoTargets),
        after == before,
{
    config::lemma_service_position(services, event.service_id@);
}

/// A URL may be called exactly where it was parsed and has the scheme `https`, or
/// the scheme `http` and a host that is this machine. A refusal says which of the
/// rules it breaks.
pub proof fn lemma_webhook_rule_in_full(
    parts: Result<(Seq<char>, Option<Seq<char>>), Seq<char>>,
)
    ensures
        webhook_problem(parts) is None <==> (parts matches Ok((scheme, host)) && (scheme
            == "https"@ || (scheme == "http"@ && host is Some && (host->0 == "localhost"@ || host->0
            == "127.0.0.1"@ || host->0 == "::1"@)))),
        parts matches Err(words) ==> webhook_problem(parts) == Some("Invalid URL: "@ + words),
        parts matches Ok((scheme, host)) ==> scheme != "http"@ && scheme != "https"@
            ==> webhook_problem(parts) == Some(
            "Unsupported scheme '"@ + scheme + "' — only http/https allowed"@,
        ),
        parts matches Ok((scheme, host)) ==> scheme == "http"@ && webhook_problem(parts) is Some
            ==> webhook_problem(parts) == Some(
            "Non-loopback webhook URL must use HTTPS — got HTTP for host '"@ + (match host {
                Some(name) => name,
                None => ""@,
            }) + "'"@,
        ),
{
    reveal_strlit("");
    reveal_strlit("http");
    reveal_strlit("https");
    reveal_strlit("localhost");
    reveal_strlit("127.0.0.1");
    reveal_strlit("::1");
    assert(""@.len() == 0);
    assert("http"@.len() == 4);
    assert("https"@.len() == 5);
    assert("localhost"@.len() == 9);
    assert("127.0.0.1"@.len() == 9);
    assert("::1"@.len() == 3);
}

/// A webhook without a URL, or with one that may not be called, is not told; any
/// other one is told at its URL without the white space around it, and what it
/// is told is the status change.
pub proof fn lemma_webhook_delivery_in_full(
    delivery: Delivery,
    event: StatusChangeEvent,
    endpoint: Option<String>,
    parts: Result<(Seq<char>, Option<Seq<char>>), Seq<char>>,
)
    requires
        is_webhook_delivery(delivery, event, endpoint, parts),
    ensures
        delivery is NoEndpoint <==> (endpoint is None || forall|k: int|
            0 <= k < endpoint->0@.len() ==> unicode::white_space(#[trigger] endpoint->0@[k])),
        delivery is Refused <==> !(delivery is NoEndpoint) && webhook_problem(parts) is Some,
        delivery matches Delivery::Refused(reason) ==> webhook_problem(parts) == Some(reason@),
        delivery is Post <==> !(delivery is NoEndpoint) && webhook_problem(parts) is None,
        !(delivery is Log),
        delivery matches Delivery::Post { endpoint: to, payload } ==> {
            &&& to@ == unicode::trimmed(endpoint->0@)
            &&& payload.source@ == "vela"@
            &&& payload.version@ == "1"@
            &&& payload.event.service_id@ == event.service_id@
            &&& payload.event.status_from@ == event.previous_status.name()
            &&& payload.event.status_to@ == event.new_status.name()
            &&& payload.event.timestamp@ == clock::rfc3339(event.timestamp@)
            &&& unicode::byte_len(event.service_name@) <= 128 ==> payload.event.service_name@
                == event.service_name@
            &&& unicode::byte_len(event.message@) <= 512 ==> payload.event.message@
                == event.message@
        },
{
    unicode::lemma_shortening_in_full(event.service_name@, 128, 0);
    unicode::lemma_shortening_in_full(event.message@, 512, 0);
}

/// Each destination is told in its own way: a log by a line with the status
/// change, the louder the worse the status is; a webhook at its URL.
pub proof fn lemma_delivery_in_full(
    delivery: Delivery,
    event: StatusChangeEvent,
    target: AlertTargetConfig,
)
    requires
        is_delivery(delivery, event, target),
    ensures
        delivery is Log <==> target.kind == AlertKind::Log,
        target.kind == AlertKind::Webhook ==> is_webhook_delivery(
            delivery,
            event,
            target.endpoint,
            parsed_url(match target.endpoint {
                Some(url) => unicode::trimmed(url@),
                None => ""@,
            }),
        ),
        delivery matches Delivery::Log { level, line } ==> {
            &&& level == LogLevel::Error <==> event.new_status == ServiceStatus::Failed
            &&& level == LogLevel::Warn <==> event.new_status == ServiceStatus::Degraded
            &&& unicode::byte_len(event.service_name@) <= 128 && unicode::byte_len(event.message@)
                <= 512 ==> line@ == "[ALERT] service='"@ + event.service_id@ + "' name='"@
                + event.service_name@ + "' status="@ + event.previous_status.name() + "→"@
                + event.new_status.name() + " msg='"@ + event.message@ + "'"@
        },
{
    unicode::lemma_shortening_in_full(event.service_name@, 128, 0);
    unicode::lemma_shortening_in_full(event.message@, 512, 0);
}

/// What a delivery comes to: a line in the log always counts as delivered, a
/// request exactly where an answer from 200 to 299 came back, and nothing else
/// ever.
pub proof fn lemma_what_counts_as_delivered(delivery: Delivery, answer: Option<u16>)
    ensures
        delivery is Log ==> delivered(delivery, answer),
        delivery is Post ==> (delivered(delivery, answer) <==> answer is Some && 200 <= answer->0
            <= 299),
        delivery is NoEndpoint || delivery is Refused ==> !delivered(delivery, answer),
{
}

/// Each step of a dispatch puts a record of its destination at the end of the log
/// of the service: what was told, how, when, and whether it came through. Then
/// comes the next destination; after the last one, and not before, the cooldown
/// begins.
pub proof fn lemma_step_of_a_dispatch(
    before: Dispatch,
    answer: Option<u16>,
    now: Timestamp,
    old_logs: Map<Seq<char>, Vec<AlertRecord>>,
    new_logs: Map<Seq<char>, Vec<AlertRecord>>,
    old_limits: Map<Seq<char>, RateLimitEntry>,
    new_limits: Map<Seq<char>, RateLimitEntry>,
    rest: Option<Dispatch>,
)
    requires
        is_noted(before, answer, now, old_logs, new_logs, old_limits, new_limits, rest),
    ensures
        ({
            let event = before.event();
            let id = event.service_id@;
            let target = before.targets()[before.sent() as int];
            let url_is_good = target.endpoint is Some && !unicode::blank(target.endpoint->0@)
                && webhook_problem(parsed_url(unicode::trimmed(target.endpoint->0@))) is None;
            let log = new_logs[id]@;
            &&& new_logs.dom().contains(id)
            &&& log.len() > 0
            &&& log.last().service_id@ == id
            &&& log.last().kind == target.kind
            &&& log.last().sent_at == now
            &&& log.last().trigger@ == event.previous_status.name() + "→"@
                + event.new_status.name()
            &&& target.kind == AlertKind::Log ==> log.last().delivered
            &&& target.kind == AlertKind::Webhook ==> (log.last().delivered <==> url_is_good
                && answer is Some && 200 <= answer->0 <= 299)
            &&& log.last().error is None <==> log.last().delivered
            &&& log.last().error matches Some(words) ==> words@ == "Delivery failed for "@
                + target.kind.name() + " target"@
            &&& rest is Some <==> before.sent() + 1 < before.targets().len()
            &&& rest matches Some(next) ==> next.event() == event && next.targets()
                == before.targets() && next.sent() == before.sent() + 1 && new_limits
                == old_limits
            &&& rest is None ==> {
                &&& new_limits.dom() == old_limits.dom().insert(id)
                &&& new_limits[id].last_alert_at == now
                &&& new_limits[id].alerted_for_failure == (event.new_status
                    == ServiceStatus::Failed || event.new_status == ServiceStatus::Degraded)
                &&& forall|other: Seq<char>|
                    other != id && #[trigger] old_limits.dom().contains(other)
                        ==> new_limits[other] == old_limits[other]
            }
        }),
{
    let id = before.event().service_id@;
    let target = before.targets()[before.sent() as int];
    let max = state::MAX_ALERT_RECORDS as nat;
    let record = choose|record: AlertRecord|
        notes(record, before.event(), target.kind, comes_through(target, answer), now)
            && #[trigger] state::appended(old_logs, new_logs, id, record, max);
    state::lemma_log_reads_back(old_logs, new_logs, id, record, max);
    assert(new_logs[id]@.last() == record);
}

} // verus!
