//! The state store: what the engines know of every service.
//!
//! The store itself is a plain value. Whoever shares it between tasks guards
//! it by a lock and hands on the events that its operations return.

use vstd::prelude::*;
use vstd::string::*;

use crate::clock::Timestamp;
use crate::error;
use crate::error::VelaError;
use crate::models::{
    AlertRecord, HealthRecord, RestartRecord, ServiceState, ServiceStatus, StatusChangeEvent,
    UpstreamState,
};
use crate::table::Table;
use crate::text;

verus! {

/// The most health records kept of a service.
pub const MAX_HEALTH_RECORDS: usize = 100;

/// The most restart records kept of a service.
pub const MAX_RESTART_RECORDS: usize = 50;

/// The most alert records kept of a service.
pub const MAX_ALERT_RECORDS: usize = 50;

/// The tables of the store, each keyed by the id of the service.
#[derive(Debug)]
pub struct StateInner {
    /// The state of each service.
    pub services: Table<ServiceState>,
    /// The last health checks of each service.
    pub health_records: Table<Vec<HealthRecord>>,
    /// The last restart attempts of each service.
    pub restart_records: Table<Vec<RestartRecord>>,
    /// The last alerts of each service.
    pub alert_records: Table<Vec<AlertRecord>>,
    /// The state of each instance of each service.
    pub upstream_states: Table<Vec<UpstreamState>>,
}

/// The state store.
#[derive(Debug)]
pub struct VelaState {
    pub inner: StateInner,
}

/// The log of `key`: empty where the table has none.
pub open spec fn log_of<T>(logs: Map<Seq<char>, Vec<T>>, key: Seq<char>) -> Seq<T> {
    if logs.dom().contains(key) {
        logs[key]@
    } else {
        Seq::empty()
    }
}

/// `log` with `item` at its end; where it then holds more than `max` items, the
/// oldest one is gone.
pub open spec fn rolled<T>(log: Seq<T>, item: T, max: nat) -> Seq<T> {
    if log.len() + 1 > max {
        log.push(item).drop_first()
    } else {
        log.push(item)
    }
}

/// Whether `after` is `before` with `item` at the end of the log of `key`, of
/// which at most `max` items are kept.
pub open spec fn appended<T>(
    before: Map<Seq<char>, Vec<T>>,
    after: Map<Seq<char>, Vec<T>>,
    key: Seq<char>,
    item: T,
    max: nat,
) -> bool {
    &&& after.dom() == before.dom().insert(key)
    &&& after[key]@ == rolled(log_of(before, key), item, max)
    &&& forall|k: Seq<char>|
        k != key && #[trigger] before.dom().contains(k) ==> after[k] == before[k]
}

/// Whether no log of the table holds more than `max` items.
pub open spec fn bounded<T>(logs: Map<Seq<char>, Vec<T>>, max: nat) -> bool {
    forall|k: Seq<char>| #[trigger] logs.dom().contains(k) ==> logs[k]@.len() <= max
}

/// The status of a service or an instance after `failures` failed checks in a
/// row.
pub open spec fn failing_status(failures: int, threshold: u32) -> ServiceStatus {
    if failures >= threshold {
        ServiceStatus::Failed
    } else {
        ServiceStatus::Degraded
    }
}

/// The state of a service after a check of the service as a whole.
pub open spec fn service_after_check(
    state: ServiceState,
    success: bool,
    at: Timestamp,
    threshold: u32,
) -> ServiceState {
    if success {
        ServiceState {
            status: ServiceStatus::Healthy,
            consecutive_failures: 0,
            last_checked_at: Some(at),
            last_ok_at: Some(at),
            ..state
        }
    } else {
        ServiceState {
            status: failing_status(state.consecutive_failures + 1, threshold),
            consecutive_failures: (state.consecutive_failures + 1) as u32,
            last_checked_at: Some(at),
            ..state
        }
    }
}

/// The state of an instance after a check.
pub open spec fn upstream_after_check(
    state: UpstreamState,
    success: bool,
    latency_ms: u64,
    at: Timestamp,
    threshold: u32,
) -> UpstreamState {
    if success {
        UpstreamState {
            status: ServiceStatus::Healthy,
            consecutive_failures: 0,
            last_checked_at: Some(at),
            last_ok_at: Some(at),
            latency_ms: Some(latency_ms),
            ..state
        }
    } else {
        UpstreamState {
            status: failing_status(state.consecutive_failures + 1, threshold),
            consecutive_failures: (state.consecutive_failures + 1) as u32,
            last_checked_at: Some(at),
            latency_ms: Some(latency_ms),
            ..state
        }
    }
}

/// The position of the first instance with this host and port, if there is
/// one.
pub open spec fn upstream_position(
    upstreams: Seq<UpstreamState>,
    host: Seq<char>,
    port: u16,
) -> Option<int>
    decreases upstreams.len(),
{
    if upstreams.len() == 0 {
        None
    } else if upstreams[0].host@ == host && upstreams[0].port == port {
        Some(0)
    } else {
        match upstream_position(upstreams.drop_first(), host, port) {
            Some(i) => Some(i + 1),
            None => None,
        }
    }
}

/// Whether all instances have this status.
pub open spec fn all_are(upstreams: Seq<UpstreamState>, status: ServiceStatus) -> bool {
    forall|i: int| 0 <= i < upstreams.len() ==> (#[trigger] upstreams[i]).status == status
}

/// Whether some instance has this status.
pub open spec fn any_is(upstreams: Seq<UpstreamState>, status: ServiceStatus) -> bool {
    exists|i: int| 0 <= i < upstreams.len() && (#[trigger] upstreams[i]).status == status
}

/// The status of a service with these instances:
/// - all healthy: healthy;
/// - all failed: failed;
/// - some failed: degraded, as it runs at part of its capacity;
/// - none failed, some unknown: unknown, as first checks are still due;
/// - otherwise: degraded.
pub open spec fn aggregate_status(upstreams: Seq<UpstreamState>) -> ServiceStatus {
    if all_are(upstreams, ServiceStatus::Healthy) {
        ServiceStatus::Healthy
    } else if all_are(upstreams, ServiceStatus::Failed) {
        ServiceStatus::Failed
    } else if any_is(upstreams, ServiceStatus::Failed) {
        ServiceStatus::Degraded
    } else if any_is(upstreams, ServiceStatus::Unknown) {
        ServiceStatus::Unknown
    } else {
        ServiceStatus::Degraded
    }
}

/// The most failures in a row that any of the instances has.
pub open spec fn most_failures(upstreams: Seq<UpstreamState>) -> u32
    decreases upstreams.len(),
{
    if upstreams.len() == 0 {
        0
    } else {
        let rest = most_failures(upstreams.drop_last());
        if upstreams.last().consecutive_failures > rest {
            upstreams.last().consecutive_failures
        } else {
            rest
        }
    }
}

/// The later of two points in time that may be missing.
pub open spec fn later_of(a: Option<Timestamp>, b: Option<Timestamp>) -> Option<Timestamp> {
    match (a, b) {
        (None, _) => b,
        (_, None) => a,
        (Some(x), Some(y)) => if x@ <= y@ {
            b
        } else {
            a
        },
    }
}

/// When any of the instances was last checked.
pub open spec fn latest_check(upstreams: Seq<UpstreamState>) -> Option<Timestamp>
    decreases upstreams.len(),
{
    if upstreams.len() == 0 {
        None
    } else {
        later_of(latest_check(upstreams.drop_last()), upstreams.last().last_checked_at)
    }
}

/// When a check of any of the instances last passed.
pub open spec fn latest_ok(upstreams: Seq<UpstreamState>) -> Option<Timestamp>
    decreases upstreams.len(),
{
    if upstreams.len() == 0 {
        None
    } else {
        later_of(latest_ok(upstreams.drop_last()), upstreams.last().last_ok_at)
    }
}

/// The state of a service whose instances are in these states.
pub open spec fn service_of_upstreams(
    state: ServiceState,
    upstreams: Seq<UpstreamState>,
) -> ServiceState {
    ServiceState {
        status: aggregate_status(upstreams),
        consecutive_failures: most_failures(upstreams),
        last_checked_at: latest_check(upstreams),
        last_ok_at: latest_ok(upstreams),
        ..state
    }
}

/// The words of a status change.
pub open spec fn transition_message(
    service_id: Seq<char>,
    previous: ServiceStatus,
    new: ServiceStatus,
) -> Seq<char> {
    "Service '"@ + service_id + "' transitioned from "@ + previous.name() + " to "@ + new.name()
}

/// Whether `event` reports this status change.
pub open spec fn reports(
    event: StatusChangeEvent,
    service_id: Seq<char>,
    service_name: Seq<char>,
    previous: ServiceStatus,
    new: ServiceStatus,
    at: Timestamp,
) -> bool {
    &&& event.service_id@ == service_id
    &&& event.service_name@ == service_name
    &&& event.previous_status == previous
    &&& event.new_status == new
    &&& event.timestamp == at
    &&& event.message@ == transition_message(service_id, previous, new)
}

/// Whether `event` is there exactly where the status changed, and reports it.
pub open spec fn reports_change(
    event: Option<StatusChangeEvent>,
    service_id: Seq<char>,
    service_name: Seq<char>,
    previous: ServiceStatus,
    new: ServiceStatus,
    at: Timestamp,
) -> bool {
    match event {
        Some(e) => previous != new && reports(e, service_id, service_name, previous, new, at),
        None => previous == new,
    }
}

/// Whether `record` holds the result of this check.
pub open spec fn is_record(
    record: HealthRecord,
    service_id: Seq<char>,
    success: bool,
    latency_ms: u64,
    at: Timestamp,
    error: Option<String>,
) -> bool {
    &&& record.service_id@ == service_id
    &&& record.success == success
    &&& record.latency_ms == latency_ms
    &&& record.checked_at == at
    &&& record.error == error
}

/// The host and port of each healthy instance.
pub open spec fn healthy_addresses(upstreams: Seq<UpstreamState>) -> Seq<(Seq<char>, u16)>
    decreases upstreams.len(),
{
    if upstreams.len() == 0 {
        Seq::empty()
    } else {
        let rest = healthy_addresses(upstreams.drop_last());
        let last = upstreams.last();
        if last.status == ServiceStatus::Healthy {
            rest.push((last.host@, last.port))
        } else {
            rest
        }
    }
}

/// Hosts and ports by the characters of the hosts.
pub open spec fn addresses(pairs: Seq<(String, u16)>) -> Seq<(Seq<char>, u16)> {
    pairs.map_values(|p: (String, u16)| (p.0@, p.1))
}

/// The words for a service that is not in the store.
pub open spec fn unknown_service(service_id: Seq<char>) -> Seq<char> {
    "Service '"@ + service_id + "' not found in state store"@
}

/// The words for a service whose instances are not in the store.
pub open spec fn unknown_upstreams(service_id: Seq<char>) -> Seq<char> {
    "Service '"@ + service_id + "' not found in upstream_states"@
}

/// The words for an instance that is not in the store.
pub open spec fn unknown_upstream(
    service_id: Seq<char>,
    host: Seq<char>,
    port: u16,
) -> Seq<char> {
    "Upstream "@ + host + ":"@ + text::decimal(port as nat) + " not registered for service '"@
        + service_id + "'"@
}

fn append_to_log<T>(logs: &mut Table<Vec<T>>, key: &str, item: T, max: usize)
    requires
        max > 0,
    ensures
        appended(old(logs)@, final(logs)@, key@, item, max as nat),
{
    let mut log: Vec<T> = if logs.contains(key) {
        logs.replace(key, Vec::new())
    } else {
        Vec::new()
    };
    let ghost before = log@;
    log.push(item);
    if log.len() > max {
        let _oldest = log.remove(0);
        assert(log@ =~= before.push(item).drop_first());
    }
    logs.insert(key.to_owned(), log);
    assert(logs@.dom() =~= old(logs)@.dom().insert(key@));
}

fn transition_text(service_id: &str, previous: ServiceStatus, new: ServiceStatus) -> (text: String)
    ensures
        text@ == transition_message(service_id@, previous, new),
{
    String::from_str("Service '").concat(service_id).concat("' transitioned from ").concat(
        previous.label(),
    ).concat(" to ").concat(new.label())
}

fn change_event(
    service_id: &str,
    service_name: String,
    previous: ServiceStatus,
    new: ServiceStatus,
    at: Timestamp,
) -> (event: Option<StatusChangeEvent>)
    ensures
        reports_change(event, service_id@, service_name@, previous, new, at),
{
    if previous == new {
        None
    } else {
        Some(
            StatusChangeEvent {
                service_id: service_id.to_owned(),
                service_name,
                previous_status: previous,
                new_status: new,
                timestamp: at,
                message: transition_text(service_id, previous, new),
            },
        )
    }
}

fn unknown_service_error(service_id: &str) -> (e: VelaError)
    ensures
        error::is_state_error(e, unknown_service(service_id@)),
{
    VelaError::StateError(
        String::from_str("Service '").concat(service_id).concat("' not found in state store"),
    )
}

fn status_after_failure(failures: u32, threshold: u32) -> (status: ServiceStatus)
    ensures
        status == failing_status(failures as int, threshold),
{
    if failures >= threshold {
        ServiceStatus::Failed
    } else {
        ServiceStatus::Degraded
    }
}

proof fn lemma_upstream_position(
    upstreams: Seq<UpstreamState>,
    host: Seq<char>,
    port: u16,
    i: int,
)
    requires
        0 <= i <= upstreams.len(),
        forall|j: int|
            0 <= j < i ==> !((#[trigger] upstreams[j]).host@ == host && upstreams[j].port == port),
        i < upstreams.len() ==> upstreams[i].host@ == host && upstreams[i].port == port,
    ensures
        upstream_position(upstreams, host, port) == (if i < upstreams.len() {
            Some(i)
        } else {
            None
        }),
    decreases i,
{
    if i > 0 {
        let rest = upstreams.drop_first();
        assert(!(upstreams[0].host@ == host && upstreams[0].port == port));
        assert forall|j: int| 0 <= j < i - 1 implies !((#[trigger] rest[j]).host@ == host
            && rest[j].port == port) by {
            assert(rest[j] == upstreams[j + 1]);
        }
        lemma_upstream_position(rest, host, port, i - 1);
    }
}

fn find_upstream(upstreams: &Vec<UpstreamState>, host: &str, port: u16) -> (result: Option<usize>)
    ensures
        match result {
            Some(i) => upstream_position(upstreams@, host@, port) == Some(i as int) && i
                < upstreams@.len(),
            None => upstream_position(upstreams@, host@, port) is None,
        },
{
    let mut i: usize = 0;
    while i < upstreams.len()
        invariant
            i <= upstreams@.len(),
            forall|j: int|
                0 <= j < i ==> !((#[trigger] upstreams@[j]).host@ == host@ && upstreams@[j].port
                    == port),
        decreases upstreams.len() - i,
    {
        if text::same(upstreams[i].host.as_str(), host) && upstreams[i].port == port {
            proof {
                lemma_upstream_position(upstreams@, host@, port, i as int);
            }
            return Some(i);
        }
        i = i + 1;
    }
    proof {
        lemma_upstream_position(upstreams@, host@, port, i as int);
    }
    None
}

/// The status of a service from the states of its instances.
pub fn aggregate(upstreams: &Vec<UpstreamState>) -> (status: ServiceStatus)
    ensures
        status == aggregate_status(upstreams@),
{
    let mut all_healthy = true;
    let mut all_failed = true;
    let mut any_failed = false;
    let mut any_unknown = false;
    let mut i: usize = 0;
    while i < upstreams.len()
        invariant
            i <= upstreams@.len(),
            all_healthy == all_are(upstreams@.take(i as int), ServiceStatus::Healthy),
            all_failed == all_are(upstreams@.take(i as int), ServiceStatus::Failed),
            any_failed == any_is(upstreams@.take(i as int), ServiceStatus::Failed),
            any_unknown == any_is(upstreams@.take(i as int), ServiceStatus::Unknown),
        decreases upstreams.len() - i,
    {
        let status = upstreams[i].status;
        proof {
            lemma_all_are_step(upstreams@, i as int, ServiceStatus::Healthy);
            lemma_all_are_step(upstreams@, i as int, ServiceStatus::Failed);
            lemma_any_is_step(upstreams@, i as int, ServiceStatus::Failed);
            lemma_any_is_step(upstreams@, i as int, ServiceStatus::Unknown);
        }
        all_healthy = all_healthy && status == ServiceStatus::Healthy;
        all_failed = all_failed && status == ServiceStatus::Failed;
        any_failed = any_failed || status == ServiceStatus::Failed;
        any_unknown = any_unknown || status == ServiceStatus::Unknown;
        i = i + 1;
    }
    assert(upstreams@.take(i as int) =~= upstreams@);
    if all_healthy {
        ServiceStatus::Healthy
    } else if all_failed {
        ServiceStatus::Failed
    } else if any_failed {
        ServiceStatus::Degraded
    } else if any_unknown {
        ServiceStatus::Unknown
    } else {
        ServiceStatus::Degraded
    }
}

proof fn lemma_all_are_step(upstreams: Seq<UpstreamState>, i: int, status: ServiceStatus)
    requires
        0 <= i < upstreams.len(),
    ensures
        all_are(upstreams.take(i + 1), status) == (all_are(upstreams.take(i), status)
            && upstreams[i].status == status),
{
    let shorter = upstreams.take(i);
    let longer = upstreams.take(i + 1);
    assert(longer[i] == upstreams[i]);
    assert forall|j: int| 0 <= j < i implies #[trigger] shorter[j] == longer[j] by {}
    if all_are(longer, status) {
        assert forall|j: int| 0 <= j < shorter.len() implies (#[trigger] shorter[j]).status
            == status by {
            assert(longer[j].status == status);
        }
    }
}

proof fn lemma_any_is_step(upstreams: Seq<UpstreamState>, i: int, status: ServiceStatus)
    requires
        0 <= i < upstreams.len(),
    ensures
        any_is(upstreams.take(i + 1), status) == (any_is(upstreams.take(i), status)
            || upstreams[i].status == status),
{
    let shorter = upstreams.take(i);
    let longer = upstreams.take(i + 1);
    assert(longer[i] == upstreams[i]);
    if any_is(shorter, status) {
        let j = choose|j: int| 0 <= j < shorter.len() && (#[trigger] shorter[j]).status == status;
        assert(longer[j] == shorter[j]);
    }
    if any_is(longer, status) {
        let j = choose|j: int| 0 <= j < longer.len() && (#[trigger] longer[j]).status == status;
        if j < i {
            assert(shorter[j] == longer[j]);
        }
    }
}

fn later(a: Option<Timestamp>, b: Option<Timestamp>) -> (result: Option<Timestamp>)
    ensures
        result == later_of(a, b),
{
    match (a, b) {
        (None, _) => b,
        (_, None) => a,
        (Some(x), Some(y)) => if x.is_no_later(y) {
            b
        } else {
            a
        },
    }
}

fn summed_up(upstreams: &Vec<UpstreamState>) -> (result: (
    u32,
    Option<Timestamp>,
    Option<Timestamp>,
))
    ensures
        result == (most_failures(upstreams@), latest_check(upstreams@), latest_ok(upstreams@)),
{
    let mut failures: u32 = 0;
    let mut checked_at: Option<Timestamp> = None;
    let mut ok_at: Option<Timestamp> = None;
    let mut i: usize = 0;
    while i < upstreams.len()
        invariant
            i <= upstreams@.len(),
            failures == most_failures(upstreams@.take(i as int)),
            checked_at == latest_check(upstreams@.take(i as int)),
            ok_at == latest_ok(upstreams@.take(i as int)),
        decreases upstreams.len() - i,
    {
        assert(upstreams@.take(i + 1).drop_last() =~= upstreams@.take(i as int));
        if upstreams[i].consecutive_failures > failures {
            failures = upstreams[i].consecutive_failures;
        }
        checked_at = later(checked_at, upstreams[i].last_checked_at);
        ok_at = later(ok_at, upstreams[i].last_ok_at);
        i = i + 1;
    }
    assert(upstreams@.take(i as int) =~= upstreams@);
    (failures, checked_at, ok_at)
}

fn copied<T: Clone>(logs: &Table<Vec<T>>, key: &str) -> (log: Vec<T>)
    requires
        forall|a: T, b: T| #[trigger] cloned(a, b) ==> a == b,
    ensures
        log@ == log_of(logs@, key@),
{
    match logs.get(key) {
        Some(found) => {
            let log = found.clone();
            assert forall|i: int| 0 <= i < found@.len() implies log@[i] == found@[i] by {
                assert(cloned(found@[i], log@[i]));
            }
            assert(log@ =~= found@);
            log
        },
        None => Vec::new(),
    }
}

impl VelaState {
    /// Whether every log is within its limit.
    pub open spec fn logs_bounded(&self) -> bool {
        &&& bounded(self.inner.health_records@, MAX_HEALTH_RECORDS as nat)
        &&& bounded(self.inner.restart_records@, MAX_RESTART_RECORDS as nat)
        &&& bounded(self.inner.alert_records@, MAX_ALERT_RECORDS as nat)
    }

    /// An empty store.
    pub fn new() -> (state: Self)
        ensures
            state.inner.services@ == Map::<Seq<char>, ServiceState>::empty(),
            state.inner.services.order() == Seq::<Seq<char>>::empty(),
            state.inner.health_records@ == Map::<Seq<char>, Vec<HealthRecord>>::empty(),
            state.inner.restart_records@ == Map::<Seq<char>, Vec<RestartRecord>>::empty(),
            state.inner.alert_records@ == Map::<Seq<char>, Vec<AlertRecord>>::empty(),
            state.inner.upstream_states@ == Map::<Seq<char>, Vec<UpstreamState>>::empty(),
            state.logs_bounded(),
    {
        VelaState {
            inner: StateInner {
                services: Table::new(),
                health_records: Table::new(),
                restart_records: Table::new(),
                alert_records: Table::new(),
                upstream_states: Table::new(),
            },
        }
    }

    /// Enters a service, with no checks, restarts and alerts yet.
    pub fn register_service(&mut self, service_id: String) -> (result: Result<(), VelaError>)
        ensures
            result is Ok,
            final(self).inner.services@.dom() == old(self).inner.services@.dom().insert(
                service_id@,
            ),
            final(self).inner.services@[service_id@].is_initial(service_id@),
            final(self).inner.services@.remove(service_id@) == old(self).inner.services@.remove(
                service_id@,
            ),
            final(self).inner.services.order() == (if old(self).inner.services@.dom().contains(
                service_id@,
            ) {
                old(self).inner.services.order()
            } else {
                old(self).inner.services.order().push(service_id@)
            }),
            final(self).inner.health_records@.remove(service_id@) == old(
                self,
            ).inner.health_records@.remove(service_id@),
            final(self).inner.health_records@.dom().contains(service_id@),
            final(self).inner.health_records@[service_id@]@ == Seq::<HealthRecord>::empty(),
            final(self).inner.restart_records@.remove(service_id@) == old(
                self,
            ).inner.restart_records@.remove(service_id@),
            final(self).inner.restart_records@.dom().contains(service_id@),
            final(self).inner.restart_records@[service_id@]@ == Seq::<RestartRecord>::empty(),
            final(self).inner.alert_records@.remove(service_id@) == old(
                self,
            ).inner.alert_records@.remove(service_id@),
            final(self).inner.alert_records@.dom().contains(service_id@),
            final(self).inner.alert_records@[service_id@]@ == Seq::<AlertRecord>::empty(),
            final(self).inner.upstream_states == old(self).inner.upstream_states,
            old(self).logs_bounded() ==> final(self).logs_bounded(),
    {
        let initial = ServiceState::initial(service_id.clone());
        self.inner.services.insert(service_id.clone(), initial);
        self.inner.health_records.insert(service_id.clone(), Vec::new());
        self.inner.restart_records.insert(service_id.clone(), Vec::new());
        self.inner.alert_records.insert(service_id.clone(), Vec::new());
        assert(self.inner.services@.dom() =~= old(self).inner.services@.dom().insert(service_id@));
        Ok(())
    }

    /// Whether the failures of a service can be counted once more.
    pub fn can_count_failure(&self, service_id: &str) -> (result: bool)
        ensures
            result == (self.inner.services@.dom().contains(service_id@)
                ==> self.inner.services@[service_id@].consecutive_failures < u32::MAX),
    {
        match self.inner.services.get(service_id) {
            Some(state) => state.consecutive_failures < u32::MAX,
            None => true,
        }
    }

    /// Whether this store and `result` are what a check of a service as a whole
    /// makes of the store `before`.
    pub open spec fn after_health_check(
        &self,
        before: VelaState,
        record: HealthRecord,
        service_name: Seq<char>,
        failure_threshold: u32,
        now: Timestamp,
        result: Result<Option<StatusChangeEvent>, VelaError>,
    ) -> bool {
        let id = record.service_id@;
        if !before.inner.services@.dom().contains(id) {
            &&& result matches Err(e) && error::is_state_error(e, unknown_service(id))
            &&& *self == before
        } else {
            let old_state = before.inner.services@[id];
            let new_state = service_after_check(
                old_state,
                record.success,
                record.checked_at,
                failure_threshold,
            );
            &&& self.inner.services@ == before.inner.services@.insert(id, new_state)
            &&& self.inner.services.order() == before.inner.services.order()
            &&& appended(
                before.inner.health_records@,
                self.inner.health_records@,
                id,
                record,
                MAX_HEALTH_RECORDS as nat,
            )
            &&& self.inner.restart_records == before.inner.restart_records
            &&& self.inner.alert_records == before.inner.alert_records
            &&& self.inner.upstream_states == before.inner.upstream_states
            &&& result matches Ok(event) && reports_change(
                event,
                id,
                service_name,
                old_state.status,
                new_state.status,
                now,
            )
        }
    }

    /// Records the result of a check of a service as a whole, at the time
    /// `now`. Returns the event to broadcast where the status changed.
    pub fn record_health_check_at(
        &mut self,
        record: HealthRecord,
        service_name: String,
        failure_threshold: u32,
        now: Timestamp,
    ) -> (result: Result<Option<StatusChangeEvent>, VelaError>)
        requires
            old(self).inner.services@.dom().contains(record.service_id@) && !record.success
                ==> old(self).inner.services@[record.service_id@].consecutive_failures < u32::MAX,
        ensures
            old(self).logs_bounded() ==> final(self).logs_bounded(),
            final(self).after_health_check(
                *old(self),
                record,
                service_name@,
                failure_threshold,
                now,
                result,
            ),
    {
        let id = record.service_id.clone();
        let mut state = match self.inner.services.get(id.as_str()) {
            Some(found) => found.clone(),
            None => return Err(unknown_service_error(id.as_str())),
        };
        let previous = state.status;
        state.last_checked_at = Some(record.checked_at);
        if record.success {
            state.last_ok_at = Some(record.checked_at);
            state.consecutive_failures = 0;
            state.status = ServiceStatus::Healthy;
        } else {
            state.consecutive_failures = state.consecutive_failures + 1;
            state.status = status_after_failure(state.consecutive_failures, failure_threshold);
        }
        let new = state.status;
        let _before = self.inner.services.replace(id.as_str(), state);
        append_to_log(&mut self.inner.health_records, id.as_str(), record, MAX_HEALTH_RECORDS);
        Ok(change_event(id.as_str(), service_name, previous, new, now))
    }

    /// Records the result of a check of a service as a whole. An event is
    /// dated by the clock.
    pub fn record_health_check(
        &mut self,
        record: HealthRecord,
        service_name: String,
        failure_threshold: u32,
    ) -> (result: Result<Option<StatusChangeEvent>, VelaError>)
        requires
            old(self).inner.services@.dom().contains(record.service_id@) && !record.success
                ==> old(self).inner.services@[record.service_id@].consecutive_failures < u32::MAX,
        ensures
            old(self).logs_bounded() ==> final(self).logs_bounded(),
            exists|now: Timestamp|
                now@ >= 0 && #[trigger] final(self).after_health_check(
                    *old(self),
                    record,
                    service_name@,
                    failure_threshold,
                    now,
                    result,
                ),
    {
        self.record_health_check_at(record, service_name, failure_threshold, Timestamp::now())
    }

    /// Whether the restarts of a service can be counted once more.
    pub fn can_count_restart(&self, service_id: &str) -> (result: bool)
        ensures
            result == (self.inner.services@.dom().contains(service_id@)
                ==> self.inner.services@[service_id@].restart_count < u32::MAX),
    {
        match self.inner.services.get(service_id) {
            Some(state) => state.restart_count < u32::MAX,
            None => true,
        }
    }

    /// Records a restart attempt.
    pub fn record_restart(&mut self, record: RestartRecord) -> (result: Result<(), VelaError>)
        requires
            old(self).inner.services@.dom().contains(record.service_id@) ==> old(
                self,
            ).inner.services@[record.service_id@].restart_count < u32::MAX,
        ensures
            old(self).logs_bounded() ==> final(self).logs_bounded(),
            match result {
                Err(e) => {
                    &&& !old(self).inner.services@.dom().contains(record.service_id@)
                    &&& error::is_state_error(e, unknown_service(record.service_id@))
                    &&& *final(self) == *old(self)
                },
                Ok(_) => {
                    let id = record.service_id@;
                    let before = old(self).inner.services@[id];
                    let after = ServiceState {
                        restart_count: (before.restart_count + 1) as u32,
                        ..before
                    };
                    &&& old(self).inner.services@.dom().contains(id)
                    &&& final(self).inner.services@ == old(self).inner.services@.insert(id, after)
                    &&& final(self).inner.services.order() == old(self).inner.services.order()
                    &&& appended(
                        old(self).inner.restart_records@,
                        final(self).inner.restart_records@,
                        id,
                        record,
                        MAX_RESTART_RECORDS as nat,
                    )
                    &&& final(self).inner.health_records == old(self).inner.health_records
                    &&& final(self).inner.alert_records == old(self).inner.alert_records
                    &&& final(self).inner.upstream_states == old(self).inner.upstream_states
                },
            },
    {
        let id = record.service_id.clone();
        let mut state = match self.inner.services.get(id.as_str()) {
            Some(found) => found.clone(),
            None => return Err(unknown_service_error(id.as_str())),
        };
        state.restart_count = state.restart_count + 1;
        let _before = self.inner.services.replace(id.as_str(), state);
        append_to_log(&mut self.inner.restart_records, id.as_str(), record, MAX_RESTART_RECORDS);
        Ok(())
    }

    /// Records an alert, sent or not.
    pub fn record_alert(&mut self, record: AlertRecord) -> (result: Result<(), VelaError>)
        ensures
            result is Ok,
            old(self).logs_bounded() ==> final(self).logs_bounded(),
            appended(
                old(self).inner.alert_records@,
                final(self).inner.alert_records@,
                record.service_id@,
                record,
                MAX_ALERT_RECORDS as nat,
            ),
            final(self).inner.services == old(self).inner.services,
            final(self).inner.health_records == old(self).inner.health_records,
            final(self).inner.restart_records == old(self).inner.restart_records,
            final(self).inner.upstream_states == old(self).inner.upstream_states,
    {
        let id = record.service_id.clone();
        append_to_log(&mut self.inner.alert_records, id.as_str(), record, MAX_ALERT_RECORDS);
        Ok(())
    }

    /// The alerts kept of a service, the oldest first.
    pub fn get_alert_records(&self, service_id: &str) -> (records: Vec<AlertRecord>)
        ensures
            records@ == log_of(self.inner.alert_records@, service_id@),
    {
        copied(&self.inner.alert_records, service_id)
    }

    /// The states of all services.
    pub fn snapshot_services(&self) -> (services: Table<ServiceState>)
        ensures
            services@ == self.inner.services@,
            services.order() == self.inner.services.order(),
    {
        let services = self.inner.services.clone();
        assert forall|k: Seq<char>| #[trigger]
            self.inner.services@.dom().contains(k) implies services@[k]
            == self.inner.services@[k] by {
            assert(cloned(self.inner.services@[k], services@[k]));
        }
        assert(services@ =~= self.inner.services@);
        services
    }

    /// The health checks kept of a service, the oldest first.
    pub fn get_health_records(&self, service_id: &str) -> (records: Vec<HealthRecord>)
        ensures
            records@ == log_of(self.inner.health_records@, service_id@),
    {
        copied(&self.inner.health_records, service_id)
    }

    /// The restart attempts kept of a service, the oldest first.
    pub fn get_restart_records(&self, service_id: &str) -> (records: Vec<RestartRecord>)
        ensures
            records@ == log_of(self.inner.restart_records@, service_id@),
    {
        copied(&self.inner.restart_records, service_id)
    }

    /// Enters the instances of a service.
    pub fn register_service_upstreams(
        &mut self,
        service_id: String,
        upstreams: Vec<UpstreamState>,
    )
        ensures
            final(self).inner.upstream_states@ == old(self).inner.upstream_states@.insert(
                service_id@,
                upstreams,
            ),
            final(self).inner.services == old(self).inner.services,
            final(self).inner.health_records == old(self).inner.health_records,
            final(self).inner.restart_records == old(self).inner.restart_records,
            final(self).inner.alert_records == old(self).inner.alert_records,
            old(self).logs_bounded() ==> final(self).logs_bounded(),
    {
        self.inner.upstream_states.insert(service_id, upstreams);
    }

    /// Whether the failures of an instance can be counted once more.
    pub fn can_count_upstream_failure(&self, service_id: &str, host: &str, port: u16) -> (result:
        bool)
        ensures
            result == self.upstream_has_room(service_id@, host@, port),
    {
        match self.inner.upstream_states.get(service_id) {
            Some(upstreams) => match find_upstream(upstreams, host, port) {
                Some(i) => upstreams[i].consecutive_failures < u32::MAX,
                None => true,
            },
            None => true,
        }
    }

    /// Whether the instance, where it is in the store, has fewer failures in a
    /// row than can be counted.
    pub open spec fn upstream_has_room(
        &self,
        service_id: Seq<char>,
        host: Seq<char>,
        port: u16,
    ) -> bool {
        self.inner.upstream_states@.dom().contains(service_id) ==> (match upstream_position(
            self.inner.upstream_states@[service_id]@,
            host,
            port,
        ) {
            Some(i) => self.inner.upstream_states@[service_id]@[i].consecutive_failures
                < u32::MAX,
            None => true,
        })
    }

    /// Records the result of a check of one instance, at the time `now`: the
    /// instance gets its new state, the service gets the status that follows
    /// from all of its instances, and the check goes into the log. Returns the
    /// event to broadcast where the status of the service changed.
    pub fn record_upstream_health_check_at(
        &mut self,
        service_id: &str,
        host: &str,
        port: u16,
        success: bool,
        latency_ms: u64,
        error: Option<String>,
        failure_threshold: u32,
        service_name: String,
        now: Timestamp,
    ) -> (result: Result<Option<StatusChangeEvent>, VelaError>)
        requires
            success || old(self).upstream_has_room(service_id@, host@, port),
        ensures
            old(self).logs_bounded() ==> final(self).logs_bounded(),
            final(self).after_upstream_check(
                *old(self),
                service_id@,
                host@,
                port,
                success,
                latency_ms,
                error,
                failure_threshold,
                service_name@,
                now,
                result,
            ),
    {
        if !self.inner.upstream_states.contains(service_id) {
            return Err(
                VelaError::StateError(
                    String::from_str("Service '").concat(service_id).concat(
                        "' not found in upstream_states",
                    ),
                ),
            );
        }
        let position = match self.inner.upstream_states.get(service_id) {
            Some(found) => find_upstream(found, host, port),
            None => None,
        };
        let i: usize = match position {
            Some(i) => i,
            None => return Err(
                VelaError::StateError(
                    String::from_str("Upstream ").concat(host).concat(":").concat(
                        text::decimal_text(port as u64).as_str(),
                    ).concat(" not registered for service '").concat(service_id).concat("'"),
                ),
            ),
        };
        let mut upstreams: Vec<UpstreamState> = self.inner.upstream_states.replace(
            service_id,
            Vec::new(),
        );
        let ghost before = upstreams@;
        let mut upstream = upstreams[i].clone();
        upstream.last_checked_at = Some(now);
        upstream.latency_ms = Some(latency_ms);
        if success {
            upstream.last_ok_at = Some(now);
            upstream.consecutive_failures = 0;
            upstream.status = ServiceStatus::Healthy;
        } else {
            upstream.consecutive_failures = upstream.consecutive_failures + 1;
            upstream.status = status_after_failure(
                upstream.consecutive_failures,
                failure_threshold,
            );
        }
        upstreams[i] = upstream;
        let status = aggregate(&upstreams);
        let (failures, checked_at, ok_at) = summed_up(&upstreams);
        let ghost after = upstreams@;
        assert(after =~= before.update(
            i as int,
            upstream_after_check(
                before[i as int],
                success,
                latency_ms,
                now,
                failure_threshold,
            ),
        ));
        let _empty = self.inner.upstream_states.replace(service_id, upstreams);
        assert(self.inner.upstream_states@.remove(service_id@) =~= old(
            self,
        ).inner.upstream_states@.remove(service_id@));
        assert(self.inner.upstream_states@.dom() =~= old(self).inner.upstream_states@.dom());

        let mut state = match self.inner.services.get(service_id) {
            Some(found) => found.clone(),
            None => return Err(unknown_service_error(service_id)),
        };
        let previous = state.status;
        state.status = status;
        state.consecutive_failures = failures;
        state.last_checked_at = checked_at;
        state.last_ok_at = ok_at;
        let _before = self.inner.services.replace(service_id, state);
        let record = HealthRecord {
            service_id: service_id.to_owned(),
            success,
            latency_ms,
            checked_at: now,
            error,
        };
        assert(is_record(record, service_id@, success, latency_ms, now, error));
        let ghost kept = record;
        append_to_log(&mut self.inner.health_records, service_id, record, MAX_HEALTH_RECORDS);
        assert(appended(
            old(self).inner.health_records@,
            self.inner.health_records@,
            service_id@,
            kept,
            MAX_HEALTH_RECORDS as nat,
        ));
        Ok(change_event(service_id, service_name, previous, status, now))
    }

    /// Whether this store and `result` are what a check of one instance makes
    /// of the store `before`.
    pub open spec fn after_upstream_check(
        &self,
        before: VelaState,
        service_id: Seq<char>,
        host: Seq<char>,
        port: u16,
        success: bool,
        latency_ms: u64,
        error: Option<String>,
        failure_threshold: u32,
        service_name: Seq<char>,
        now: Timestamp,
        result: Result<Option<StatusChangeEvent>, VelaError>,
    ) -> bool {
        let known = before.inner.upstream_states@.dom().contains(service_id);
        let old_upstreams = before.inner.upstream_states@[service_id]@;
        let position = upstream_position(old_upstreams, host, port);
        if !known {
            &&& result matches Err(e) && error::is_state_error(e, unknown_upstreams(service_id))
            &&& *self == before
        } else if position is None {
            &&& result matches Err(e) && error::is_state_error(
                e,
                unknown_upstream(service_id, host, port),
            )
            &&& *self == before
        } else {
            let new_upstreams = old_upstreams.update(
                position->0,
                upstream_after_check(
                    old_upstreams[position->0],
                    success,
                    latency_ms,
                    now,
                    failure_threshold,
                ),
            );
            &&& self.inner.upstream_states@.dom() == before.inner.upstream_states@.dom()
            &&& self.inner.upstream_states@[service_id]@ == new_upstreams
            &&& self.inner.upstream_states@.remove(service_id)
                == before.inner.upstream_states@.remove(service_id)
            &&& self.inner.restart_records == before.inner.restart_records
            &&& self.inner.alert_records == before.inner.alert_records
            &&& if !before.inner.services@.dom().contains(service_id) {
                &&& result matches Err(e) && error::is_state_error(e, unknown_service(service_id))
                &&& self.inner.services == before.inner.services
                &&& self.inner.health_records == before.inner.health_records
            } else {
                let old_state = before.inner.services@[service_id];
                let new_state = service_of_upstreams(old_state, new_upstreams);
                &&& self.inner.services@ == before.inner.services@.insert(service_id, new_state)
                &&& self.inner.services.order() == before.inner.services.order()
                &&& exists|record: HealthRecord|
                    is_record(record, service_id, success, latency_ms, now, error)
                        && #[trigger] appended(
                        before.inner.health_records@,
                        self.inner.health_records@,
                        service_id,
                        record,
                        MAX_HEALTH_RECORDS as nat,
                    )
                &&& result matches Ok(event) && reports_change(
                    event,
                    service_id,
                    service_name,
                    old_state.status,
                    new_state.status,
                    now,
                )
            }
        }
    }

    /// Records the result of a check of one instance, dated by the clock.
    pub fn record_upstream_health_check(
        &mut self,
        service_id: &str,
        host: &str,
        port: u16,
        success: bool,
        latency_ms: u64,
        error: Option<String>,
        failure_threshold: u32,
        service_name: String,
    ) -> (result: Result<Option<StatusChangeEvent>, VelaError>)
        requires
            success || old(self).upstream_has_room(service_id@, host@, port),
        ensures
            old(self).logs_bounded() ==> final(self).logs_bounded(),
            exists|now: Timestamp|
                now@ >= 0 && #[trigger] final(self).after_upstream_check(
                    *old(self),
                    service_id@,
                    host@,
                    port,
                    success,
                    latency_ms,
                    error,
                    failure_threshold,
                    service_name@,
                    now,
                    result,
                ),
    {
        self.record_upstream_health_check_at(
            service_id,
            host,
            port,
            success,
            latency_ms,
            error,
            failure_threshold,
            service_name,
            Timestamp::now(),
        )
    }

    /// The hosts and ports of the healthy instances of a service.
    pub fn get_healthy_upstreams(&self, service_id: &str) -> (result: Vec<(String, u16)>)
        ensures
            addresses(result@) == healthy_addresses(
                log_of(self.inner.upstream_states@, service_id@),
            ),
    {
        let mut result: Vec<(String, u16)> = Vec::new();
        assert(addresses(result@) =~= Seq::empty());
        if let Some(upstreams) = self.inner.upstream_states.get(service_id) {
            let mut i: usize = 0;
            assert(upstreams@.take(0) =~= Seq::empty());
            while i < upstreams.len()
                invariant
                    i <= upstreams@.len(),
                    addresses(result@) == healthy_addresses(upstreams@.take(i as int)),
                decreases upstreams.len() - i,
            {
                assert(upstreams@.take(i + 1).drop_last() =~= upstreams@.take(i as int));
                if upstreams[i].status == ServiceStatus::Healthy {
                    let ghost before = result@;
                    result.push((upstreams[i].host.clone(), upstreams[i].port));
                    assert(addresses(result@) =~= addresses(before).push(
                        (upstreams@[i as int].host@, upstreams@[i as int].port),
                    ));
                }
                i = i + 1;
            }
            assert(upstreams@.take(i as int) =~= upstreams@);
        }
        result
    }

    /// The states of all instances of all services.
    pub fn snapshot_upstream_states(&self) -> (upstreams: Table<Vec<UpstreamState>>)
        ensures
            upstreams.order() == self.inner.upstream_states.order(),
            upstreams@.dom() == self.inner.upstream_states@.dom(),
            forall|k: Seq<char>| #[trigger]
                upstreams@.dom().contains(k) ==> upstreams@[k]@
                    == self.inner.upstream_states@[k]@,
    {
        let upstreams = self.inner.upstream_states.clone();
        assert forall|k: Seq<char>| #[trigger]
            upstreams@.dom().contains(k) implies upstreams@[k]@
            == self.inner.upstream_states@[k]@ by {
            let found = self.inner.upstream_states@[k];
            let copy = upstreams@[k];
            assert(self.inner.upstream_states@.dom().contains(k));
            assert(cloned(found, copy));
            assert forall|i: int| 0 <= i < found@.len() implies copy@[i] == found@[i] by {
                assert(cloned(found@[i], copy@[i]));
            }
            assert(copy@ =~= found@);
        }
        upstreams
    }
}

/// The state of a service after failed checks at the given times, one after
/// the other.
pub open spec fn service_after_failures(
    state: ServiceState,
    times: Seq<Timestamp>,
    threshold: u32,
) -> ServiceState
    decreases times.len(),
{
    if times.len() == 0 {
        state
    } else {
        service_after_check(
            service_after_failures(state, times.drop_last(), threshold),
            false,
            times.last(),
            threshold,
        )
    }
}

/// Failed checks in a row add up, and the service is failed exactly from the
/// failure threshold on; before that it is degraded.
pub proof fn lemma_failed_from_threshold_on(
    state: ServiceState,
    times: Seq<Timestamp>,
    threshold: u32,
)
    requires
        times.len() > 0,
        state.consecutive_failures + times.len() <= u32::MAX,
    ensures
        ({
            let after = service_after_failures(state, times, threshold);
            let failures = state.consecutive_failures + times.len();
            &&& after.consecutive_failures == failures
            &&& failures >= threshold ==> after.status == ServiceStatus::Failed
            &&& failures < threshold ==> after.status == ServiceStatus::Degraded
            &&& after.last_ok_at == state.last_ok_at
        }),
    decreases times.len(),
{
    reveal_with_fuel(service_after_failures, 2);
    let rest = times.drop_last();
    if rest.len() > 0 {
        lemma_failed_from_threshold_on(state, rest, threshold);
    }
}

/// The state of an instance after failed checks, one after the other, with
/// these latencies and times.
pub open spec fn upstream_after_failures(
    state: UpstreamState,
    checks: Seq<(u64, Timestamp)>,
    threshold: u32,
) -> UpstreamState
    decreases checks.len(),
{
    if checks.len() == 0 {
        state
    } else {
        upstream_after_check(
            upstream_after_failures(state, checks.drop_last(), threshold),
            false,
            checks.last().0,
            checks.last().1,
            threshold,
        )
    }
}

/// Failed checks of one instance in a row add up, and the instance is failed
/// exactly from the failure threshold on; before that it is degraded. So is a
/// service that has no other instance.
pub proof fn lemma_upstream_failed_from_threshold_on(
    state: UpstreamState,
    checks: Seq<(u64, Timestamp)>,
    threshold: u32,
)
    requires
        checks.len() > 0,
        state.consecutive_failures + checks.len() <= u32::MAX,
    ensures
        ({
            let after = upstream_after_failures(state, checks, threshold);
            let failures = state.consecutive_failures + checks.len();
            &&& after.host == state.host
            &&& after.port == state.port
            &&& after.consecutive_failures == failures
            &&& failures >= threshold ==> after.status == ServiceStatus::Failed
            &&& failures < threshold ==> after.status == ServiceStatus::Degraded
            &&& after.last_ok_at == state.last_ok_at
            &&& after.last_checked_at == Some(checks.last().1)
            &&& after.latency_ms == Some(checks.last().0)
            &&& aggregate_status(seq![after]) == after.status
        }),
    decreases checks.len(),
{
    reveal_with_fuel(upstream_after_failures, 2);
    let rest = checks.drop_last();
    if rest.len() > 0 {
        lemma_upstream_failed_from_threshold_on(state, rest, threshold);
    }
    lemma_single_upstream_decides(upstream_after_failures(state, checks, threshold));
}

/// One passed check makes an instance healthy again, whatever came before it.
pub proof fn lemma_one_success_heals_an_upstream(
    state: UpstreamState,
    latency_ms: u64,
    at: Timestamp,
    threshold: u32,
)
    ensures
        ({
            let after = upstream_after_check(state, true, latency_ms, at, threshold);
            &&& after.status == ServiceStatus::Healthy
            &&& after.consecutive_failures == 0
            &&& after.last_ok_at == Some(at)
        }),
{
}

/// One passed check makes a service healthy again, whatever came before it.
pub proof fn lemma_one_success_heals(state: ServiceState, at: Timestamp, threshold: u32)
    ensures
        ({
            let after = service_after_check(state, true, at, threshold);
            &&& after.status == ServiceStatus::Healthy
            &&& after.consecutive_failures == 0
            &&& after.last_ok_at == Some(at)
        }),
{
}

/// A service with one instance has the status of that instance.
pub proof fn lemma_single_upstream_decides(upstream: UpstreamState)
    ensures
        aggregate_status(seq![upstream]) == upstream.status,
        most_failures(seq![upstream]) == upstream.consecutive_failures,
        latest_check(seq![upstream]) == upstream.last_checked_at,
        latest_ok(seq![upstream]) == upstream.last_ok_at,
{
    let one = seq![upstream];
    assert(one[0] == upstream);
    assert(one.drop_last() =~= Seq::<UpstreamState>::empty());
    assert(one.last() == upstream);
    assert(most_failures(one.drop_last()) == 0);
    assert(latest_check(one.drop_last()) is None);
    assert(latest_ok(one.drop_last()) is None);
}

/// The status of a service with at least one instance: healthy exactly where
/// all instances are, failed exactly where all instances are, unknown exactly
/// where some instance is and none has failed and not all are healthy.
pub proof fn lemma_aggregate_status(upstreams: Seq<UpstreamState>)
    requires
        upstreams.len() > 0,
    ensures
        aggregate_status(upstreams) == ServiceStatus::Healthy <==> all_are(
            upstreams,
            ServiceStatus::Healthy,
        ),
        aggregate_status(upstreams) == ServiceStatus::Failed <==> all_are(
            upstreams,
            ServiceStatus::Failed,
        ),
        aggregate_status(upstreams) == ServiceStatus::Unknown <==> any_is(
            upstreams,
            ServiceStatus::Unknown,
        ) && !any_is(upstreams, ServiceStatus::Failed),
        any_is(upstreams, ServiceStatus::Failed) && !all_are(upstreams, ServiceStatus::Failed)
            ==> aggregate_status(upstreams) == ServiceStatus::Degraded,
{
    if all_are(upstreams, ServiceStatus::Healthy) {
        assert(upstreams[0].status == ServiceStatus::Healthy);
        assert(!any_is(upstreams, ServiceStatus::Unknown));
    }
    if all_are(upstreams, ServiceStatus::Failed) {
        assert(upstreams[0].status == ServiceStatus::Failed);
        assert(any_is(upstreams, ServiceStatus::Failed));
    }
}

/// The times and the failures that a service shows are those of its instances:
/// none of them is later or larger.
pub proof fn lemma_service_shows_the_most(upstreams: Seq<UpstreamState>, i: int)
    requires
        0 <= i < upstreams.len(),
    ensures
        upstreams[i].consecutive_failures <= most_failures(upstreams),
        upstreams[i].last_checked_at matches Some(t) ==> latest_check(upstreams) is Some && t@
            <= latest_check(upstreams)->0@,
        upstreams[i].last_ok_at matches Some(t) ==> latest_ok(upstreams) is Some && t@
            <= latest_ok(upstreams)->0@,
    decreases upstreams.len(),
{
    if i < upstreams.len() - 1 {
        lemma_service_shows_the_most(upstreams.drop_last(), i);
    }
}

/// What is written to a log is read back at its end, after everything that
/// was there before; only where the log is full does its oldest item go.
pub proof fn lemma_log_reads_back<T>(
    before: Map<Seq<char>, Vec<T>>,
    after: Map<Seq<char>, Vec<T>>,
    key: Seq<char>,
    item: T,
    max: nat,
)
    requires
        max > 0,
        appended(before, after, key, item, max),
    ensures
        log_of(after, key).len() > 0,
        log_of(after, key).last() == item,
        log_of(before, key).len() < max ==> log_of(after, key).drop_last() == log_of(before, key),
        log_of(before, key).len() >= max ==> log_of(after, key).drop_last() == log_of(
            before,
            key,
        ).drop_first(),
        forall|k: Seq<char>| k != key ==> #[trigger] log_of(after, k) == log_of(before, k),
{
    let old_log = log_of(before, key);
    let new_log = log_of(after, key);
    assert(after.dom().contains(key));
    if old_log.len() < max {
        assert(new_log.drop_last() =~= old_log);
    } else {
        assert(new_log.drop_last() =~= old_log.drop_first());
    }
    assert forall|k: Seq<char>| k != key implies #[trigger] log_of(after, k) == log_of(
        before,
        k,
    ) by {
        assert(after.dom().contains(k) == before.dom().contains(k));
    }
}

/// An item added to a log keeps it within its limit.
pub proof fn lemma_log_stays_bounded<T>(
    before: Map<Seq<char>, Vec<T>>,
    after: Map<Seq<char>, Vec<T>>,
    key: Seq<char>,
    item: T,
    max: nat,
)
    requires
        max > 0,
        bounded(before, max),
        appended(before, after, key, item, max),
    ensures
        bounded(after, max),
{
}

proof fn lemma_position_is_in_range(
    upstreams: Seq<UpstreamState>,
    host: Seq<char>,
    port: u16,
)
    ensures
        upstream_position(upstreams, host, port) matches Some(i) ==> 0 <= i < upstreams.len()
            && upstreams[i].host@ == host && upstreams[i].port == port,
    decreases upstreams.len(),
{
    if upstreams.len() > 0 {
        lemma_position_is_in_range(upstreams.drop_first(), host, port);
    }
}

/// Whether the store knows an instance of a service, and the service.
pub open spec fn knows(state: VelaState, service_id: Seq<char>, host: Seq<char>, port: u16) -> bool {
    &&& state.inner.services@.dom().contains(service_id)
    &&& state.inner.upstream_states@.dom().contains(service_id)
    &&& upstream_position(state.inner.upstream_states@[service_id]@, host, port) is Some
}

proof fn lemma_position_by_address(
    a: Seq<UpstreamState>,
    b: Seq<UpstreamState>,
    host: Seq<char>,
    port: u16,
)
    requires
        a.len() == b.len(),
        forall|i: int|
            0 <= i < a.len() ==> (#[trigger] a[i]).host@ == b[i].host@ && a[i].port == b[i].port,
    ensures
        upstream_position(a, host, port) == upstream_position(b, host, port),
    decreases a.len(),
{
    if a.len() > 0 {
        let rest_a = a.drop_first();
        let rest_b = b.drop_first();
        assert(a[0].host@ == b[0].host@);
        assert forall|i: int| 0 <= i < rest_a.len() implies (#[trigger] rest_a[i]).host@
            == rest_b[i].host@ && rest_a[i].port == rest_b[i].port by {
            assert(a[i + 1].host@ == b[i + 1].host@);
        }
        lemma_position_by_address(rest_a, rest_b, host, port);
    }
}

/// The check of an instance that the store knows is always recorded, and the
/// store goes on knowing every instance that it knew.
pub proof fn lemma_known_upstreams_stay_known(
    before: VelaState,
    after: VelaState,
    service_id: Seq<char>,
    host: Seq<char>,
    port: u16,
    success: bool,
    latency_ms: u64,
    error: Option<String>,
    failure_threshold: u32,
    service_name: Seq<char>,
    now: Timestamp,
    result: Result<Option<StatusChangeEvent>, VelaError>,
    other_id: Seq<char>,
    other_host: Seq<char>,
    other_port: u16,
)
    requires
        after.after_upstream_check(
            before,
            service_id,
            host,
            port,
            success,
            latency_ms,
            error,
            failure_threshold,
            service_name,
            now,
            result,
        ),
    ensures
        knows(before, service_id, host, port) ==> result is Ok,
        knows(before, other_id, other_host, other_port) ==> knows(
            after,
            other_id,
            other_host,
            other_port,
        ),
{
    let old_upstreams = before.inner.upstream_states@[service_id]@;
    let position = upstream_position(old_upstreams, host, port);
    if knows(before, other_id, other_host, other_port) {
        if other_id == service_id {
            if position is Some {
                lemma_position_is_in_range(old_upstreams, host, port);
                lemma_position_by_address(
                    old_upstreams,
                    after.inner.upstream_states@[service_id]@,
                    other_host,
                    other_port,
                );
            }
        } else if before.inner.upstream_states@.dom().contains(service_id) && position is Some {
            assert(after.inner.upstream_states@.remove(service_id).dom().contains(other_id));
            assert(after.inner.upstream_states@.remove(service_id)[other_id]
                == after.inner.upstream_states@[other_id]);
            assert(before.inner.upstream_states@.remove(service_id)[other_id]
                == before.inner.upstream_states@[other_id]);
        }
    }
}

/// The check of an instance of one service changes nothing that the store
/// knows of any other service.
pub proof fn lemma_services_are_checked_apart(
    before: VelaState,
    after: VelaState,
    service_id: Seq<char>,
    host: Seq<char>,
    port: u16,
    success: bool,
    latency_ms: u64,
    error: Option<String>,
    failure_threshold: u32,
    service_name: Seq<char>,
    now: Timestamp,
    result: Result<Option<StatusChangeEvent>, VelaError>,
    other: Seq<char>,
)
    requires
        after.after_upstream_check(
            before,
            service_id,
            host,
            port,
            success,
            latency_ms,
            error,
            failure_threshold,
            service_name,
            now,
            result,
        ),
        other != service_id,
    ensures
        before.inner.services@.dom().contains(other) == after.inner.services@.dom().contains(other),
        before.inner.services@.dom().contains(other) ==> after.inner.services@[other]
            == before.inner.services@[other],
        log_of(after.inner.health_records@, other) == log_of(before.inner.health_records@, other),
        log_of(after.inner.restart_records@, other) == log_of(before.inner.restart_records@, other),
        log_of(after.inner.alert_records@, other) == log_of(before.inner.alert_records@, other),
        log_of(after.inner.upstream_states@, other) == log_of(before.inner.upstream_states@, other),
{
    let known = before.inner.upstream_states@.dom().contains(service_id);
    let position = upstream_position(before.inner.upstream_states@[service_id]@, host, port);
    if known && position is Some {
        assert(after.inner.upstream_states@.remove(service_id).dom().contains(other)
            == after.inner.upstream_states@.dom().contains(other));
        if before.inner.upstream_states@.dom().contains(other) {
            assert(after.inner.upstream_states@.remove(service_id)[other]
                == after.inner.upstream_states@[other]);
            assert(before.inner.upstream_states@.remove(service_id)[other]
                == before.inner.upstream_states@[other]);
        }
        if before.inner.services@.dom().contains(service_id) {
            let record = choose|record: HealthRecord|
                is_record(record, service_id, success, latency_ms, now, error)
                    && #[trigger] appended(
                    before.inner.health_records@,
                    after.inner.health_records@,
                    service_id,
                    record,
                    MAX_HEALTH_RECORDS as nat,
                );
            lemma_log_reads_back(
                before.inner.health_records@,
                after.inner.health_records@,
                service_id,
                record,
                MAX_HEALTH_RECORDS as nat,
            );
        }
    }
}

/// A log that is read is the log that is kept; of a service without one it is
/// empty.
pub proof fn lemma_log_is_what_is_kept<T>(logs: Map<Seq<char>, Vec<T>>, key: Seq<char>)
    ensures
        logs.dom().contains(key) ==> log_of(logs, key) == logs[key]@,
        !logs.dom().contains(key) ==> log_of(logs, key).len() == 0,
{
}

/// An instance is found at the first place that has its host and port, and only
/// where there is one.
pub proof fn lemma_instance_is_found(
    upstreams: Seq<UpstreamState>,
    host: Seq<char>,
    port: u16,
    i: int,
)
    ensures
        0 <= i < upstreams.len() && upstreams[i].host@ == host && upstreams[i].port == port && (
        forall|j: int|
            0 <= j < i ==> !((#[trigger] upstreams[j]).host@ == host && upstreams[j].port == port))
            ==> upstream_position(upstreams, host, port) == Some(i),
        (forall|j: int|
            0 <= j < upstreams.len() ==> !((#[trigger] upstreams[j]).host@ == host
                && upstreams[j].port == port)) ==> upstream_position(upstreams, host, port) is None,
{
    if 0 <= i < upstreams.len() && upstreams[i].host@ == host && upstreams[i].port == port && (
    forall|j: int|
        0 <= j < i ==> !((#[trigger] upstreams[j]).host@ == host && upstreams[j].port == port)) {
        lemma_upstream_position(upstreams, host, port, i);
    }
    if forall|j: int|
        0 <= j < upstreams.len() ==> !((#[trigger] upstreams[j]).host@ == host && upstreams[j].port
            == port) {
        lemma_upstream_position(upstreams, host, port, upstreams.len() as int);
    }
}

/// The status of a service with instances, by the statuses of its instances: all
/// healthy, healthy; all failed, failed; some failed, degraded; else some
/// unknown, unknown; else degraded.
pub proof fn lemma_aggregate_in_full(upstreams: Seq<UpstreamState>)
    requires
        upstreams.len() > 0,
    ensures
        ({
            let status = aggregate_status(upstreams);
            let all_healthy = forall|i: int|
                0 <= i < upstreams.len() ==> (#[trigger] upstreams[i]).status
                    == ServiceStatus::Healthy;
            let all_failed = forall|i: int|
                0 <= i < upstreams.len() ==> (#[trigger] upstreams[i]).status
                    == ServiceStatus::Failed;
            let some_failed = exists|i: int|
                0 <= i < upstreams.len() && (#[trigger] upstreams[i]).status
                    == ServiceStatus::Failed;
            let some_unknown = exists|i: int|
                0 <= i < upstreams.len() && (#[trigger] upstreams[i]).status
                    == ServiceStatus::Unknown;
            &&& status == ServiceStatus::Healthy <==> all_healthy
            &&& status == ServiceStatus::Failed <==> all_failed
            &&& status == ServiceStatus::Unknown <==> some_unknown && !some_failed
            &&& status == ServiceStatus::Degraded <==> !all_healthy && !all_failed && !(some_unknown
                && !some_failed)
        }),
{
    lemma_aggregate_status(upstreams);
}

/// The failures and the times that a service shows are those of one of its
/// instances, and none of its instances has more or later ones.
pub proof fn lemma_service_shows_one_of_its_instances(upstreams: Seq<UpstreamState>)
    ensures
        forall|i: int|
            0 <= i < upstreams.len() ==> (#[trigger] upstreams[i]).consecutive_failures
                <= most_failures(upstreams),
        most_failures(upstreams) > 0 ==> exists|i: int|
            0 <= i < upstreams.len() && (#[trigger] upstreams[i]).consecutive_failures
                == most_failures(upstreams),
        forall|i: int|
            0 <= i < upstreams.len() && (#[trigger] upstreams[i]).last_checked_at is Some
                ==> latest_check(upstreams) is Some && upstreams[i].last_checked_at->0@
                <= latest_check(upstreams)->0@,
        latest_check(upstreams) is Some ==> exists|i: int|
            0 <= i < upstreams.len() && (#[trigger] upstreams[i]).last_checked_at == latest_check(
                upstreams,
            ),
        forall|i: int|
            0 <= i < upstreams.len() && (#[trigger] upstreams[i]).last_ok_at is Some ==> latest_ok(
                upstreams,
            ) is Some && upstreams[i].last_ok_at->0@ <= latest_ok(upstreams)->0@,
        latest_ok(upstreams) is Some ==> exists|i: int|
            0 <= i < upstreams.len() && (#[trigger] upstreams[i]).last_ok_at == latest_ok(
                upstreams,
            ),
    decreases upstreams.len(),
{
    assert forall|i: int| 0 <= i < upstreams.len() implies (
    #[trigger] upstreams[i]).consecutive_failures <= most_failures(upstreams) by {
        lemma_service_shows_the_most(upstreams, i);
    }
    assert forall|i: int|
        0 <= i < upstreams.len() && (
        #[trigger] upstreams[i]).last_checked_at is Some implies latest_check(upstreams) is Some
        && upstreams[i].last_checked_at->0@ <= latest_check(upstreams)->0@ by {
        lemma_service_shows_the_most(upstreams, i);
    }
    assert forall|i: int|
        0 <= i < upstreams.len() && (#[trigger] upstreams[i]).last_ok_at is Some implies latest_ok(
        upstreams,
    ) is Some && upstreams[i].last_ok_at->0@ <= latest_ok(upstreams)->0@ by {
        lemma_service_shows_the_most(upstreams, i);
    }
    if upstreams.len() > 0 {
        let rest = upstreams.drop_last();
        let n = upstreams.len() - 1;
        lemma_service_shows_one_of_its_instances(rest);
        assert(upstreams[n] == upstreams.last());
        if most_failures(upstreams) > 0 && most_failures(upstreams)
            != upstreams.last().consecutive_failures {
            let i = choose|i: int|
                0 <= i < rest.len() && (#[trigger] rest[i]).consecutive_failures == most_failures(
                    rest,
                );
            assert(upstreams[i] == rest[i]);
        }
        if latest_check(upstreams) is Some && latest_check(upstreams)
            != upstreams.last().last_checked_at {
            let i = choose|i: int|
                0 <= i < rest.len() && (#[trigger] rest[i]).last_checked_at == latest_check(rest);
            assert(upstreams[i] == rest[i]);
        }
        if latest_ok(upstreams) is Some && latest_ok(upstreams) != upstreams.last().last_ok_at {
            let i = choose|i: int|
                0 <= i < rest.len() && (#[trigger] rest[i]).last_ok_at == latest_ok(rest);
            assert(upstreams[i] == rest[i]);
        }
    }
}

/// Whether `event` reports a change of the status of a service from `previous`
/// to `new`, exactly where there was one.
pub open spec fn tells_of_a_change(
    event: Option<StatusChangeEvent>,
    service_id: Seq<char>,
    service_name: Seq<char>,
    previous: ServiceStatus,
    new: ServiceStatus,
    now: Timestamp,
) -> bool {
    &&& event is Some <==> previous != new
    &&& event matches Some(e) ==> e.service_id@ == service_id && e.service_name@ == service_name
        && e.previous_status == previous && e.new_status == new && e.timestamp == now && e.message@
        == "Service '"@ + service_id + "' transitioned from "@ + previous.name() + " to "@
        + new.name()
}

/// A check of an instance that the store knows, in full. The instance itself: one
/// success makes it healthy, a failure counts one more and makes it failed from
/// the threshold on. Its service: the status that follows from all instances, and
/// an event exactly where it changed. The log: the check at its end. All other
/// instances stay as they are.
pub proof fn lemma_check_of_an_instance(
    before: VelaState,
    after: VelaState,
    service_id: Seq<char>,
    host: Seq<char>,
    port: u16,
    i: int,
    success: bool,
    latency_ms: u64,
    error: Option<String>,
    failure_threshold: u32,
    service_name: Seq<char>,
    now: Timestamp,
    result: Result<Option<StatusChangeEvent>, VelaError>,
)
    requires
        after.after_upstream_check(
            before,
            service_id,
            host,
            port,
            success,
            latency_ms,
            error,
            failure_threshold,
            service_name,
            now,
            result,
        ),
        before.inner.services@.dom().contains(service_id),
        before.inner.upstream_states@.dom().contains(service_id),
        0 <= i < before.inner.upstream_states@[service_id]@.len(),
        before.inner.upstream_states@[service_id]@[i].host@ == host,
        before.inner.upstream_states@[service_id]@[i].port == port,
        before.inner.upstream_states@[service_id]@[i].consecutive_failures < u32::MAX,
        forall|j: int|
            0 <= j < i ==> !((#[trigger] before.inner.upstream_states@[service_id]@[j]).host@
                == host && before.inner.upstream_states@[service_id]@[j].port == port),
    ensures
        ({
            let old_ups = before.inner.upstream_states@[service_id]@;
            let new_ups = after.inner.upstream_states@[service_id]@;
            let old_one = old_ups[i];
            let new_one = new_ups[i];
            &&& new_ups.len() == old_ups.len()
            &&& forall|j: int|
                0 <= j < old_ups.len() && j != i ==> #[trigger] new_ups[j] == old_ups[j]
            &&& new_one.host == old_one.host
            &&& new_one.port == old_one.port
            &&& new_one.last_checked_at == Some(now)
            &&& new_one.latency_ms == Some(latency_ms)
            &&& success ==> new_one.status == ServiceStatus::Healthy && new_one.consecutive_failures
                == 0 && new_one.last_ok_at == Some(now)
            &&& !success ==> {
                &&& new_one.consecutive_failures == old_one.consecutive_failures + 1
                &&& new_one.last_ok_at == old_one.last_ok_at
                &&& new_one.status == (if new_one.consecutive_failures >= failure_threshold {
                    ServiceStatus::Failed
                } else {
                    ServiceStatus::Degraded
                })
            }
        }),
        ({
            let new_ups = after.inner.upstream_states@[service_id]@;
            let old_svc = before.inner.services@[service_id];
            let new_svc = after.inner.services@[service_id];
            &&& after.inner.services@.dom() == before.inner.services@.dom()
            &&& new_svc.service_id == old_svc.service_id
            &&& new_svc.restart_count == old_svc.restart_count
            &&& new_svc.is_recovering == old_svc.is_recovering
            &&& new_svc.status == aggregate_status(new_ups)
            &&& new_svc.consecutive_failures == most_failures(new_ups)
            &&& new_svc.last_checked_at == latest_check(new_ups)
            &&& new_svc.last_ok_at == latest_ok(new_ups)
            &&& result matches Ok(event) && tells_of_a_change(
                event,
                service_id,
                service_name,
                old_svc.status,
                new_svc.status,
                now,
            )
        }),
        ({
            let log = after.inner.health_records@[service_id]@;
            &&& after.inner.health_records@.dom().contains(service_id)
            &&& 0 < log.len()
            &&& log.last().service_id@ == service_id
            &&& log.last().success == success
            &&& log.last().latency_ms == latency_ms
            &&& log.last().checked_at == now
            &&& log.last().error == error
        }),
        after.inner.restart_records == before.inner.restart_records,
        after.inner.alert_records == before.inner.alert_records,
{
    let old_ups = before.inner.upstream_states@[service_id]@;
    lemma_upstream_position(old_ups, host, port, i);
    let record = choose|record: HealthRecord|
        is_record(record, service_id, success, latency_ms, now, error) && #[trigger] appended(
            before.inner.health_records@,
            after.inner.health_records@,
            service_id,
            record,
            MAX_HEALTH_RECORDS as nat,
        );
    lemma_log_reads_back(
        before.inner.health_records@,
        after.inner.health_records@,
        service_id,
        record,
        MAX_HEALTH_RECORDS as nat,
    );
    assert(after.inner.services@.dom() =~= before.inner.services@.dom());
}

/// A check of an instance or a service that the store does not know is refused,
/// and of an unknown instance nothing is kept.
pub proof fn lemma_check_of_a_stranger(
    before: VelaState,
    after: VelaState,
    service_id: Seq<char>,
    host: Seq<char>,
    port: u16,
    success: bool,
    latency_ms: u64,
    error: Option<String>,
    failure_threshold: u32,
    service_name: Seq<char>,
    now: Timestamp,
    result: Result<Option<StatusChangeEvent>, VelaError>,
)
    requires
        after.after_upstream_check(
            before,
            service_id,
            host,
            port,
            success,
            latency_ms,
            error,
            failure_threshold,
            service_name,
            now,
            result,
        ),
    ensures
        !before.inner.upstream_states@.dom().contains(service_id) ==> after == before && (result
            matches Err(VelaError::StateError(words)) && words@ == "Service '"@ + service_id
            + "' not found in upstream_states"@),
        before.inner.upstream_states@.dom().contains(service_id) && (forall|j: int|
            0 <= j < before.inner.upstream_states@[service_id]@.len() ==> !((
            #[trigger] before.inner.upstream_states@[service_id]@[j]).host@ == host
                && before.inner.upstream_states@[service_id]@[j].port == port)) ==> after == before
            && (result matches Err(VelaError::StateError(words)) && words@ == "Upstream "@ + host
            + ":"@ + text::decimal(port as nat) + " not registered for service '"@ + service_id
            + "'"@),
        !before.inner.services@.dom().contains(service_id) ==> result is Err
            && after.inner.services == before.inner.services && after.inner.health_records
            == before.inner.health_records,
{
    let ups = before.inner.upstream_states@[service_id]@;
    lemma_instance_is_found(ups, host, port, 0);
}

/// A check of a service as a whole that the store knows, in full: what it makes
/// of the service, the event where the status changed, and the record at the end
/// of the log.
pub proof fn lemma_check_of_a_service(
    before: VelaState,
    after: VelaState,
    record: HealthRecord,
    service_name: Seq<char>,
    failure_threshold: u32,
    now: Timestamp,
    result: Result<Option<StatusChangeEvent>, VelaError>,
)
    requires
        after.after_health_check(before, record, service_name, failure_threshold, now, result),
        before.inner.services@.dom().contains(record.service_id@)
            ==> before.inner.services@[record.service_id@].consecutive_failures < u32::MAX,
    ensures
        ({
            let id = record.service_id@;
            let old_svc = before.inner.services@[id];
            let new_svc = after.inner.services@[id];
            let log = after.inner.health_records@[id]@;
            if !before.inner.services@.dom().contains(id) {
                after == before && (result matches Err(VelaError::StateError(words)) && words@
                    == "Service '"@ + id + "' not found in state store"@)
            } else {
                &&& after.inner.services@.dom() == before.inner.services@.dom()
                &&& forall|other: Seq<char>|
                    other != id && #[trigger] before.inner.services@.dom().contains(other)
                        ==> after.inner.services@[other] == before.inner.services@[other]
                &&& new_svc.service_id == old_svc.service_id
                &&& new_svc.restart_count == old_svc.restart_count
                &&& new_svc.is_recovering == old_svc.is_recovering
                &&& new_svc.last_checked_at == Some(record.checked_at)
                &&& record.success ==> new_svc.status == ServiceStatus::Healthy
                    && new_svc.consecutive_failures == 0 && new_svc.last_ok_at == Some(
                    record.checked_at,
                )
                &&& !record.success ==> new_svc.consecutive_failures
                    == old_svc.consecutive_failures + 1 && new_svc.last_ok_at == old_svc.last_ok_at
                    && new_svc.status == (if new_svc.consecutive_failures >= failure_threshold {
                    ServiceStatus::Failed
                } else {
                    ServiceStatus::Degraded
                })
                &&& log.len() > 0
                &&& log.last() == record
                &&& after.inner.restart_records == before.inner.restart_records
                &&& after.inner.alert_records == before.inner.alert_records
                &&& after.inner.upstream_states == before.inner.upstream_states
                &&& result matches Ok(event) && tells_of_a_change(
                    event,
                    id,
                    service_name,
                    old_svc.status,
                    new_svc.status,
                    now,
                )
            }
        }),
{
    let id = record.service_id@;
    if before.inner.services@.dom().contains(id) {
        lemma_log_reads_back(
            before.inner.health_records@,
            after.inner.health_records@,
            id,
            record,
            MAX_HEALTH_RECORDS as nat,
        );
        assert(after.inner.services@.dom() =~= before.inner.services@.dom());
    }
}

/// Whether these are, in their order, the positions of the healthy instances,
/// each one once.
pub open spec fn are_healthy_positions(positions: Seq<int>, upstreams: Seq<UpstreamState>) -> bool {
    &&& forall|k: int|
        0 <= k < positions.len() ==> 0 <= #[trigger] positions[k] < upstreams.len()
            && upstreams[positions[k]].status == ServiceStatus::Healthy
    &&& forall|k: int, l: int|
        0 <= k < l < positions.len() ==> #[trigger] positions[k] < #[trigger] positions[l]
    &&& forall|i: int|
        0 <= i < upstreams.len() && (#[trigger] upstreams[i]).status == ServiceStatus::Healthy
            ==> positions.contains(i)
}

/// The healthy instances are all of the instances that are healthy and no other,
/// in their order, by their hosts and ports.
pub proof fn lemma_healthy_instances_in_full(upstreams: Seq<UpstreamState>) -> (positions: Seq<int>)
    ensures
        are_healthy_positions(positions, upstreams),
        positions.len() == healthy_addresses(upstreams).len(),
        forall|k: int|
            0 <= k < positions.len() ==> healthy_addresses(upstreams)[k] == (
                upstreams[#[trigger] positions[k]].host@,
                upstreams[positions[k]].port,
            ),
    decreases upstreams.len(),
{
    if upstreams.len() == 0 {
        Seq::empty()
    } else {
        let rest = upstreams.drop_last();
        let n = upstreams.len() - 1;
        let fewer = lemma_healthy_instances_in_full(rest);
        let positions = if upstreams.last().status == ServiceStatus::Healthy {
            fewer.push(n)
        } else {
            fewer
        };
        assert forall|k: int| 0 <= k < positions.len() implies 0 <= #[trigger] positions[k]
            < upstreams.len() && upstreams[positions[k]].status == ServiceStatus::Healthy
            && healthy_addresses(upstreams)[k] == (
            upstreams[positions[k]].host@,
            upstreams[positions[k]].port,
        ) by {
            if k < fewer.len() {
                assert(positions[k] == fewer[k]);
                assert(rest[fewer[k]] == upstreams[fewer[k]]);
            }
        }
        assert forall|k: int, l: int| 0 <= k < l < positions.len() implies #[trigger] positions[k]
            < #[trigger] positions[l] by {
            assert(positions[k] == fewer[k]);
            if l < fewer.len() {
                assert(positions[l] == fewer[l]);
            }
        }
        assert forall|i: int|
            0 <= i < upstreams.len() && (#[trigger] upstreams[i]).status
                == ServiceStatus::Healthy implies positions.contains(i) by {
            if i < n {
                assert(rest[i] == upstreams[i]);
                assert(fewer.contains(i));
                let k = fewer.index_of(i);
                assert(positions[k] == i);
            } else {
                assert(positions[fewer.len() as int] == n);
            }
        }
        positions
    }
}

} // verus!
