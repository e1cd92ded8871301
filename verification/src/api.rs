//! The API engine: who may ask, and what is answered.
//!
//! Two pages are public: the liveness probe, which says no more than that the
//! program runs, and the dashboard, which holds no data. Everything else
//! requires the API key, and whoever does not present it gets the same answer
//! whatever the reason.

use vstd::prelude::*;
use vstd::string::*;
use vstd::utf8::*;

use crate::config;
use crate::error::VelaError;
use crate::models;
use crate::models::{
    AlertRecord, ApiError, ApiResponse, HealthRecord, RestartRecord, ServiceConfig, ServiceState,
    ServiceStatus, ServiceSummary, VelaStatusResponse,
};
use crate::proxy;
use crate::sorting;
use crate::sorting::Keyed;
use crate::state;
use crate::state::VelaState;
use crate::table::Table;
use crate::text;
use crate::unicode;

verus! {

/// `http::HeaderMap`: the headers of a request or of a response.
#[verifier::external_type_specification]
#[verifier::external_body]
#[verifier::reject_recursive_types(T)]
pub struct ExHeaderMap<T>(axum::http::HeaderMap<T>);

/// `http::HeaderValue`: the value of a header.
#[verifier::external_type_specification]
#[verifier::external_body]
pub struct ExHeaderValue(axum::http::HeaderValue);

/// What headers hold: the bytes of the values of each name, in their order.
/// Names are in lower case.
pub uninterp spec fn header_values(headers: axum::http::HeaderMap) -> Map<Seq<char>, Seq<Seq<u8>>>;

/// Whether a text is a header name in lower case, of letters and hyphens.
pub open spec fn is_header_name(name: Seq<char>) -> bool {
    &&& 0 < name.len() < 64
    &&& forall|i: int| 0 <= i < name.len() ==> 'a' <= #[trigger] name[i] <= 'z' || name[i] == '-'
}

/// Whether a text is made of visible ASCII characters and spaces.
pub open spec fn is_plain(value: Seq<char>) -> bool {
    forall|i: int| 0 <= i < value.len() ==> ' ' <= #[trigger] value[i] <= '~'
}

/// Calls `HeaderMap::get`, which gives the first value of a name, and
/// `HeaderValue::as_bytes`.
#[verifier::external_body]
fn header_get(headers: &axum::http::HeaderMap, name: &str) -> (result: Option<Vec<u8>>)
    requires
        is_header_name(name@),
    ensures
        match result {
            Some(value) => header_values(*headers).dom().contains(name@) && header_values(
                *headers,
            )[name@].len() > 0 && value@ == header_values(*headers)[name@][0],
            None => !header_values(*headers).dom().contains(name@),
        },
{
    headers.get(name).map(|value| value.as_bytes().to_vec())
}

/// Calls `HeaderMap::try_insert` with the value that
/// `HeaderValue::from_static` makes of a text: the value takes the place of
/// all earlier values of the name. It fails, and changes nothing, only where
/// the table of names cannot grow any further, which takes more than 6553
/// names.
#[verifier::external_body]
fn header_insert(
    headers: &mut axum::http::HeaderMap,
    name: &'static str,
    value: &'static str,
) -> (inserted: bool)
    requires
        is_header_name(name@),
        is_plain(value@),
    ensures
        header_values(*final(headers)) == (if inserted {
            header_values(*old(headers)).insert(name@, seq![encode_utf8(value@)])
        } else {
            header_values(*old(headers))
        }),
        header_values(*old(headers)).dom().finite() && header_values(*old(headers)).dom().len()
            <= 6553 ==> inserted,
{
    headers.try_insert(name, axum::http::HeaderValue::from_static(value)).is_ok()
}

/// Calls `HeaderMap::remove`, which takes all values of a name away.
#[verifier::external_body]
fn header_remove(headers: &mut axum::http::HeaderMap, name: &str)
    requires
        is_header_name(name@),
    ensures
        header_values(*final(headers)) == header_values(*old(headers)).remove(name@),
{
    headers.remove(name);
}

/// Calls `subtle::ConstantTimeEq::ct_eq` on two byte strings: whether they are
/// equal. That the time it takes does not depend on the bytes is not stated.
#[verifier::external_body]
fn constant_time_equal(a: &[u8], b: &[u8]) -> (equal: bool)
    ensures
        equal == (a@ == b@),
{
    subtle::ConstantTimeEq::ct_eq(a, b).into()
}

/// Whether a header value is text: visible ASCII characters, spaces and tabs.
pub open spec fn is_text(value: Seq<u8>) -> bool {
    forall|i: int| 0 <= i < value.len() ==> 32 <= #[trigger] value[i] < 127 || value[i] == 9
}

/// Why a request with this `Authorization` header is not let in, if so.
pub open spec fn bearer_problem(header: Option<Seq<u8>>, key: Seq<u8>) -> Option<Seq<char>> {
    let prefix = encode_utf8("Bearer "@);
    match header {
        None => Some("missing Authorization header"@),
        Some(value) => if !is_text(value) {
            Some("Authorization header contains non-ASCII characters"@)
        } else if !prefix.is_prefix_of(value) {
            Some("Authorization header is not a Bearer token"@)
        } else if value.skip(prefix.len() as int) != key {
            Some("Bearer token does not match configured API key"@)
        } else {
            None
        },
    }
}

/// Whether `result` refuses for the given reason, or lets in where there is
/// none.
pub open spec fn is_admission(
    result: Result<(), &'static str>,
    problem: Option<Seq<char>>,
) -> bool {
    match problem {
        None => result is Ok,
        Some(words) => result matches Err(reason) && reason@ == words,
    }
}

/// The value of the `Authorization` header, if there is one.
pub open spec fn authorization(headers: axum::http::HeaderMap) -> Option<Seq<u8>> {
    if header_values(headers).dom().contains("authorization"@) {
        Some(header_values(headers)["authorization"@][0])
    } else {
        None
    }
}

fn value_is_text(value: &Vec<u8>) -> (result: bool)
    ensures
        result == is_text(value@),
{
    let mut i: usize = 0;
    while i < value.len()
        invariant
            i <= value@.len(),
            forall|j: int| 0 <= j < i ==> 32 <= #[trigger] value@[j] < 127 || value@[j] == 9,
        decreases value.len() - i,
    {
        let b: u8 = value[i];
        if !((32 <= b && b < 127) || b == 9) {
            return false;
        }
        i = i + 1;
    }
    true
}

fn starts_with(value: &Vec<u8>, prefix: &[u8]) -> (result: bool)
    ensures
        result == prefix@.is_prefix_of(value@),
{
    if value.len() < prefix.len() {
        return false;
    }
    let mut i: usize = 0;
    while i < prefix.len()
        invariant
            i <= prefix@.len() <= value@.len(),
            forall|j: int| 0 <= j < i ==> prefix@[j] == value@[j],
        decreases prefix.len() - i,
    {
        if prefix[i] != value[i] {
            assert(prefix@[i as int] != value@.subrange(0, prefix@.len() as int)[i as int]);
            return false;
        }
        i = i + 1;
    }
    assert(prefix@ =~= value@.subrange(0, prefix@.len() as int));
    true
}

/// Judges the value of an `Authorization` header. The reason is for the log of
/// the server only.
pub fn validate_bearer(header: &Option<Vec<u8>>, expected_key_bytes: &[u8]) -> (result: Result<
    (),
    &'static str,
>)
    ensures
        is_admission(
            result,
            bearer_problem(
                match *header {
                    Some(value) => Some(value@),
                    None => None,
                },
                expected_key_bytes@,
            ),
        ),
{
    let value = match header {
        Some(value) => value,
        None => return Err("missing Authorization header"),
    };
    if !value_is_text(value) {
        return Err("Authorization header contains non-ASCII characters");
    }
    let prefix = "Bearer ".as_bytes();
    if !starts_with(value, prefix) {
        return Err("Authorization header is not a Bearer token");
    }
    let token = vstd::slice::slice_subrange(value.as_slice(), prefix.len(), value.len());
    assert(token@ =~= value@.skip(prefix@.len() as int));
    if constant_time_equal(expected_key_bytes, token) {
        Ok(())
    } else {
        Err("Bearer token does not match configured API key")
    }
}

/// Takes the bearer token out of the headers of a request and judges it. The
/// reason is for the log of the server only.
pub fn extract_and_validate_bearer(
    headers: &axum::http::HeaderMap,
    expected_key_bytes: &[u8],
) -> (result: Result<(), &'static str>)
    ensures
        is_admission(result, bearer_problem(authorization(*headers), expected_key_bytes@)),
{
    proof {
        reveal_strlit("authorization");
    }
    let header = header_get(headers, "authorization");
    validate_bearer(&header, expected_key_bytes)
}

/// What headers hold after the security headers were set: no guessing of
/// content types, no framing, no caching, and nothing about the server.
pub open spec fn secured(before: Map<Seq<char>, Seq<Seq<u8>>>) -> Map<Seq<char>, Seq<Seq<u8>>> {
    before.insert("x-content-type-options"@, seq![encode_utf8("nosniff"@)]).insert(
        "x-frame-options"@,
        seq![encode_utf8("DENY"@)],
    ).insert("cache-control"@, seq![encode_utf8("no-store"@)]).remove("server"@)
}

/// The most header names of a response for which setting the security headers
/// is sure to succeed.
pub const MAX_HEADER_NAMES: usize = 6550;

/// Sets the security headers of a response. Says whether there was room for
/// them; there is unless the response has thousands of different headers.
pub fn apply_security_headers(headers: &mut axum::http::HeaderMap) -> (done: bool)
    ensures
        done ==> header_values(*final(headers)) == secured(header_values(*old(headers))),
        header_values(*old(headers)).dom().finite() && header_values(*old(headers)).dom().len()
            <= MAX_HEADER_NAMES ==> done,
{
    proof {
        reveal_strlit("x-content-type-options");
        reveal_strlit("nosniff");
        reveal_strlit("x-frame-options");
        reveal_strlit("DENY");
        reveal_strlit("cache-control");
        reveal_strlit("no-store");
        reveal_strlit("server");
    }
    let types = header_insert(headers, "x-content-type-options", "nosniff");
    let frames = header_insert(headers, "x-frame-options", "DENY");
    let caching = header_insert(headers, "cache-control", "no-store");
    header_remove(headers, "server");
    types && frames && caching
}

/// The name of a service for people: that of the configuration, or "Unknown".
pub open spec fn name_of(services: Seq<ServiceConfig>, id: Seq<char>) -> Seq<char> {
    match config::service_position(services, id) {
        Some(i) => services[i].name@,
        None => "Unknown"@,
    }
}

fn service_name<'a>(services: &'a Vec<ServiceConfig>, id: &str) -> (name: &'a str)
    ensures
        name@ == name_of(services@, id@),
{
    match config::find_service(services, id) {
        Some(i) => services[i].name.as_str(),
        None => "Unknown",
    }
}

/// Whether each summary shows the state of the service with the key at its
/// position.
pub open spec fn show_keys(
    summaries: Seq<ServiceSummary>,
    keys: Seq<Seq<char>>,
    states: Map<Seq<char>, ServiceState>,
    services: Seq<ServiceConfig>,
) -> bool {
    &&& summaries.len() == keys.len()
    &&& forall|i: int|
        0 <= i < keys.len() ==> (#[trigger] summaries[i]).shows(
            states[keys[i]],
            name_of(services, keys[i]),
        )
}

/// Whether the summaries show each service of the store exactly once, in the
/// order of the service ids.
pub open spec fn summarize(
    summaries: Seq<ServiceSummary>,
    table: Table<ServiceState>,
    services: Seq<ServiceConfig>,
) -> bool {
    &&& sorting::in_order(summaries)
    &&& summaries.len() == table.order().len()
    &&& exists|keys: Seq<Seq<char>>| #[trigger]
        show_keys(summaries, keys, table@, services) && keys.to_multiset()
            == table.order().to_multiset()
}

/// How many of the services with these keys have this status.
pub open spec fn count_status(
    states: Map<Seq<char>, ServiceState>,
    keys: Seq<Seq<char>>,
    status: ServiceStatus,
) -> nat
    decreases keys.len(),
{
    if keys.len() == 0 {
        0
    } else {
        count_status(states, keys.drop_last(), status) + if states[keys.last()].status == status {
            1nat
        } else {
            0nat
        }
    }
}

fn summaries_of(table: &Table<ServiceState>, services: &Vec<ServiceConfig>) -> (summaries: Vec<
    ServiceSummary,
>)
    ensures
        summarize(summaries@, *table, services@),
{
    let total: usize = table.len();
    let mut summaries: Vec<ServiceSummary> = Vec::new();
    let ghost mut keys: Seq<Seq<char>> = Seq::empty();
    let mut i: usize = 0;
    proof {
        assert(table.order().take(0) =~= Seq::<Seq<char>>::empty());
    }
    while i < total
        invariant
            i <= total == table.order().len(),
            sorting::in_order(summaries@),
            summaries@.len() == i,
            show_keys(summaries@, keys, table@, services@),
            keys.to_multiset() == table.order().take(i as int).to_multiset(),
        decreases total - i,
    {
        let id = table.key_at(i);
        let summary = ServiceSummary::from_state(
            table.value_at(i),
            service_name(services, id.as_str()),
        );
        let ghost before = summaries@;
        let at: usize = sorting::insert_in_order(&mut summaries, summary);
        proof {
            let key = table.order()[i as int];
            let longer = keys.insert(at as int, key);
            assert forall|j: int| 0 <= j < longer.len() implies (#[trigger] summaries@[j]).shows(
                table@[longer[j]],
                name_of(services@, longer[j]),
            ) by {
                if j < at {
                    assert(before[j].shows(table@[keys[j]], name_of(services@, keys[j])));
                } else if j > at {
                    assert(before[j - 1].shows(
                        table@[keys[j - 1]],
                        name_of(services@, keys[j - 1]),
                    ));
                }
            }
            sorting::lemma_insert_to_multiset(keys, at as int, key);
            assert(table.order().take(i + 1) =~= table.order().take(i as int).push(key));
            vstd::seq_lib::to_multiset_build(table.order().take(i as int), key);
            keys = longer;
        }
        i = i + 1;
    }
    assert(table.order().take(i as int) =~= table.order());
    summaries
}

fn count(table: &Table<ServiceState>, status: ServiceStatus) -> (n: usize)
    ensures
        n == count_status(table@, table.order(), status),
{
    let total: usize = table.len();
    let mut n: usize = 0;
    let mut i: usize = 0;
    while i < total
        invariant
            n <= i <= total == table.order().len(),
            n == count_status(table@, table.order().take(i as int), status),
        decreases total - i,
    {
        assert(table.order().take(i + 1).drop_last() =~= table.order().take(i as int));
        if table.value_at(i).status == status {
            n = n + 1;
        }
        i = i + 1;
    }
    assert(table.order().take(i as int) =~= table.order());
    n
}

/// Whether `response` is the overall status of the services of the store.
pub open spec fn is_overview(
    response: VelaStatusResponse,
    table: Table<ServiceState>,
    services: Seq<ServiceConfig>,
) -> bool {
    &&& response.healthy_count == count_status(table@, table.order(), ServiceStatus::Healthy)
    &&& response.degraded_count == count_status(table@, table.order(), ServiceStatus::Degraded)
    &&& response.failed_count == count_status(table@, table.order(), ServiceStatus::Failed)
    &&& response.unknown_count == count_status(table@, table.order(), ServiceStatus::Unknown)
    &&& response.total_services == table.order().len()
    &&& summarize(response.services@, table, services)
}

/// Whether an answer is a success with this data.
pub open spec fn is_envelope<T>(response: ApiResponse<T>) -> bool {
    response.ok && response.version@ == "1"@
}

/// The overall status: all services, and how many of them have which status.
pub fn handle_status(state: &VelaState, services: &Vec<ServiceConfig>) -> (response: ApiResponse<
    VelaStatusResponse,
>)
    ensures
        is_envelope(response),
        is_overview(response.data, state.inner.services, services@),
{
    let table = &state.inner.services;
    let summaries = summaries_of(table, services);
    ApiResponse::success(
        VelaStatusResponse {
            healthy_count: count(table, ServiceStatus::Healthy),
            degraded_count: count(table, ServiceStatus::Degraded),
            failed_count: count(table, ServiceStatus::Failed),
            unknown_count: count(table, ServiceStatus::Unknown),
            total_services: summaries.len(),
            services: summaries,
        },
    )
}

/// All services.
pub fn handle_list_services(state: &VelaState, services: &Vec<ServiceConfig>) -> (response:
    ApiResponse<Vec<ServiceSummary>>)
    ensures
        is_envelope(response),
        summarize(response.data@, state.inner.services, services@),
{
    ApiResponse::success(summaries_of(&state.inner.services, services))
}

/// An answer that reports an error: its status code, and what it says.
#[derive(Debug)]
pub struct Refusal {
    pub status: u16,
    pub body: ApiError,
}

/// Whether `refusal` has this status code and says this.
pub open spec fn is_refusal(refusal: Refusal, status: u16, words: Seq<char>) -> bool {
    &&& refusal.status == status
    &&& !refusal.body.ok
    &&& refusal.body.version@ == "1"@
    &&& refusal.body.error@ == words
}

fn refuse(status: u16, words: &str) -> (refusal: Refusal)
    ensures
        is_refusal(refusal, status, words@),
{
    Refusal { status, body: ApiError::new(words) }
}

/// Whether a text is well formed as the id in a request: every character is a
/// letter, a number or a hyphen.
pub open spec fn is_id(id: Seq<char>) -> bool {
    forall|i: int| 0 <= i < id.len() ==> unicode::alphanumeric(#[trigger] id[i]) || id[i] == '-'
}

fn id_is_well_formed(id: &str) -> (result: bool)
    ensures
        result == is_id(id@),
{
    let chars = text::characters(id);
    let mut i: usize = 0;
    while i < chars.len()
        invariant
            i <= chars@.len(),
            chars@ == id@,
            forall|j: int|
                0 <= j < i ==> unicode::alphanumeric(#[trigger] chars@[j]) || chars@[j] == '-',
        decreases chars.len() - i,
    {
        let c = chars[i];
        if !(c.is_alphanumeric() || c == '-') {
            assert(!(unicode::alphanumeric(id@[i as int]) || id@[i as int] == '-'));
            return false;
        }
        i = i + 1;
    }
    true
}

/// Whether `result` refuses because the id is not well formed.
pub open spec fn is_bad_id<T>(result: Result<ApiResponse<T>, Refusal>) -> bool {
    result matches Err(refusal) && is_refusal(refusal, 400, "Invalid service ID format"@)
}

/// Whether `result` refuses because the service does not exist.
pub open spec fn is_missing<T>(result: Result<ApiResponse<T>, Refusal>) -> bool {
    result matches Err(refusal) && is_refusal(refusal, 404, "Service not found"@)
}

/// One service. The id is judged before anything is looked up.
pub fn handle_get_service(state: &VelaState, services: &Vec<ServiceConfig>, id: &str) -> (result:
    Result<ApiResponse<ServiceSummary>, Refusal>)
    ensures
        is_service_answer(result, *state, services@, id@),
{
    if !id_is_well_formed(id) {
        return Err(refuse(400, "Invalid service ID format"));
    }
    match state.inner.services.get(id) {
        Some(found) => Ok(
            ApiResponse::success(ServiceSummary::from_state(found, service_name(services, id))),
        ),
        None => Err(refuse(404, "Service not found")),
    }
}

/// Whether `result` is the answer to the question for one service.
pub open spec fn is_service_answer(
    result: Result<ApiResponse<ServiceSummary>, Refusal>,
    state: VelaState,
    services: Seq<ServiceConfig>,
    id: Seq<char>,
) -> bool {
    if !is_id(id) {
        is_bad_id(result)
    } else if !state.inner.services@.dom().contains(id) {
        is_missing(result)
    } else {
        result matches Ok(response) && is_envelope(response) && response.data.shows(
            state.inner.services@[id],
            name_of(services, id),
        )
    }
}

/// Whether `result` is the answer to the question for a log of a service.
pub open spec fn is_log_answer<T>(
    result: Result<ApiResponse<Vec<T>>, Refusal>,
    logs: Map<Seq<char>, Vec<T>>,
    services: Seq<ServiceConfig>,
    id: Seq<char>,
) -> bool {
    if !is_id(id) {
        is_bad_id(result)
    } else if config::service_position(services, id) is None {
        is_missing(result)
    } else {
        result matches Ok(response) && is_envelope(response) && response.data@ == state::log_of(
            logs,
            id,
        )
    }
}

fn find_configured(services: &Vec<ServiceConfig>, id: &str) -> (result: Result<(), Refusal>)
    ensures
        match result {
            Ok(_) => is_id(id@) && config::service_position(services@, id@) is Some,
            Err(refusal) => if !is_id(id@) {
                is_refusal(refusal, 400, "Invalid service ID format"@)
            } else {
                config::service_position(services@, id@) is None && is_refusal(
                    refusal,
                    404,
                    "Service not found"@,
                )
            },
        },
{
    if !id_is_well_formed(id) {
        return Err(refuse(400, "Invalid service ID format"));
    }
    match config::find_service(services, id) {
        Some(_) => Ok(()),
        None => Err(refuse(404, "Service not found")),
    }
}

/// The health checks kept of a service.
pub fn handle_get_checks(state: &VelaState, services: &Vec<ServiceConfig>, id: &str) -> (result:
    Result<ApiResponse<Vec<HealthRecord>>, Refusal>)
    ensures
        is_log_answer(result, state.inner.health_records@, services@, id@),
{
    match find_configured(services, id) {
        Ok(_) => Ok(ApiResponse::success(state.get_health_records(id))),
        Err(refusal) => Err(refusal),
    }
}

/// The alerts kept of a service.
pub fn handle_get_alerts(state: &VelaState, services: &Vec<ServiceConfig>, id: &str) -> (result:
    Result<ApiResponse<Vec<AlertRecord>>, Refusal>)
    ensures
        is_log_answer(result, state.inner.alert_records@, services@, id@),
{
    match find_configured(services, id) {
        Ok(_) => Ok(ApiResponse::success(state.get_alert_records(id))),
        Err(refusal) => Err(refusal),
    }
}

/// The restart attempts kept of a service.
pub fn handle_get_restarts(state: &VelaState, services: &Vec<ServiceConfig>, id: &str) -> (result:
    Result<ApiResponse<Vec<RestartRecord>>, Refusal>)
    ensures
        is_log_answer(result, state.inner.restart_records@, services@, id@),
{
    match find_configured(services, id) {
        Ok(_) => Ok(ApiResponse::success(state.get_restart_records(id))),
        Err(refusal) => Err(refusal),
    }
}

/// What the liveness probe says.
#[derive(Debug)]
pub struct Liveness {
    pub ok: bool,
    pub service: &'static str,
}

/// What the liveness probe says while the program runs.
pub fn handle_liveness() -> (liveness: Liveness)
    ensures
        liveness.ok,
        liveness.service@ == "vela"@,
{
    Liveness { ok: true, service: "vela" }
}

/// What can be asked for.
#[derive(Debug)]
pub enum Route {
    Liveness,
    Dashboard,
    Status,
    Services,
    Service(String),
    Checks(String),
    Alerts(String),
    Restarts(String),
}

/// What is answered.
#[derive(Debug)]
pub enum Answer {
    Liveness(Liveness),
    Dashboard,
    Status(ApiResponse<VelaStatusResponse>),
    Services(ApiResponse<Vec<ServiceSummary>>),
    Service(ApiResponse<ServiceSummary>),
    Checks(ApiResponse<Vec<HealthRecord>>),
    Alerts(ApiResponse<Vec<AlertRecord>>),
    Restarts(ApiResponse<Vec<RestartRecord>>),
    Refused(Refusal),
}

/// Whether anybody may ask for it.
pub open spec fn is_public(route: Route) -> bool {
    route is Liveness || route is Dashboard
}

/// Whether `answer` is what somebody who was let in is answered.
pub open spec fn is_reply(
    answer: Answer,
    state: VelaState,
    services: Seq<ServiceConfig>,
    route: Route,
) -> bool {
    match route {
        Route::Liveness => answer matches Answer::Liveness(liveness) && liveness.ok
            && liveness.service@ == "vela"@,
        Route::Dashboard => answer is Dashboard,
        Route::Status => answer matches Answer::Status(response) && is_envelope(response)
            && is_overview(response.data, state.inner.services, services),
        Route::Services => answer matches Answer::Services(response) && is_envelope(response)
            && summarize(response.data@, state.inner.services, services),
        Route::Service(id) => match answer {
            Answer::Service(response) => is_service_answer(Ok(response), state, services, id@),
            Answer::Refused(refusal) => is_service_answer(Err(refusal), state, services, id@),
            _ => false,
        },
        Route::Checks(id) => match answer {
            Answer::Checks(response) => is_log_answer(
                Ok(response),
                state.inner.health_records@,
                services,
                id@,
            ),
            Answer::Refused(refusal) => is_log_answer(
                Err(refusal),
                state.inner.health_records@,
                services,
                id@,
            ),
            _ => false,
        },
        Route::Alerts(id) => match answer {
            Answer::Alerts(response) => is_log_answer(
                Ok(response),
                state.inner.alert_records@,
                services,
                id@,
            ),
            Answer::Refused(refusal) => is_log_answer(
                Err(refusal),
                state.inner.alert_records@,
                services,
                id@,
            ),
            _ => false,
        },
        Route::Restarts(id) => match answer {
            Answer::Restarts(response) => is_log_answer(
                Ok(response),
                state.inner.restart_records@,
                services,
                id@,
            ),
            Answer::Refused(refusal) => is_log_answer(
                Err(refusal),
                state.inner.restart_records@,
                services,
                id@,
            ),
            _ => false,
        },
    }
}

/// Whether `answer` is what a request with this `Authorization` header is
/// answered.
pub open spec fn is_answer(
    answer: Answer,
    state: VelaState,
    services: Seq<ServiceConfig>,
    key: Seq<u8>,
    header: Option<Seq<u8>>,
    route: Route,
) -> bool {
    if is_public(route) || bearer_problem(header, key) is None {
        is_reply(answer, state, services, route)
    } else {
        answer matches Answer::Refused(refusal) && is_refusal(
            refusal,
            401,
            "Authentication required"@,
        )
    }
}

fn reply(state: &VelaState, services: &Vec<ServiceConfig>, route: &Route) -> (answer: Answer)
    ensures
        is_reply(answer, *state, services@, *route),
{
    match route {
        Route::Liveness => Answer::Liveness(handle_liveness()),
        Route::Dashboard => Answer::Dashboard,
        Route::Status => Answer::Status(handle_status(state, services)),
        Route::Services => Answer::Services(handle_list_services(state, services)),
        Route::Service(id) => match handle_get_service(state, services, id.as_str()) {
            Ok(response) => Answer::Service(response),
            Err(refusal) => Answer::Refused(refusal),
        },
        Route::Checks(id) => match handle_get_checks(state, services, id.as_str()) {
            Ok(response) => Answer::Checks(response),
            Err(refusal) => Answer::Refused(refusal),
        },
        Route::Alerts(id) => match handle_get_alerts(state, services, id.as_str()) {
            Ok(response) => Answer::Alerts(response),
            Err(refusal) => Answer::Refused(refusal),
        },
        Route::Restarts(id) => match handle_get_restarts(state, services, id.as_str()) {
            Ok(response) => Answer::Restarts(response),
            Err(refusal) => Answer::Refused(refusal),
        },
    }
}

/// Answers a request.
pub fn answer_request(
    state: &VelaState,
    services: &Vec<ServiceConfig>,
    key: &[u8],
    headers: &axum::http::HeaderMap,
    route: &Route,
) -> (answer: Answer)
    ensures
        is_answer(answer, *state, services@, key@, authorization(*headers), *route),
{
    let public = match route {
        Route::Liveness | Route::Dashboard => true,
        _ => false,
    };
    if !public {
        if let Err(_reason) = extract_and_validate_bearer(headers, key) {
            return Answer::Refused(refuse(401, "Authentication required"));
        }
    }
    reply(state, services, route)
}

/// Judges the API key of the configuration, and gives its bytes.
pub fn key_bytes(api_key: &str) -> (result: Result<Vec<u8>, VelaError>)
    ensures
        match result {
            Ok(bytes) => !unicode::blank(api_key@) && bytes@ == encode_utf8(api_key@),
            Err(e) => unicode::blank(api_key@) && (e matches VelaError::ApiError(msg) && msg@
                == "API key must not be empty"@),
        },
{
    if unicode::is_blank(api_key) {
        Err(VelaError::ApiError(String::from_str("API key must not be empty")))
    } else {
        Ok(api_key.as_bytes_vec())
    }
}

/// The address that the API listens on: this machine only.
pub fn bind_address(api_port: u16) -> (addr: String)
    ensures
        addr@ == proxy::address("127.0.0.1"@, api_port),
{
    proxy::address_text("127.0.0.1", api_port)
}

/// The error for an API that could not listen on its address.
pub fn bind_error(bind_addr: &str, detail: &str) -> (e: VelaError)
    ensures
        e matches VelaError::ApiError(msg) && msg@ == "Failed to bind API server on "@ + bind_addr@
            + ": "@ + detail@,
{
    VelaError::ApiError(
        String::from_str("Failed to bind API server on ").concat(bind_addr).concat(": ").concat(
            detail,
        ),
    )
}

/// Whoever does not present the key learns nothing from the answer: it is the
/// same for every reason, every question and every state of the store.
pub proof fn lemma_refusals_are_alike(
    answer: Answer,
    state: VelaState,
    services: Seq<ServiceConfig>,
    key: Seq<u8>,
    header: Option<Seq<u8>>,
    route: Route,
    other: Answer,
    other_state: VelaState,
    other_services: Seq<ServiceConfig>,
    other_key: Seq<u8>,
    other_header: Option<Seq<u8>>,
    other_route: Route,
)
    requires
        !is_public(route),
        bearer_problem(header, key) is Some,
        is_answer(answer, state, services, key, header, route),
        !is_public(other_route),
        bearer_problem(other_header, other_key) is Some,
        is_answer(other, other_state, other_services, other_key, other_header, other_route),
    ensures
        answer matches Answer::Refused(a) && other matches Answer::Refused(b) && a.status
            == b.status && a.body.ok == b.body.ok && a.body.version@ == b.body.version@
            && a.body.error@ == b.body.error@,
{
}

/// Exactly the key lets in: the header that presents a text of plain
/// characters as the token is accepted where the text is the key, and not
/// otherwise.
pub proof fn lemma_exactly_the_key_lets_in(token: Seq<char>, key: Seq<char>)
    requires
        is_plain(token),
    ensures
        bearer_problem(Some(encode_utf8("Bearer "@ + token)), encode_utf8(key)) is None <==> token
            == key,
{
    reveal_strlit("Bearer ");
    let prefix = "Bearer "@;
    let whole = prefix + token;
    assert(is_ascii_chars(prefix));
    assert(is_ascii_chars(whole)) by {
        assert forall|i: int| 0 <= i < whole.len() implies (#[trigger] whole[i] as nat) < 128 by {
            if i >= prefix.len() {
                assert(' ' <= token[i - prefix.len()] <= '~');
            }
        }
    }
    is_ascii_chars_encode_utf8(prefix);
    is_ascii_chars_encode_utf8(whole);
    let value = encode_utf8(whole);
    let start = encode_utf8(prefix);
    assert(is_text(value)) by {
        assert forall|i: int| 0 <= i < value.len() implies 32 <= #[trigger] value[i] < 127
            || value[i] == 9 by {
            assert(value[i] == whole[i] as u8);
            if i >= prefix.len() {
                assert(' ' <= token[i - prefix.len()] <= '~');
            }
        }
    }
    assert(start.is_prefix_of(value)) by {
        assert(start =~= value.subrange(0, start.len() as int));
    }
    assert(is_ascii_chars(token)) by {
        assert forall|i: int| 0 <= i < token.len() implies (#[trigger] token[i] as nat) < 128 by {
            assert(' ' <= token[i] <= '~');
        }
    }
    is_ascii_chars_encode_utf8(token);
    assert(value.skip(start.len() as int) =~= encode_utf8(token));
    if encode_utf8(token) == encode_utf8(key) {
        encode_utf8_decode_utf8(token);
        encode_utf8_decode_utf8(key);
    }
}

/// The counts of the four statuses add up to the number of services.
pub proof fn lemma_counts_add_up(states: Map<Seq<char>, ServiceState>, keys: Seq<Seq<char>>)
    ensures
        count_status(states, keys, ServiceStatus::Healthy) + count_status(
            states,
            keys,
            ServiceStatus::Degraded,
        ) + count_status(states, keys, ServiceStatus::Failed) + count_status(
            states,
            keys,
            ServiceStatus::Unknown,
        ) == keys.len(),
    decreases keys.len(),
{
    if keys.len() > 0 {
        lemma_counts_add_up(states, keys.drop_last());
    }
}

/// Every service of the store has its summary in the answer.
pub proof fn lemma_no_service_is_left_out(
    summaries: Seq<ServiceSummary>,
    table: Table<ServiceState>,
    services: Seq<ServiceConfig>,
    id: Seq<char>,
)
    requires
        summarize(summaries, table, services),
        table.order().contains(id),
    ensures
        summaries.len() == table.order().len(),
        exists|i: int|
            0 <= i < summaries.len() && (#[trigger] summaries[i]).shows(
                table@[id],
                name_of(services, id),
            ),
{
    broadcast use vstd::seq_lib::group_to_multiset_ensures;

    let keys = choose|keys: Seq<Seq<char>>| #[trigger]
        show_keys(summaries, keys, table@, services) && keys.to_multiset()
            == table.order().to_multiset();
    assert(table.order().to_multiset().count(id) > 0);
    assert(keys.contains(id));
    let i = keys.index_of(id);
    assert(keys[i] == id);
    assert(summaries[i].shows(table@[id], name_of(services, id)));
}

/// The security headers are there after they were set, and the server does
/// not name itself.
pub proof fn lemma_responses_are_secured(before: Map<Seq<char>, Seq<Seq<u8>>>)
    ensures
        ({
            let after = secured(before);
            &&& after.dom().contains("x-content-type-options"@)
            &&& after["x-content-type-options"@] == seq![encode_utf8("nosniff"@)]
            &&& after.dom().contains("x-frame-options"@)
            &&& after["x-frame-options"@] == seq![encode_utf8("DENY"@)]
            &&& after.dom().contains("cache-control"@)
            &&& after["cache-control"@] == seq![encode_utf8("no-store"@)]
            &&& !after.dom().contains("server"@)
        }),
{
    reveal_strlit("x-content-type-options");
    reveal_strlit("x-frame-options");
    reveal_strlit("cache-control");
    reveal_strlit("server");
    assert("x-content-type-options"@.len() == 22);
    assert("x-frame-options"@.len() == 15);
    assert("cache-control"@.len() == 13);
    assert("server"@.len() == 6);
}

proof fn lemma_count_by_multiset(
    states: Map<Seq<char>, ServiceState>,
    keys: Seq<Seq<char>>,
    status: ServiceStatus,
)
    ensures
        count_status(states, keys, status) == keys.to_multiset().filter(
            |k: Seq<char>| states[k].status == status,
        ).len(),
    decreases keys.len(),
{
    broadcast use vstd::multiset::group_multiset_axioms;

    let p = |k: Seq<char>| states[k].status == status;
    if keys.len() == 0 {
        keys.to_multiset_ensures();
        assert(keys.to_multiset().filter(p) =~= vstd::multiset::Multiset::empty());
    } else {
        let rest = keys.drop_last();
        let key = keys.last();
        lemma_count_by_multiset(states, rest, status);
        assert(keys =~= rest.push(key));
        vstd::seq_lib::to_multiset_build(rest, key);
        let fewer = rest.to_multiset().filter(p);
        if p(key) {
            assert(keys.to_multiset().filter(p) =~= fewer.insert(key));
        } else {
            assert(keys.to_multiset().filter(p) =~= fewer);
        }
    }
}

/// Whether a summary shows the status of this name.
pub open spec fn shows_status(label: Seq<char>) -> spec_fn(ServiceSummary) -> bool {
    |s: ServiceSummary| s.status@ == label
}

proof fn lemma_count_by_summaries(
    summaries: Seq<ServiceSummary>,
    keys: Seq<Seq<char>>,
    states: Map<Seq<char>, ServiceState>,
    services: Seq<ServiceConfig>,
    status: ServiceStatus,
    label: Seq<char>,
)
    requires
        show_keys(summaries, keys, states, services),
        forall|i: int|
            0 <= i < keys.len() ==> ((#[trigger] summaries[i]).status@ == label
                <==> states[keys[i]].status == status),
    ensures
        count_status(states, keys, status) == summaries.filter(shows_status(label)).len(),
    decreases keys.len(),
{
    let q = shows_status(label);
    reveal(Seq::filter);
    if keys.len() > 0 {
        let n = keys.len() - 1;
        let fewer = summaries.drop_last();
        let rest = keys.drop_last();
        assert forall|i: int| 0 <= i < rest.len() implies (#[trigger] fewer[i]).shows(
            states[rest[i]],
            name_of(services, rest[i]),
        ) by {
            assert(fewer[i] == summaries[i]);
        }
        assert forall|i: int| 0 <= i < rest.len() implies ((#[trigger] fewer[i]).status@ == label
            <==> states[rest[i]].status == status) by {
            assert(fewer[i] == summaries[i]);
        }
        lemma_count_by_summaries(fewer, rest, states, services, status, label);
        assert(summaries.last() == summaries[n]);
        assert(keys.last() == keys[n]);
        assert(q(summaries.last()) <==> states[keys.last()].status == status);
    }
}

/// Each count of the overview is the number of services in its own list that show
/// the status of that name, and the total is the number of all of them.
pub proof fn lemma_counts_match_the_list(
    response: VelaStatusResponse,
    table: Table<ServiceState>,
    services: Seq<ServiceConfig>,
)
    requires
        is_overview(response, table, services),
    ensures
        response.healthy_count == response.services@.filter(shows_status("Healthy"@)).len(),
        response.degraded_count == response.services@.filter(shows_status("Degraded"@)).len(),
        response.failed_count == response.services@.filter(shows_status("Failed"@)).len(),
        response.unknown_count == response.services@.filter(shows_status("Unknown"@)).len(),
        response.total_services == response.services@.len(),
        response.healthy_count + response.degraded_count + response.failed_count
            + response.unknown_count == response.total_services,
{
    let summaries = response.services@;
    let keys = choose|keys: Seq<Seq<char>>| #[trigger]
        show_keys(summaries, keys, table@, services) && keys.to_multiset()
            == table.order().to_multiset();
    assert forall|i: int| 0 <= i < keys.len() implies {
        let s = #[trigger] summaries[i];
        let status = table@[keys[i]].status;
        &&& s.status@ == "Healthy"@ <==> status == ServiceStatus::Healthy
        &&& s.status@ == "Degraded"@ <==> status == ServiceStatus::Degraded
        &&& s.status@ == "Failed"@ <==> status == ServiceStatus::Failed
        &&& s.status@ == "Unknown"@ <==> status == ServiceStatus::Unknown
    } by {
        assert(summaries[i].shows(table@[keys[i]], name_of(services, keys[i])));
        models::lemma_summary_tells_the_state(
            summaries[i],
            table@[keys[i]],
            name_of(services, keys[i]),
        );
    }
    lemma_count_by_summaries(
        summaries,
        keys,
        table@,
        services,
        ServiceStatus::Healthy,
        "Healthy"@,
    );
    lemma_count_by_summaries(
        summaries,
        keys,
        table@,
        services,
        ServiceStatus::Degraded,
        "Degraded"@,
    );
    lemma_count_by_summaries(summaries, keys, table@, services, ServiceStatus::Failed, "Failed"@);
    lemma_count_by_summaries(
        summaries,
        keys,
        table@,
        services,
        ServiceStatus::Unknown,
        "Unknown"@,
    );
    lemma_count_by_multiset(table@, keys, ServiceStatus::Healthy);
    lemma_count_by_multiset(table@, table.order(), ServiceStatus::Healthy);
    lemma_count_by_multiset(table@, keys, ServiceStatus::Degraded);
    lemma_count_by_multiset(table@, table.order(), ServiceStatus::Degraded);
    lemma_count_by_multiset(table@, keys, ServiceStatus::Failed);
    lemma_count_by_multiset(table@, table.order(), ServiceStatus::Failed);
    lemma_count_by_multiset(table@, keys, ServiceStatus::Unknown);
    lemma_count_by_multiset(table@, table.order(), ServiceStatus::Unknown);
    lemma_counts_add_up(table@, table.order());
}

proof fn lemma_count_of_a_single_status(
    states: Map<Seq<char>, ServiceState>,
    keys: Seq<Seq<char>>,
    held: ServiceStatus,
    status: ServiceStatus,
)
    requires
        forall|i: int| 0 <= i < keys.len() ==> states[#[trigger] keys[i]].status == held,
    ensures
        count_status(states, keys, status) == (if status == held {
            keys.len()
        } else {
            0
        }),
    decreases keys.len(),
{
    if keys.len() > 0 {
        let rest = keys.drop_last();
        assert forall|i: int| 0 <= i < rest.len() implies states[#[trigger] rest[i]].status
            == held by {
            assert(rest[i] == keys[i]);
        }
        assert(states[keys[keys.len() - 1]].status == held);
        lemma_count_of_a_single_status(states, rest, held, status);
    }
}

/// Where all services have the same status, its count is the number of services,
/// and the other counts are zero.
pub proof fn lemma_counts_of_one_status(
    response: VelaStatusResponse,
    table: Table<ServiceState>,
    services: Seq<ServiceConfig>,
    held: ServiceStatus,
)
    requires
        is_overview(response, table, services),
        forall|i: int|
            0 <= i < table.order().len() ==> table@[#[trigger] table.order()[i]].status == held,
    ensures
        response.total_services == table.order().len(),
        response.healthy_count == (if held == ServiceStatus::Healthy {
            table.order().len()
        } else {
            0
        }),
        response.degraded_count == (if held == ServiceStatus::Degraded {
            table.order().len()
        } else {
            0
        }),
        response.failed_count == (if held == ServiceStatus::Failed {
            table.order().len()
        } else {
            0
        }),
        response.unknown_count == (if held == ServiceStatus::Unknown {
            table.order().len()
        } else {
            0
        }),
{
    lemma_count_of_a_single_status(table@, table.order(), held, ServiceStatus::Healthy);
    lemma_count_of_a_single_status(table@, table.order(), held, ServiceStatus::Degraded);
    lemma_count_of_a_single_status(table@, table.order(), held, ServiceStatus::Failed);
    lemma_count_of_a_single_status(table@, table.order(), held, ServiceStatus::Unknown);
}

/// The name of a service is the one that the last service with its id has in the
/// configuration; without one it is "Unknown".
pub proof fn lemma_name_in_full(services: Seq<ServiceConfig>, id: Seq<char>, i: int)
    ensures
        0 <= i < services.len() && services[i].id@ == id && (forall|j: int|
            i < j < services.len() ==> (#[trigger] services[j]).id@ != id) ==> name_of(services, id)
            == services[i].name@,
        (forall|j: int| 0 <= j < services.len() ==> (#[trigger] services[j]).id@ != id) ==> name_of(
            services,
            id,
        ) == "Unknown"@,
{
    config::lemma_service_position(services, id);
    if 0 <= i < services.len() && services[i].id@ == id && (forall|j: int|
        i < j < services.len() ==> (#[trigger] services[j]).id@ != id) {
        config::lemma_service_position_is_the_last(services, id, i);
    }
}

/// The list of services shows each service of the store once, with what the store
/// knows of it and the name that the configuration gives it, and goes by the ids.
pub proof fn lemma_list_in_full(
    summaries: Seq<ServiceSummary>,
    table: Table<ServiceState>,
    services: Seq<ServiceConfig>,
    k: int,
)
    requires
        summarize(summaries, table, services),
        0 <= k < table.order().len(),
    ensures
        summaries.len() == table.order().len(),
        exists|i: int|
            0 <= i < summaries.len() && {
                let s = #[trigger] summaries[i];
                let id = table.order()[k];
                &&& s.service_id@ == table@[id].service_id@
                &&& s.service_name@ == name_of(services, id)
                &&& s.status@ == table@[id].status.name()
                &&& s.consecutive_failures == table@[id].consecutive_failures
                &&& s.restart_count == table@[id].restart_count
                &&& s.is_recovering == table@[id].is_recovering
                &&& s.last_checked_at == table@[id].last_checked_at
                &&& s.last_ok_at == table@[id].last_ok_at
            },
        exists|id: Seq<char>| #[trigger]
            table.order().contains(id) && summaries[k].service_id@ == table@[id].service_id@
                && summaries[k].status@ == table@[id].status.name(),
        forall|i: int, j: int|
            0 <= i < j < summaries.len() ==> text::no_later(
                (#[trigger] summaries[i]).service_id@,
                (#[trigger] summaries[j]).service_id@,
            ),
{
    broadcast use vstd::seq_lib::group_to_multiset_ensures;

    let id = table.order()[k];
    lemma_no_service_is_left_out(summaries, table, services, id);
    let i = choose|i: int|
        0 <= i < summaries.len() && (#[trigger] summaries[i]).shows(
            table@[id],
            name_of(services, id),
        );
    models::lemma_summary_tells_the_state(summaries[i], table@[id], name_of(services, id));
    assert(summaries[i].status@ == table@[id].status.name());
    let keys = choose|keys: Seq<Seq<char>>| #[trigger]
        show_keys(summaries, keys, table@, services) && keys.to_multiset()
            == table.order().to_multiset();
    assert(keys.contains(keys[k]));
    assert(keys.to_multiset().count(keys[k]) > 0);
    assert(table.order().contains(keys[k]));
    assert(summaries[k].shows(table@[keys[k]], name_of(services, keys[k])));
    assert forall|i: int, j: int| 0 <= i < j < summaries.len() implies text::no_later(
        (#[trigger] summaries[i]).service_id@,
        (#[trigger] summaries[j]).service_id@,
    ) by {
        assert(text::no_later(summaries[i].key(), summaries[j].key()));
    }
}

/// A header lets in exactly where it is the word `Bearer`, a space and the key,
/// and nothing but visible ASCII characters, spaces and tabs. A refusal says what
/// is missing.
pub proof fn lemma_bearer_in_full(header: Option<Seq<u8>>, key: Seq<u8>)
    ensures
        bearer_problem(header, key) is None <==> (header matches Some(value) && value
            == encode_utf8("Bearer "@) + key && forall|i: int|
            0 <= i < value.len() ==> 32 <= #[trigger] value[i] <= 126 || value[i] == 9),
        header is None ==> bearer_problem(header, key) == Some("missing Authorization header"@),
        header matches Some(value) ==> !(forall|i: int|
            0 <= i < value.len() ==> 32 <= #[trigger] value[i] <= 126 || value[i] == 9)
            ==> bearer_problem(header, key) == Some(
            "Authorization header contains non-ASCII characters"@,
        ),
{
    let prefix = encode_utf8("Bearer "@);
    if let Some(value) = header {
        if prefix.is_prefix_of(value) {
            assert(value =~= prefix + value.skip(prefix.len() as int));
        }
        if value == prefix + key {
            assert(value.subrange(0, prefix.len() as int) =~= prefix);
            assert(value.skip(prefix.len() as int) =~= key);
        }
    }
}

/// Without the key there is no answer but to the question whether the program
/// runs and to the one for the dashboard: everything else is refused in the same
/// words. With the key everything is answered.
pub proof fn lemma_access_in_full(
    answer: Answer,
    state: VelaState,
    services: Seq<ServiceConfig>,
    key: Seq<u8>,
    header: Option<Seq<u8>>,
    route: Route,
)
    requires
        is_answer(answer, state, services, key, header, route),
    ensures
        route is Liveness ==> (answer matches Answer::Liveness(liveness) && liveness.ok
            && liveness.service@ == "vela"@),
        route is Dashboard ==> answer is Dashboard,
        !(route is Liveness) && !(route is Dashboard) && !(header matches Some(value) && value
            == encode_utf8("Bearer "@) + key) ==> (answer matches Answer::Refused(refusal)
            && refusal.status == 401 && !refusal.body.ok && refusal.body.error@
            == "Authentication required"@),
        (header matches Some(value) && value == encode_utf8("Bearer "@) + key && forall|i: int|
            0 <= i < value.len() ==> 32 <= #[trigger] value[i] <= 126 || value[i] == 9) ==> is_reply(
            answer,
            state,
            services,
            route,
        ),
{
    lemma_bearer_in_full(header, key);
}

/// Whether an id in a request holds anything but letters, numbers and hyphens.
pub open spec fn has_strange_character(id: Seq<char>) -> bool {
    exists|k: int|
        0 <= k < id.len() && !unicode::alphanumeric(#[trigger] id[k]) && id[k] != '-'
}

/// Whether an answer refuses with this status code and these words.
pub open spec fn refuses(answer: Answer, status: u16, words: Seq<char>) -> bool {
    answer matches Answer::Refused(refusal) && refusal.status == status && !refusal.body.ok
        && refusal.body.error@ == words
}

/// Each question has its own answer: the overview, the list, one service, and the
/// checks, the alerts and the restarts of one service, each from its own log. An
/// id with a strange character is refused, and so is one of no service.
pub proof fn lemma_replies_in_full(
    answer: Answer,
    state: VelaState,
    services: Seq<ServiceConfig>,
    route: Route,
)
    requires
        is_reply(answer, state, services, route),
    ensures
        route is Status ==> (answer matches Answer::Status(response) && response.ok && is_overview(
            response.data,
            state.inner.services,
            services,
        )),
        route is Services ==> (answer matches Answer::Services(response) && response.ok
            && summarize(response.data@, state.inner.services, services)),
        route matches Route::Service(id) ==> if has_strange_character(id@) {
            refuses(answer, 400, "Invalid service ID format"@)
        } else if !state.inner.services@.dom().contains(id@) {
            refuses(answer, 404, "Service not found"@)
        } else {
            answer matches Answer::Service(response) && response.ok && response.data.shows(
                state.inner.services@[id@],
                name_of(services, id@),
            )
        },
        route matches Route::Checks(id) ==> if has_strange_character(id@) {
            refuses(answer, 400, "Invalid service ID format"@)
        } else if forall|j: int| 0 <= j < services.len() ==> (#[trigger] services[j]).id@ != id@ {
            refuses(answer, 404, "Service not found"@)
        } else {
            answer matches Answer::Checks(response) && response.ok && response.data@ == (
            if state.inner.health_records@.dom().contains(id@) {
                state.inner.health_records@[id@]@
            } else {
                Seq::empty()
            })
        },
        route matches Route::Alerts(id) ==> if has_strange_character(id@) {
            refuses(answer, 400, "Invalid service ID format"@)
        } else if forall|j: int| 0 <= j < services.len() ==> (#[trigger] services[j]).id@ != id@ {
            refuses(answer, 404, "Service not found"@)
        } else {
            answer matches Answer::Alerts(response) && response.ok && response.data@ == (
            if state.inner.alert_records@.dom().contains(id@) {
                state.inner.alert_records@[id@]@
            } else {
                Seq::empty()
            })
        },
        route matches Route::Restarts(id) ==> if has_strange_character(id@) {
            refuses(answer, 400, "Invalid service ID format"@)
        } else if forall|j: int| 0 <= j < services.len() ==> (#[trigger] services[j]).id@ != id@ {
            refuses(answer, 404, "Service not found"@)
        } else {
            answer matches Answer::Restarts(response) && response.ok && response.data@ == (
            if state.inner.restart_records@.dom().contains(id@) {
                state.inner.restart_records@[id@]@
            } else {
                Seq::empty()
            })
        },
{
    match route {
        Route::Checks(id) => {
            config::lemma_service_position(services, id@);
        },
        Route::Alerts(id) => {
            config::lemma_service_position(services, id@);
        },
        Route::Restarts(id) => {
            config::lemma_service_position(services, id@);
        },
        _ => {},
    }
}

/// Setting the security headers leaves every other header as it was.
pub proof fn lemma_other_headers_are_kept(before: Map<Seq<char>, Seq<Seq<u8>>>, name: Seq<char>)
    requires
        name != "x-content-type-options"@,
        name != "x-frame-options"@,
        name != "cache-control"@,
        name != "server"@,
    ensures
        secured(before).dom().contains(name) == before.dom().contains(name),
        before.dom().contains(name) ==> secured(before)[name] == before[name],
{
}

} // verus!
