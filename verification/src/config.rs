//! The configuration engine: completes and validates what the configuration
//! file declares, and enters the services in the state store.
//!
//! A service may list its instances under `upstreams`, or name one by `host`
//! and `port`; it may say how it is restarted under `restart`, or give a
//! `command` alone. Completion turns the short forms into the long ones, so
//! that the other engines need to know the long forms only.

use vstd::prelude::*;
use vstd::string::*;

use crate::error;
use crate::error::VelaError;
use crate::models::{
    AlertRecord, HealthCheckKind, HealthRecord, RestartConfig, RestartMode, RestartRecord,
    ServiceConfig, UpstreamConfig, UpstreamState, VelaConfig,
};
use crate::state;
use crate::state::VelaState;
use crate::text;
use crate::unicode;

verus! {

/// The error for a configuration file that cannot be read.
pub fn unreadable_error(path: &str, detail: &str) -> (e: VelaError)
    ensures
        e matches VelaError::ConfigParse(msg) && msg@ == "Cannot read config file at '"@ + path@
            + "': "@ + detail@,
{
    VelaError::ConfigParse(
        String::from_str("Cannot read config file at '").concat(path).concat("': ").concat(detail),
    )
}

/// The error for a configuration file that cannot be parsed, in the words of the
/// parser.
pub fn malformed_error(detail: &str) -> (e: VelaError)
    ensures
        e matches VelaError::ConfigParse(msg) && msg@ == detail@,
{
    VelaError::ConfigParse(detail.to_owned())
}

/// Why the instances of a service cannot be told, if so.
pub open spec fn upstreams_problem(svc: ServiceConfig) -> Option<Seq<char>> {
    if svc.upstreams@.len() > 0 || (svc.host is Some && svc.port is Some) {
        None
    } else if svc.host is None && svc.port is None {
        Some(
            "Service '"@ + svc.id@
                + "' has no [[services.upstreams]] and no host/port to synthesize one from — a service needs at least one address to check"@,
        )
    } else {
        Some(
            "Service '"@ + svc.id@
                + "' sets only one of host/port — both are required together (or omit both and use [[services.upstreams]] instead)"@,
        )
    }
}

/// The instances of a service: those it lists, or the one that its host and
/// port name.
pub open spec fn effective_upstreams(svc: ServiceConfig) -> Seq<UpstreamConfig> {
    if svc.upstreams@.len() > 0 {
        svc.upstreams@
    } else {
        seq![UpstreamConfig { host: svc.host->0, port: svc.port->0, docker_container: None }]
    }
}

/// How a service is restarted: as it says, or else by its command, or else not
/// at all.
pub open spec fn effective_restart(svc: ServiceConfig) -> RestartConfig {
    match svc.restart {
        Some(restart) => restart,
        None => match svc.command {
            Some(command) => RestartConfig {
                mode: RestartMode::Manual,
                command: Some(command),
                docker: None,
            },
            None => RestartConfig { mode: RestartMode::MonitorOnly, command: None, docker: None },
        },
    }
}

/// Why a service cannot be completed, if so.
pub open spec fn completion_problem(svc: ServiceConfig) -> Option<Seq<char>> {
    match upstreams_problem(svc) {
        Some(words) => Some(words),
        None => effective_restart(svc).problem(svc.id@),
    }
}

/// Whether `after` is the service `before` with its instances and its restart
/// filled in, and nothing else changed.
pub open spec fn completed(before: ServiceConfig, after: ServiceConfig) -> bool {
    &&& after.upstreams@ == effective_upstreams(before)
    &&& after.restart == Some(effective_restart(before))
    &&& after.id == before.id
    &&& after.name == before.name
    &&& after.host == before.host
    &&& after.port == before.port
    &&& after.command == before.command
    &&& after.check_interval_secs == before.check_interval_secs
    &&& after.failure_threshold == before.failure_threshold
    &&& after.max_restarts == before.max_restarts
    &&& after.health_check == before.health_check
    &&& after.proxy == before.proxy
    &&& after.alerts == before.alerts
}

/// Whether every service of `before` can be completed, and `after` holds them
/// completed.
pub open spec fn all_completed(before: VelaConfig, after: VelaConfig) -> bool {
    &&& after.global == before.global
    &&& after.services@.len() == before.services@.len()
    &&& forall|i: int|
        0 <= i < before.services@.len() ==> completion_problem(#[trigger] before.services@[i])
            is None && completed(before.services@[i], after.services@[i])
}

/// Whether the service at `n` is the first one of `before` that cannot be
/// completed, `e` says why, and `after` holds the services before it completed
/// and those after it as they were.
pub open spec fn completion_stopped(
    before: VelaConfig,
    after: VelaConfig,
    n: int,
    e: VelaError,
) -> bool {
    &&& after.global == before.global
    &&& after.services@.len() == before.services@.len()
    &&& 0 <= n < before.services@.len()
    &&& completion_problem(before.services@[n]) is Some
    &&& error::is_config_error(e, completion_problem(before.services@[n])->0)
    &&& forall|i: int|
        0 <= i < n ==> completion_problem(#[trigger] before.services@[i]) is None && completed(
            before.services@[i],
            after.services@[i],
        )
    &&& forall|i: int|
        n < i < before.services@.len() ==> after.services@[i] == #[trigger] before.services@[i]
    &&& if upstreams_problem(before.services@[n]) is Some {
        after.services@[n] == before.services@[n]
    } else {
        completed(before.services@[n], after.services@[n])
    }
}

fn fill_upstreams(svc: &mut ServiceConfig) -> (result: Result<(), VelaError>)
    ensures
        result is Ok == upstreams_problem(*old(svc)) is None,
        result is Ok ==> final(svc).upstreams@ == effective_upstreams(*old(svc)),
        result matches Err(e) ==> *final(svc) == *old(svc) && error::is_config_error(
            e,
            upstreams_problem(*old(svc))->0,
        ),
        final(svc).restart == old(svc).restart,
        final(svc).id == old(svc).id,
        final(svc).name == old(svc).name,
        final(svc).host == old(svc).host,
        final(svc).port == old(svc).port,
        final(svc).command == old(svc).command,
        final(svc).check_interval_secs == old(svc).check_interval_secs,
        final(svc).failure_threshold == old(svc).failure_threshold,
        final(svc).max_restarts == old(svc).max_restarts,
        final(svc).health_check == old(svc).health_check,
        final(svc).proxy == old(svc).proxy,
        final(svc).alerts == old(svc).alerts,
{
    if svc.upstreams.len() > 0 {
        return Ok(());
    }
    if svc.host.is_none() && svc.port.is_none() {
        return Err(
            VelaError::ConfigValidation(
                String::from_str("Service '").concat(svc.id.as_str()).concat(
                    "' has no [[services.upstreams]] and no host/port to synthesize one from — a service needs at least one address to check",
                ),
            ),
        );
    }
    let host = svc.host.clone();
    match (host, svc.port) {
        (Some(host), Some(port)) => {
            svc.upstreams.push(UpstreamConfig { host, port, docker_container: None });
            assert(svc.upstreams@ =~= effective_upstreams(*old(svc)));
            Ok(())
        },
        _ => Err(
            VelaError::ConfigValidation(
                String::from_str("Service '").concat(svc.id.as_str()).concat(
                    "' sets only one of host/port — both are required together (or omit both and use [[services.upstreams]] instead)",
                ),
            ),
        ),
    }
}

fn command_restart(command: &Option<String>) -> (restart: RestartConfig)
    ensures
        restart == (match *command {
            Some(command) => RestartConfig {
                mode: RestartMode::Manual,
                command: Some(command),
                docker: None,
            },
            None => RestartConfig { mode: RestartMode::MonitorOnly, command: None, docker: None },
        }),
{
    match command {
        Some(command) => RestartConfig {
            mode: RestartMode::Manual,
            command: Some(command.clone()),
            docker: None,
        },
        None => RestartConfig { mode: RestartMode::MonitorOnly, command: None, docker: None },
    }
}

fn complete_service(svc: &mut ServiceConfig) -> (result: Result<(), VelaError>)
    ensures
        result is Ok == completion_problem(*old(svc)) is None,
        result matches Err(e) ==> error::is_config_error(e, completion_problem(*old(svc))->0),
        if upstreams_problem(*old(svc)) is Some {
            *final(svc) == *old(svc)
        } else {
            completed(*old(svc), *final(svc))
        },
{
    if let Err(e) = fill_upstreams(svc) {
        return Err(e);
    }
    if svc.restart.is_none() {
        svc.restart = Some(command_restart(&svc.command));
    }
    match &svc.restart {
        Some(restart) => restart.validate(svc.id.as_str()),
        None => Ok(()),
    }
}

/// Fills in the instances and the restart of every service that gives them in
/// the short form. Stops at the first service for which that cannot be done.
pub fn synthesize_backward_compat_fields(config: &mut VelaConfig) -> (result: Result<
    (),
    VelaError,
>)
    ensures
        match result {
            Ok(_) => all_completed(*old(config), *final(config)),
            Err(e) => exists|n: int| #[trigger]
                completion_stopped(*old(config), *final(config), n, e),
        },
{
    let mut i: usize = 0;
    while i < config.services.len()
        invariant
            i <= config.services@.len(),
            config.global == old(config).global,
            config.services@.len() == old(config).services@.len(),
            forall|j: int|
                0 <= j < i ==> completion_problem(#[trigger] old(config).services@[j]) is None
                    && completed(old(config).services@[j], config.services@[j]),
            forall|j: int|
                i <= j < config.services@.len() ==> config.services@[j] == #[trigger] old(
                    config,
                ).services@[j],
        decreases config.services.len() - i,
    {
        let ghost services = config.services@;
        assert(config.services@[i as int] == old(config).services@[i as int]);
        let result = complete_service(&mut config.services[i]);
        assert(forall|j: int|
            0 <= j < services.len() && j != i ==> config.services@[j] == services[j]);
        match result {
            Ok(_) => {},
            Err(e) => {
                assert(completion_stopped(*old(config), *config, i as int, e));
                return Err(e);
            },
        }
        i = i + 1;
    }
    Ok(())
}

/// Whether every character of a service id is a lowercase letter of ASCII, a
/// digit or a hyphen.
pub open spec fn valid_id(id: Seq<char>) -> bool {
    forall|i: int|
        0 <= i < id.len() ==> 'a' <= #[trigger] id[i] <= 'z' || '0' <= id[i] <= '9' || id[i] == '-'
}

/// The host of the first instance whose port is zero, if there is one.
pub open spec fn zero_port_host(upstreams: Seq<UpstreamConfig>) -> Option<Seq<char>>
    decreases upstreams.len(),
{
    if upstreams.len() == 0 {
        None
    } else if upstreams[0].port == 0 {
        Some(upstreams[0].host@)
    } else {
        zero_port_host(upstreams.drop_first())
    }
}

/// Whether an earlier service has the id of the service at `i`.
pub open spec fn repeats_id(services: Seq<ServiceConfig>, i: int) -> bool {
    exists|j: int| 0 <= j < i && (#[trigger] services[j]).id@ == services[i].id@
}

/// What is wrong with the service at `i`, if anything.
pub open spec fn service_problem(services: Seq<ServiceConfig>, i: int) -> Option<Seq<char>> {
    let svc = services[i];
    if !valid_id(svc.id@) {
        Some(
            "Service id '"@ + svc.id@
                + "' must contain only lowercase letters, numbers, and hyphens"@,
        )
    } else if repeats_id(services, i) {
        Some("Duplicate service id '"@ + svc.id@ + "' found in config"@)
    } else if svc.health_check.kind == HealthCheckKind::Http && svc.health_check.http_path is None {
        Some("Service '"@ + svc.id@ + "' uses HTTP health check but has no http_path set"@)
    } else {
        match zero_port_host(svc.upstreams@) {
            Some(host) => Some(
                "Service '"@ + svc.id@ + "' has an upstream ("@ + host
                    + ") with port 0, which is not valid"@,
            ),
            None => None,
        }
    }
}

/// What is wrong with the first service from `i` on with which something is
/// wrong.
pub open spec fn first_problem(services: Seq<ServiceConfig>, i: int) -> Option<Seq<char>>
    decreases services.len() - i,
{
    if i < 0 || i >= services.len() {
        None
    } else {
        match service_problem(services, i) {
            Some(words) => Some(words),
            None => first_problem(services, i + 1),
        }
    }
}

/// What is wrong with a configuration, if anything.
pub open spec fn config_problem(config: VelaConfig) -> Option<Seq<char>> {
    if unicode::blank(config.global.api_key@) {
        Some("global.api_key must not be empty"@)
    } else if config.services@.len() == 0 {
        Some("At least one [[services]] block is required"@)
    } else {
        first_problem(config.services@, 0)
    }
}

/// Whether every character of a service id is a lowercase letter of ASCII, a
/// digit or a hyphen.
pub fn id_is_valid(id: &str) -> (result: bool)
    ensures
        result == valid_id(id@),
{
    let chars = text::characters(id);
    let mut i: usize = 0;
    while i < chars.len()
        invariant
            i <= chars@.len(),
            chars@ == id@,
            forall|j: int|
                0 <= j < i ==> 'a' <= #[trigger] chars@[j] <= 'z' || '0' <= chars@[j] <= '9'
                    || chars@[j] == '-',
        decreases chars.len() - i,
    {
        let c = chars[i];
        if !(('a' <= c && c <= 'z') || ('0' <= c && c <= '9') || c == '-') {
            assert(id@[i as int] == c);
            return false;
        }
        i = i + 1;
    }
    true
}

fn id_is_repeated(services: &Vec<ServiceConfig>, i: usize) -> (result: bool)
    requires
        i < services@.len(),
    ensures
        result == repeats_id(services@, i as int),
{
    let mut j: usize = 0;
    while j < i
        invariant
            j <= i < services@.len(),
            forall|k: int| 0 <= k < j ==> (#[trigger] services@[k]).id@ != services@[i as int].id@,
        decreases i - j,
    {
        if text::same(services[j].id.as_str(), services[i].id.as_str()) {
            assert(services@[j as int].id@ == services@[i as int].id@);
            return true;
        }
        j = j + 1;
    }
    false
}

fn find_zero_port(upstreams: &Vec<UpstreamConfig>) -> (result: Option<&String>)
    ensures
        match result {
            Some(host) => zero_port_host(upstreams@) == Some(host@),
            None => zero_port_host(upstreams@) is None,
        },
{
    let mut i: usize = 0;
    assert(upstreams@.skip(0) =~= upstreams@);
    while i < upstreams.len()
        invariant
            i <= upstreams@.len(),
            zero_port_host(upstreams@) == zero_port_host(upstreams@.skip(i as int)),
        decreases upstreams.len() - i,
    {
        assert(upstreams@.skip(i as int).drop_first() =~= upstreams@.skip(i + 1));
        if upstreams[i].port == 0 {
            return Some(&upstreams[i].host);
        }
        i = i + 1;
    }
    None
}

fn check_service(services: &Vec<ServiceConfig>, i: usize) -> (result: Result<(), VelaError>)
    requires
        i < services@.len(),
    ensures
        result is Ok == service_problem(services@, i as int) is None,
        result matches Err(e) ==> error::is_config_error(
            e,
            service_problem(services@, i as int)->0,
        ),
{
    let svc = &services[i];
    if !id_is_valid(svc.id.as_str()) {
        return Err(
            VelaError::ConfigValidation(
                String::from_str("Service id '").concat(svc.id.as_str()).concat(
                    "' must contain only lowercase letters, numbers, and hyphens",
                ),
            ),
        );
    }
    if id_is_repeated(services, i) {
        return Err(
            VelaError::ConfigValidation(
                String::from_str("Duplicate service id '").concat(svc.id.as_str()).concat(
                    "' found in config",
                ),
            ),
        );
    }
    if svc.health_check.kind == HealthCheckKind::Http && svc.health_check.http_path.is_none() {
        return Err(
            VelaError::ConfigValidation(
                String::from_str("Service '").concat(svc.id.as_str()).concat(
                    "' uses HTTP health check but has no http_path set",
                ),
            ),
        );
    }
    match find_zero_port(&svc.upstreams) {
        Some(host) => Err(
            VelaError::ConfigValidation(
                String::from_str("Service '").concat(svc.id.as_str()).concat(
                    "' has an upstream (",
                ).concat(host.as_str()).concat(") with port 0, which is not valid"),
            ),
        ),
        None => Ok(()),
    }
}

/// Checks the rules that the format of the file cannot express.
pub fn validate_config(config: &VelaConfig) -> (result: Result<(), VelaError>)
    ensures
        result is Ok == config_problem(*config) is None,
        result matches Err(e) ==> error::is_config_error(e, config_problem(*config)->0),
{
    if unicode::is_blank(config.global.api_key.as_str()) {
        return Err(
            VelaError::ConfigValidation(String::from_str("global.api_key must not be empty")),
        );
    }
    if config.services.len() == 0 {
        return Err(
            VelaError::ConfigValidation(
                String::from_str("At least one [[services]] block is required"),
            ),
        );
    }
    let mut i: usize = 0;
    while i < config.services.len()
        invariant
            i <= config.services@.len(),
            first_problem(config.services@, 0) == first_problem(config.services@, i as int),
            config_problem(*config) == first_problem(config.services@, 0),
        decreases config.services.len() - i,
    {
        match check_service(&config.services, i) {
            Ok(_) => {},
            Err(e) => return Err(e),
        }
        i = i + 1;
    }
    Ok(())
}

/// Completes and validates a configuration that was just read.
pub fn prepare_config(config: &mut VelaConfig) -> (result: Result<(), VelaError>)
    ensures
        match result {
            Ok(_) => all_completed(*old(config), *final(config)) && config_problem(*final(config))
                is None,
            Err(e) => {
                ||| exists|n: int| #[trigger]
                    completion_stopped(*old(config), *final(config), n, e)
                ||| all_completed(*old(config), *final(config)) && config_problem(*final(config))
                    is Some && error::is_config_error(e, config_problem(*final(config))->0)
            },
        },
{
    match synthesize_backward_compat_fields(config) {
        Ok(_) => validate_config(config),
        Err(e) => Err(e),
    }
}

/// The position of the last service with this id, if there is one.
pub open spec fn service_position(services: Seq<ServiceConfig>, id: Seq<char>) -> Option<int>
    decreases services.len(),
{
    if services.len() == 0 {
        None
    } else if services.last().id@ == id {
        Some(services.len() - 1)
    } else {
        service_position(services.drop_last(), id)
    }
}

/// The position that is found is in range, and holds a service with this id.
pub proof fn lemma_service_position(services: Seq<ServiceConfig>, id: Seq<char>)
    ensures
        service_position(services, id) matches Some(i) ==> 0 <= i < services.len()
            && services[i].id@ == id,
        service_position(services, id) is None ==> forall|j: int|
            0 <= j < services.len() ==> (#[trigger] services[j]).id@ != id,
    decreases services.len(),
{
    if services.len() > 0 && services.last().id@ != id {
        let rest = services.drop_last();
        lemma_service_position(rest, id);
        if service_position(services, id) is None {
            assert forall|j: int| 0 <= j < services.len() implies (#[trigger] services[j]).id@
                != id by {
                if j < services.len() - 1 {
                    assert(rest[j] == services[j]);
                }
            }
        }
    }
}

/// Finds a service by its id.
pub fn find_service(services: &Vec<ServiceConfig>, id: &str) -> (result: Option<usize>)
    ensures
        match result {
            Some(i) => service_position(services@, id@) == Some(i as int) && i < services@.len(),
            None => service_position(services@, id@) is None,
        },
{
    let mut n: usize = services.len();
    assert(services@.take(n as int) =~= services@);
    while n > 0
        invariant
            n <= services@.len(),
            service_position(services@, id@) == service_position(services@.take(n as int), id@),
        decreases n,
    {
        assert(services@.take(n as int).drop_last() =~= services@.take(n - 1));
        if text::same(services[n - 1].id.as_str(), id) {
            return Some(n - 1);
        }
        n = n - 1;
    }
    None
}

/// Whether `states` are the states of these instances before any check.
pub open spec fn unchecked(upstreams: Seq<UpstreamConfig>, states: Seq<UpstreamState>) -> bool {
    &&& states.len() == upstreams.len()
    &&& forall|i: int|
        0 <= i < states.len() ==> (#[trigger] states[i]).is_initial(
            upstreams[i].host@,
            upstreams[i].port,
        )
}

/// Whether the store `after` knows the service `id` as one that was never
/// checked, with these instances.
pub open spec fn entered(after: VelaState, id: Seq<char>, upstreams: Seq<UpstreamConfig>) -> bool {
    &&& after.inner.services@.dom().contains(id)
    &&& after.inner.services@[id].is_initial(id)
    &&& after.inner.health_records@.dom().contains(id)
    &&& after.inner.health_records@[id]@ == Seq::<HealthRecord>::empty()
    &&& after.inner.restart_records@.dom().contains(id)
    &&& after.inner.restart_records@[id]@ == Seq::<RestartRecord>::empty()
    &&& after.inner.alert_records@.dom().contains(id)
    &&& after.inner.alert_records@[id]@ == Seq::<AlertRecord>::empty()
    &&& after.inner.upstream_states@.dom().contains(id)
    &&& unchecked(upstreams, after.inner.upstream_states@[id]@)
}

/// Whether two maps agree on a key.
pub open spec fn agree<V>(a: Map<Seq<char>, V>, b: Map<Seq<char>, V>, key: Seq<char>) -> bool {
    &&& a.dom().contains(key) == b.dom().contains(key)
    &&& a.dom().contains(key) ==> a[key] == b[key]
}

/// Whether the store `after` knows of the service `id` what `before` does.
pub open spec fn untouched(before: VelaState, after: VelaState, id: Seq<char>) -> bool {
    &&& agree(before.inner.services@, after.inner.services@, id)
    &&& agree(before.inner.health_records@, after.inner.health_records@, id)
    &&& agree(before.inner.restart_records@, after.inner.restart_records@, id)
    &&& agree(before.inner.alert_records@, after.inner.alert_records@, id)
    &&& agree(before.inner.upstream_states@, after.inner.upstream_states@, id)
}

/// Whether `after` is `before` with these services entered, and nothing known
/// of other services changed.
pub open spec fn registered(
    before: VelaState,
    after: VelaState,
    services: Seq<ServiceConfig>,
) -> bool {
    forall|id: Seq<char>|
        match #[trigger] service_position(services, id) {
            Some(i) => entered(after, id, services[i].upstreams@),
            None => untouched(before, after, id),
        }
}

fn initial_upstreams(upstreams: &Vec<UpstreamConfig>) -> (states: Vec<UpstreamState>)
    ensures
        unchecked(upstreams@, states@),
{
    let mut states: Vec<UpstreamState> = Vec::new();
    let mut i: usize = 0;
    while i < upstreams.len()
        invariant
            i <= upstreams@.len(),
            states@.len() == i,
            forall|j: int|
                0 <= j < i ==> (#[trigger] states@[j]).is_initial(
                    upstreams@[j].host@,
                    upstreams@[j].port,
                ),
        decreases upstreams.len() - i,
    {
        states.push(UpstreamState::initial(upstreams[i].host.clone(), upstreams[i].port));
        i = i + 1;
    }
    states
}

proof fn lemma_remove_agrees<V>(a: Map<Seq<char>, V>, b: Map<Seq<char>, V>, key: Seq<char>)
    requires
        a.remove(key) == b.remove(key),
    ensures
        forall|k: Seq<char>| k != key ==> #[trigger] agree(a, b, k),
{
    assert forall|k: Seq<char>| k != key implies #[trigger] agree(a, b, k) by {
        assert(a.remove(key).dom().contains(k) == a.dom().contains(k));
        assert(b.remove(key).dom().contains(k) == b.dom().contains(k));
        if a.dom().contains(k) {
            assert(a.remove(key)[k] == a[k]);
            assert(b.remove(key)[k] == b[k]);
        }
    }
}

fn register(svc: &ServiceConfig, state: &mut VelaState) -> (result: Result<(), VelaError>)
    ensures
        result is Ok,
        entered(*final(state), svc.id@, svc.upstreams@),
        forall|id: Seq<char>|
            id != svc.id@ ==> #[trigger] untouched(*old(state), *final(state), id),
        old(state).logs_bounded() ==> final(state).logs_bounded(),
{
    match state.register_service(svc.id.clone()) {
        Ok(_) => {},
        Err(e) => return Err(e),
    }
    state.register_service_upstreams(svc.id.clone(), initial_upstreams(&svc.upstreams));
    proof {
        let before = old(state).inner;
        let after = state.inner;
        lemma_remove_agrees(before.services@, after.services@, svc.id@);
        lemma_remove_agrees(before.health_records@, after.health_records@, svc.id@);
        lemma_remove_agrees(before.restart_records@, after.restart_records@, svc.id@);
        lemma_remove_agrees(before.alert_records@, after.alert_records@, svc.id@);
        assert(before.upstream_states@.remove(svc.id@) =~= after.upstream_states@.remove(svc.id@));
        lemma_remove_agrees(before.upstream_states@, after.upstream_states@, svc.id@);
    }
    Ok(())
}

/// Enters every service and its instances in the state store.
pub fn register_services(config: &VelaConfig, state: &mut VelaState) -> (result: Result<
    (),
    VelaError,
>)
    ensures
        result is Ok,
        registered(*old(state), *final(state), config.services@),
        old(state).logs_bounded() ==> final(state).logs_bounded(),
{
    let mut i: usize = 0;
    while i < config.services.len()
        invariant
            i <= config.services@.len(),
            registered(*old(state), *state, config.services@.take(i as int)),
            old(state).logs_bounded() ==> state.logs_bounded(),
        decreases config.services.len() - i,
    {
        let ghost before = *state;
        match register(&config.services[i], state) {
            Ok(_) => {},
            Err(e) => return Err(e),
        }
        proof {
            let earlier = config.services@.take(i as int);
            let now = config.services@.take(i + 1);
            let svc = config.services@[i as int];
            assert(now.drop_last() =~= earlier);
            assert(now.last() == svc);
            assert forall|id: Seq<char>|
                match #[trigger] service_position(now, id) {
                    Some(k) => entered(*state, id, now[k].upstreams@),
                    None => untouched(*old(state), *state, id),
                } by {
                if id != svc.id@ {
                    assert(untouched(before, *state, id));
                    assert(service_position(now, id) == service_position(earlier, id));
                    lemma_service_position(earlier, id);
                    match service_position(earlier, id) {
                        Some(k) => {
                            assert(now[k] == earlier[k]);
                            assert(entered(before, id, earlier[k].upstreams@));
                        },
                        None => {
                            assert(untouched(*old(state), before, id));
                        },
                    }
                }
            }
        }
        i = i + 1;
    }
    assert(config.services@.take(i as int) =~= config.services@);
    Ok(())
}

/// After completion every service has at least one instance and says how it is
/// restarted, in a way that has what it needs; completing it once more changes
/// nothing.
pub proof fn lemma_completion_is_complete(before: ServiceConfig, after: ServiceConfig)
    requires
        completion_problem(before) is None,
        completed(before, after),
    ensures
        after.upstreams@.len() > 0,
        after.restart is Some,
        after.restart->0.problem(after.id@) is None,
        completion_problem(after) is None,
        effective_upstreams(after) == after.upstreams@,
        effective_restart(after) == after.restart->0,
{
}

/// A service in the long form is left as it is, whatever its short form says.
pub proof fn lemma_long_form_wins(before: ServiceConfig, after: ServiceConfig)
    requires
        before.upstreams@.len() > 0,
        before.restart is Some,
        completed(before, after),
    ensures
        after.upstreams@ == before.upstreams@,
        after.restart == before.restart,
{
}

proof fn lemma_first_problem_covers(services: Seq<ServiceConfig>, from: int, i: int)
    requires
        0 <= from <= i < services.len(),
        first_problem(services, from) is None,
    ensures
        service_problem(services, i) is None,
    decreases i - from,
{
    if from < i {
        lemma_first_problem_covers(services, from + 1, i);
    }
}

/// In a valid configuration no two services share an id, every id is well
/// formed, every HTTP check has a path, and every instance has a usable port.
pub proof fn lemma_valid_config(config: VelaConfig)
    requires
        config_problem(config) is None,
    ensures
        !unicode::blank(config.global.api_key@),
        config.services@.len() > 0,
        forall|i: int, j: int|
            0 <= i < j < config.services@.len() ==> (#[trigger] config.services@[i]).id@ != (
            #[trigger] config.services@[j]).id@,
        forall|i: int|
            0 <= i < config.services@.len() ==> valid_id((#[trigger] config.services@[i]).id@)
                && (config.services@[i].health_check.kind == HealthCheckKind::Http
                ==> config.services@[i].health_check.http_path is Some) && forall|k: int|
                0 <= k < config.services@[i].upstreams@.len() ==> (
                #[trigger] config.services@[i].upstreams@[k]).port != 0,
{
    let services = config.services@;
    assert forall|i: int, j: int| 0 <= i < j < services.len() implies (#[trigger] services[i]).id@
        != (#[trigger] services[j]).id@ by {
        lemma_first_problem_covers(services, 0, j);
        assert(!repeats_id(services, j));
    }
    assert forall|i: int| 0 <= i < services.len() implies valid_id((#[trigger] services[i]).id@)
        && (services[i].health_check.kind == HealthCheckKind::Http
        ==> services[i].health_check.http_path is Some) && forall|k: int|
        0 <= k < services[i].upstreams@.len() ==> (#[trigger] services[i].upstreams@[k]).port
            != 0 by {
        lemma_first_problem_covers(services, 0, i);
        lemma_no_zero_port(services[i].upstreams@);
    }
}

proof fn lemma_no_zero_port(upstreams: Seq<UpstreamConfig>)
    requires
        zero_port_host(upstreams) is None,
    ensures
        forall|k: int| 0 <= k < upstreams.len() ==> (#[trigger] upstreams[k]).port != 0,
    decreases upstreams.len(),
{
    if upstreams.len() > 0 {
        let rest = upstreams.drop_first();
        lemma_no_zero_port(rest);
        assert forall|k: int| 0 <= k < upstreams.len() implies (#[trigger] upstreams[k]).port
            != 0 by {
            if k > 0 {
                assert(rest[k - 1] == upstreams[k]);
            }
        }
    }
}

proof fn lemma_listed_upstream_has_position(
    upstreams: Seq<UpstreamConfig>,
    states: Seq<UpstreamState>,
    k: int,
)
    requires
        unchecked(upstreams, states),
        0 <= k < upstreams.len(),
    ensures
        state::upstream_position(states, upstreams[k].host@, upstreams[k].port) is Some,
    decreases k,
{
    assert(states[k].is_initial(upstreams[k].host@, upstreams[k].port));
    if k > 0 {
        let rest = upstreams.drop_first();
        let rest_states = states.drop_first();
        assert forall|i: int| 0 <= i < rest_states.len() implies (
        #[trigger] rest_states[i]).is_initial(rest[i].host@, rest[i].port) by {
            assert(states[i + 1].is_initial(upstreams[i + 1].host@, upstreams[i + 1].port));
        }
        lemma_listed_upstream_has_position(rest, rest_states, k - 1);
    }
}

/// After registration the store knows every instance of every service of a
/// valid configuration.
pub proof fn lemma_registered_upstreams_are_known(
    config: VelaConfig,
    before: VelaState,
    after: VelaState,
    i: int,
    k: int,
)
    requires
        config_problem(config) is None,
        registered(before, after, config.services@),
        0 <= i < config.services@.len(),
        0 <= k < config.services@[i].upstreams@.len(),
    ensures
        state::knows(
            after,
            config.services@[i].id@,
            config.services@[i].upstreams@[k].host@,
            config.services@[i].upstreams@[k].port,
        ),
{
    let services = config.services@;
    let id = services[i].id@;
    lemma_service_position(services, id);
    lemma_valid_config(config);
    assert(service_position(services, id) is Some) by {
        assert(services[i].id@ == id);
    }
    let p = service_position(services, id)->0;
    assert(p == i);
    assert(entered(after, id, services[p].upstreams@));
    lemma_listed_upstream_has_position(
        services[i].upstreams@,
        after.inner.upstream_states@[id]@,
        k,
    );
}

/// The service that is found by an id is the last one that has it; one is found
/// exactly where there is one.
pub proof fn lemma_service_position_is_the_last(services: Seq<ServiceConfig>, id: Seq<char>, i: int)
    requires
        0 <= i < services.len(),
        services[i].id@ == id,
        forall|j: int| i < j < services.len() ==> (#[trigger] services[j]).id@ != id,
    ensures
        service_position(services, id) == Some(i),
    decreases services.len(),
{
    if i < services.len() - 1 {
        let rest = services.drop_last();
        assert(services.last().id@ != id);
        assert(rest[i] == services[i]);
        assert forall|j: int| i < j < rest.len() implies (#[trigger] rest[j]).id@ != id by {
            assert(rest[j] == services[j]);
        }
        lemma_service_position_is_the_last(rest, id, i);
    }
}

/// Completion keeps the instances that a service lists, or makes one of its host
/// and port; keeps the restart that it states, or makes one of its command; and
/// changes nothing else.
pub proof fn lemma_completion_in_full(before: ServiceConfig, after: ServiceConfig)
    requires
        completed(before, after),
    ensures
        before.upstreams@.len() > 0 ==> after.upstreams@ == before.upstreams@,
        before.upstreams@.len() == 0 && before.host is Some && before.port is Some
            ==> after.upstreams@.len() == 1 && after.upstreams@[0].host == before.host->0
            && after.upstreams@[0].port == before.port->0 && after.upstreams@[0].docker_container
            is None,
        before.restart is Some ==> after.restart == before.restart,
        before.restart is None && before.command is Some ==> (after.restart matches Some(
            restart,
        ) && restart.mode == RestartMode::Manual && restart.command == before.command
            && restart.docker is None),
        before.restart is None && before.command is None ==> (after.restart matches Some(
            restart,
        ) && restart.mode == RestartMode::MonitorOnly && restart.command is None
            && restart.docker is None),
        after.id == before.id,
        after.name == before.name,
        after.host == before.host,
        after.port == before.port,
        after.command == before.command,
        after.check_interval_secs == before.check_interval_secs,
        after.failure_threshold == before.failure_threshold,
        after.max_restarts == before.max_restarts,
        after.health_check == before.health_check,
        after.proxy == before.proxy,
        after.alerts == before.alerts,
{
}

/// A service can be completed exactly where it lists an instance or has a host
/// and a port, and where a restart that it states has what its mode needs.
pub proof fn lemma_what_can_be_completed(svc: ServiceConfig)
    ensures
        completion_problem(svc) is None <==> {
            &&& svc.upstreams@.len() > 0 || (svc.host is Some && svc.port is Some)
            &&& svc.restart matches Some(restart) ==> {
                &&& restart.mode == RestartMode::Docker ==> restart.docker is Some
                &&& restart.mode == RestartMode::Manual ==> restart.command is Some
            }
        },
        svc.upstreams@.len() == 0 && svc.host is None && svc.port is None ==> completion_problem(
            svc,
        ) == Some(
            "Service '"@ + svc.id@
                + "' has no [[services.upstreams]] and no host/port to synthesize one from — a service needs at least one address to check"@,
        ),
        svc.upstreams@.len() == 0 && (svc.host is None != svc.port is None) ==> completion_problem(
            svc,
        ) == Some(
            "Service '"@ + svc.id@
                + "' sets only one of host/port — both are required together (or omit both and use [[services.upstreams]] instead)"@,
        ),
{
}

/// In a completed configuration there are the same services in the same order,
/// and each of them has an instance and says how it is restarted.
pub proof fn lemma_completion_of_all(before: VelaConfig, after: VelaConfig)
    requires
        all_completed(before, after),
    ensures
        after.global == before.global,
        after.services@.len() == before.services@.len(),
        forall|i: int|
            0 <= i < before.services@.len() ==> (#[trigger] after.services@[i]).upstreams@.len() > 0
                && after.services@[i].restart is Some && after.services@[i].id
                == before.services@[i].id,
{
    assert forall|i: int| 0 <= i < before.services@.len() implies (
    #[trigger] after.services@[i]).upstreams@.len() > 0 && after.services@[i].restart is Some
        && after.services@[i].id == before.services@[i].id by {
        assert(completion_problem(before.services@[i]) is None);
        assert(completed(before.services@[i], after.services@[i]));
        lemma_completion_is_complete(before.services@[i], after.services@[i]);
    }
}

/// Where completion stops, the services before the one it stops at had what
/// they need, and that one has not.
pub proof fn lemma_completion_stops_at_the_first(
    before: VelaConfig,
    after: VelaConfig,
    n: int,
    e: VelaError,
)
    requires
        completion_stopped(before, after, n, e),
    ensures
        0 <= n < before.services@.len(),
        e is ConfigValidation,
        ({
            let svc = before.services@[n];
            ||| svc.upstreams@.len() == 0 && (svc.host is None || svc.port is None)
            ||| svc.restart matches Some(restart) && ((restart.mode == RestartMode::Docker
                && restart.docker is None) || (restart.mode == RestartMode::Manual
                && restart.command is None))
        }),
        forall|i: int|
            0 <= i < n ==> (#[trigger] before.services@[i]).upstreams@.len() > 0 || (
            before.services@[i].host is Some && before.services@[i].port is Some),
{
    lemma_what_can_be_completed(before.services@[n]);
    assert forall|i: int| 0 <= i < n implies (#[trigger] before.services@[i]).upstreams@.len() > 0
        || (before.services@[i].host is Some && before.services@[i].port is Some) by {
        assert(completion_problem(before.services@[i]) is None);
        lemma_what_can_be_completed(before.services@[i]);
    }
}

proof fn lemma_zero_port_is_found(upstreams: Seq<UpstreamConfig>, k: int)
    requires
        0 <= k < upstreams.len(),
        upstreams[k].port == 0,
        forall|j: int| 0 <= j < k ==> (#[trigger] upstreams[j]).port != 0,
    ensures
        zero_port_host(upstreams) == Some(upstreams[k].host@),
    decreases k,
{
    if k > 0 {
        assert(upstreams[0].port != 0);
        let rest = upstreams.drop_first();
        assert(rest[k - 1] == upstreams[k]);
        assert forall|j: int| 0 <= j < k - 1 implies (#[trigger] rest[j]).port != 0 by {
            assert(rest[j] == upstreams[j + 1]);
        }
        lemma_zero_port_is_found(rest, k - 1);
    }
}

proof fn lemma_ports_without_zero(upstreams: Seq<UpstreamConfig>)
    requires
        forall|k: int| 0 <= k < upstreams.len() ==> (#[trigger] upstreams[k]).port != 0,
    ensures
        zero_port_host(upstreams) is None,
    decreases upstreams.len(),
{
    if upstreams.len() > 0 {
        let rest = upstreams.drop_first();
        assert(upstreams[0].port != 0);
        assert forall|k: int| 0 <= k < rest.len() implies (#[trigger] rest[k]).port != 0 by {
            assert(rest[k] == upstreams[k + 1]);
        }
        lemma_ports_without_zero(rest);
    }
}

/// Whether a service is in order by itself: the characters of its id, the path
/// of its HTTP check, and the ports of its instances.
pub open spec fn is_sound(svc: ServiceConfig) -> bool {
    &&& forall|k: int|
        0 <= k < svc.id@.len() ==> 'a' <= #[trigger] svc.id@[k] <= 'z' || '0' <= svc.id@[k] <= '9'
            || svc.id@[k] == '-'
    &&& svc.health_check.kind == HealthCheckKind::Http ==> svc.health_check.http_path is Some
    &&& forall|k: int| 0 <= k < svc.upstreams@.len() ==> (#[trigger] svc.upstreams@[k]).port != 0
}

proof fn lemma_sound_services_pass(services: Seq<ServiceConfig>, from: int)
    requires
        0 <= from,
        forall|i: int| from <= i < services.len() ==> is_sound(#[trigger] services[i]),
        forall|i: int, j: int|
            0 <= i < j < services.len() ==> (#[trigger] services[i]).id@ != (
            #[trigger] services[j]).id@,
    ensures
        first_problem(services, from) is None,
    decreases services.len() - from,
{
    if from < services.len() {
        assert(is_sound(services[from]));
        lemma_ports_without_zero(services[from].upstreams@);
        assert(!repeats_id(services, from));
        assert(service_problem(services, from) is None);
        lemma_sound_services_pass(services, from + 1);
    }
}

/// A configuration is valid exactly where its key holds more than white space,
/// it has a service, all services are in order, and no two of them share an id.
pub proof fn lemma_validity_in_full(config: VelaConfig)
    ensures
        config_problem(config) is None <==> {
            &&& exists|k: int|
                0 <= k < config.global.api_key@.len() && !unicode::white_space(
                    #[trigger] config.global.api_key@[k],
                )
            &&& config.services@.len() > 0
            &&& forall|i: int|
                0 <= i < config.services@.len() ==> is_sound(#[trigger] config.services@[i])
            &&& forall|i: int, j: int|
                0 <= i < j < config.services@.len() ==> (#[trigger] config.services@[i]).id@ != (
                #[trigger] config.services@[j]).id@
        },
{
    let services = config.services@;
    if config_problem(config) is None {
        lemma_valid_config(config);
        assert forall|i: int| 0 <= i < services.len() implies is_sound(#[trigger] services[i]) by {
            assert(valid_id(services[i].id@));
        }
    }
    if services.len() > 0 && (forall|i: int|
        0 <= i < services.len() ==> is_sound(#[trigger] services[i])) && (forall|i: int, j: int|
        0 <= i < j < services.len() ==> (#[trigger] services[i]).id@ != (#[trigger] services[j]).id@) {
        lemma_sound_services_pass(services, 0);
    }
}

/// What is wrong with a service is told in this order: its id, an id that an
/// earlier service has, the missing path of an HTTP check, an instance with port
/// zero.
pub proof fn lemma_problem_of_a_service(services: Seq<ServiceConfig>, i: int, k: int)
    requires
        0 <= i < services.len(),
        service_problem(services, i) is Some,
    ensures
        ({
            let svc = services[i];
            let words = service_problem(services, i)->0;
            let plain = forall|k: int|
                0 <= k < svc.id@.len() ==> 'a' <= #[trigger] svc.id@[k] <= 'z' || '0' <= svc.id@[k]
                    <= '9' || svc.id@[k] == '-';
            let again = exists|j: int| 0 <= j < i && (#[trigger] services[j]).id@ == svc.id@;
            let pathless = svc.health_check.kind == HealthCheckKind::Http
                && svc.health_check.http_path is None;
            &&& !plain ==> words == "Service id '"@ + svc.id@
                + "' must contain only lowercase letters, numbers, and hyphens"@
            &&& plain && again ==> words == "Duplicate service id '"@ + svc.id@
                + "' found in config"@
            &&& plain && !again && pathless ==> words == "Service '"@ + svc.id@
                + "' uses HTTP health check but has no http_path set"@
            &&& plain && !again && !pathless && 0 <= k < svc.upstreams@.len()
                && svc.upstreams@[k].port == 0 && (forall|j: int|
                0 <= j < k ==> (#[trigger] svc.upstreams@[j]).port != 0) ==> words == "Service '"@
                + svc.id@ + "' has an upstream ("@ + svc.upstreams@[k].host@
                + ") with port 0, which is not valid"@
        }),
{
    let svc = services[i];
    if 0 <= k < svc.upstreams@.len() && svc.upstreams@[k].port == 0 && (forall|j: int|
        0 <= j < k ==> (#[trigger] svc.upstreams@[j]).port != 0) {
        lemma_zero_port_is_found(svc.upstreams@, k);
    }
}

/// After registration every service of the configuration is known with an
/// unknown status, no failures, empty logs and its instances, all unknown; and
/// of any other service what was known is known still.
pub proof fn lemma_registration_in_full(
    before: VelaState,
    after: VelaState,
    services: Seq<ServiceConfig>,
    i: int,
    other: Seq<char>,
)
    requires
        registered(before, after, services),
        0 <= i < services.len(),
        forall|j: int| i < j < services.len() ==> (#[trigger] services[j]).id@ != services[i].id@,
        forall|j: int| 0 <= j < services.len() ==> (#[trigger] services[j]).id@ != other,
    ensures
        ({
            let id = services[i].id@;
            let ups = after.inner.upstream_states@[id]@;
            &&& after.inner.services@.dom().contains(id)
            &&& after.inner.services@[id].service_id@ == id
            &&& after.inner.services@[id].status == crate::models::ServiceStatus::Unknown
            &&& after.inner.services@[id].consecutive_failures == 0
            &&& after.inner.services@[id].restart_count == 0
            &&& after.inner.services@[id].last_checked_at is None
            &&& after.inner.services@[id].last_ok_at is None
            &&& after.inner.health_records@.dom().contains(id)
            &&& after.inner.health_records@[id]@.len() == 0
            &&& after.inner.restart_records@.dom().contains(id)
            &&& after.inner.restart_records@[id]@.len() == 0
            &&& after.inner.alert_records@.dom().contains(id)
            &&& after.inner.alert_records@[id]@.len() == 0
            &&& after.inner.upstream_states@.dom().contains(id)
            &&& ups.len() == services[i].upstreams@.len()
            &&& forall|k: int|
                0 <= k < ups.len() ==> (#[trigger] ups[k]).host@ == services[i].upstreams@[k].host@
                    && ups[k].port == services[i].upstreams@[k].port && ups[k].status
                    == crate::models::ServiceStatus::Unknown && ups[k].consecutive_failures == 0
        }),
        after.inner.services@.dom().contains(other) == before.inner.services@.dom().contains(other),
        before.inner.services@.dom().contains(other) ==> after.inner.services@[other]
            == before.inner.services@[other],
        after.inner.upstream_states@.dom().contains(other)
            == before.inner.upstream_states@.dom().contains(other),
        before.inner.upstream_states@.dom().contains(other) ==> after.inner.upstream_states@[other]
            == before.inner.upstream_states@[other],
{
    let id = services[i].id@;
    lemma_service_position_is_the_last(services, id, i);
    assert(entered(after, id, services[i].upstreams@));
    let ups = after.inner.upstream_states@[id]@;
    assert forall|k: int| 0 <= k < ups.len() implies (#[trigger] ups[k]).host@
        == services[i].upstreams@[k].host@ && ups[k].port == services[i].upstreams@[k].port
        && ups[k].status == crate::models::ServiceStatus::Unknown && ups[k].consecutive_failures
        == 0 by {
        assert(ups[k].is_initial(
            services[i].upstreams@[k].host@,
            services[i].upstreams@[k].port,
        ));
    }
    lemma_service_position(services, other);
    assert(service_position(services, other) is None);
    assert(untouched(before, after, other));
}

proof fn lemma_problem_after_sound_services(services: Seq<ServiceConfig>, from: int, i: int)
    requires
        0 <= from <= i < services.len(),
        forall|j: int| from <= j < i ==> is_sound(#[trigger] services[j]),
        forall|j: int, l: int|
            0 <= j < l < i ==> (#[trigger] services[j]).id@ != (#[trigger] services[l]).id@,
        service_problem(services, i) is Some,
    ensures
        first_problem(services, from) == service_problem(services, i),
    decreases i - from,
{
    if from < i {
        assert(is_sound(services[from]));
        assert(valid_id(services[from].id@));
        lemma_ports_without_zero(services[from].upstreams@);
        assert(!repeats_id(services, from));
        lemma_problem_after_sound_services(services, from + 1, i);
    }
}

/// A refusal tells of the first service with which something is wrong, and of that
/// the first thing. A blank key and an empty list are told of before any service.
pub proof fn lemma_first_problem_is_told(
    config: &VelaConfig,
    result: Result<(), VelaError>,
    i: int,
    k: int,
)
    requires
        call_ensures(validate_config, (config,), result),
    ensures
        ({
            let services = config.services@;
            let keyless = forall|c: int|
                0 <= c < config.global.api_key@.len() ==> unicode::white_space(
                    #[trigger] config.global.api_key@[c],
                );
            let before_i = 0 <= i < services.len() && (forall|j: int|
                0 <= j < i ==> is_sound(#[trigger] services[j])) && (forall|j: int, l: int|
                0 <= j < l < i ==> (#[trigger] services[j]).id@ != (#[trigger] services[l]).id@);
            let svc = services[i];
            let plain = forall|c: int|
                0 <= c < svc.id@.len() ==> 'a' <= #[trigger] svc.id@[c] <= 'z' || '0' <= svc.id@[c]
                    <= '9' || svc.id@[c] == '-';
            let again = exists|j: int| 0 <= j < i && (#[trigger] services[j]).id@ == svc.id@;
            let pathless = svc.health_check.kind == HealthCheckKind::Http
                && svc.health_check.http_path is None;
            let zero = 0 <= k < svc.upstreams@.len() && svc.upstreams@[k].port == 0 && (forall|
                j: int,
            | 0 <= j < k ==> (#[trigger] svc.upstreams@[j]).port != 0);
            &&& keyless ==> says(result, "global.api_key must not be empty"@)
            &&& !keyless && services.len() == 0 ==> says(
                result,
                "At least one [[services]] block is required"@,
            )
            &&& !keyless && before_i && !plain ==> says(
                result,
                "Service id '"@ + svc.id@
                    + "' must contain only lowercase letters, numbers, and hyphens"@,
            )
            &&& !keyless && before_i && plain && again ==> says(
                result,
                "Duplicate service id '"@ + svc.id@ + "' found in config"@,
            )
            &&& !keyless && before_i && plain && !again && pathless ==> says(
                result,
                "Service '"@ + svc.id@ + "' uses HTTP health check but has no http_path set"@,
            )
            &&& !keyless && before_i && plain && !again && !pathless && zero ==> says(
                result,
                "Service '"@ + svc.id@ + "' has an upstream ("@ + svc.upstreams@[k].host@
                    + ") with port 0, which is not valid"@,
            )
        }),
{
    let services = config.services@;
    let svc = services[i];
    if 0 <= i < services.len() {
        if 0 <= k < svc.upstreams@.len() && svc.upstreams@[k].port == 0 && (forall|j: int|
            0 <= j < k ==> (#[trigger] svc.upstreams@[j]).port != 0) {
            lemma_zero_port_is_found(svc.upstreams@, k);
        }
        if service_problem(services, i) is Some && (forall|j: int|
            0 <= j < i ==> is_sound(#[trigger] services[j])) && (forall|j: int, l: int|
            0 <= j < l < i ==> (#[trigger] services[j]).id@ != (#[trigger] services[l]).id@) {
            lemma_problem_after_sound_services(services, 0, i);
        }
    }
}

/// Whether a configuration is refused in these words.
pub open spec fn says(result: Result<(), VelaError>, words: Seq<char>) -> bool {
    result matches Err(VelaError::ConfigValidation(said)) && said@ == words
}

} // verus!
