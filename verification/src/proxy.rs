//! The proxy engine: which ports its listeners take, and which instance of a
//! service each new connection is forwarded to.

use vstd::prelude::*;
use vstd::string::*;

use crate::error::VelaError;
use crate::models::{
    ProxyBinding, ServiceConfig, ServiceStatus, UpstreamConfig, UpstreamState, VelaConfig,
    MAX_CONCURRENT_CONNECTIONS,
};
use crate::state;
use crate::state::VelaState;
use crate::text;

verus! {

/// A host and a port as an address.
pub open spec fn address(host: Seq<char>, port: u16) -> Seq<char> {
    host + ":"@ + text::decimal(port as nat)
}

/// Writes a host and a port as an address.
pub fn address_text(host: &str, port: u16) -> (result: String)
    ensures
        result@ == address(host@, port),
{
    host.to_owned().concat(":").concat(text::decimal_text(port as u64).as_str())
}

/// Whether a service itself, or one of its instances, has this port.
pub open spec fn owns_port(svc: ServiceConfig, port: u16) -> bool {
    svc.port == Some(port) || exists|i: int|
        0 <= i < svc.upstreams@.len() && (#[trigger] svc.upstreams@[i]).port == port
}

/// Whether the proxy of an earlier service listens on the port of the proxy of
/// the service at `i`.
pub open spec fn repeats_port(services: Seq<ServiceConfig>, i: int) -> bool {
    exists|j: int|
        0 <= j < i && (#[trigger] services[j]).proxy is Some
            && services[j].proxy->0.listen_port == services[i].proxy->0.listen_port
}

/// What is wrong with the proxy port of the service at `i`, if anything: the
/// port, and why it cannot be had.
pub open spec fn port_problem(
    services: Seq<ServiceConfig>,
    api_port: u16,
    i: int,
) -> Option<(u16, Seq<char>)> {
    let svc = services[i];
    if svc.proxy is None {
        None
    } else {
        let port = svc.proxy->0.listen_port;
        if port == 0 {
            Some((port, "Service '"@ + svc.id@ + "' proxy listen_port 0 is not valid"@))
        } else if owns_port(svc, port) {
            Some(
                (
                    port,
                    "Service '"@ + svc.id@ + "' proxy listen_port "@ + text::decimal(port as nat)
                        + " conflicts with the service's own port"@,
                ),
            )
        } else if port == api_port {
            Some(
                (
                    port,
                    "Service '"@ + svc.id@ + "' proxy listen_port "@ + text::decimal(port as nat)
                        + " conflicts with Vela API port"@,
                ),
            )
        } else if repeats_port(services, i) {
            Some(
                (
                    port,
                    "Port "@ + text::decimal(port as nat)
                        + " is used by multiple services or conflicts with the API port"@,
                ),
            )
        } else {
            None
        }
    }
}

/// What is wrong with the proxy port of the first service from `i` on with
/// whose proxy port something is wrong.
pub open spec fn first_port_problem(
    services: Seq<ServiceConfig>,
    api_port: u16,
    i: int,
) -> Option<(u16, Seq<char>)>
    decreases services.len() - i,
{
    if i < 0 || i >= services.len() {
        None
    } else {
        match port_problem(services, api_port, i) {
            Some(problem) => Some(problem),
            None => first_port_problem(services, api_port, i + 1),
        }
    }
}

/// Whether `e` reports this port conflict.
pub open spec fn is_conflict(e: VelaError, problem: (u16, Seq<char>)) -> bool {
    e matches VelaError::ProxyPortConflict { port, reason } && port == problem.0 && reason@
        == problem.1
}

fn upstream_has_port(upstreams: &Vec<UpstreamConfig>, port: u16) -> (result: bool)
    ensures
        result == exists|i: int|
            0 <= i < upstreams@.len() && (#[trigger] upstreams@[i]).port == port,
{
    let mut i: usize = 0;
    while i < upstreams.len()
        invariant
            i <= upstreams@.len(),
            forall|j: int| 0 <= j < i ==> (#[trigger] upstreams@[j]).port != port,
        decreases upstreams.len() - i,
    {
        if upstreams[i].port == port {
            return true;
        }
        i = i + 1;
    }
    false
}

fn port_is_repeated(services: &Vec<ServiceConfig>, i: usize, port: u16) -> (result: bool)
    requires
        i < services@.len(),
        services@[i as int].proxy is Some,
        services@[i as int].proxy->0.listen_port == port,
    ensures
        result == repeats_port(services@, i as int),
{
    let mut j: usize = 0;
    while j < i
        invariant
            j <= i < services@.len(),
            services@[i as int].proxy->0.listen_port == port,
            forall|k: int|
                0 <= k < j ==> !((#[trigger] services@[k]).proxy is Some
                    && services@[k].proxy->0.listen_port == port),
        decreases i - j,
    {
        if let Some(proxy) = &services[j].proxy {
            if proxy.listen_port == port {
                assert(services@[j as int].proxy is Some);
                return true;
            }
        }
        j = j + 1;
    }
    false
}

fn check_port(services: &Vec<ServiceConfig>, api_port: u16, i: usize) -> (result: Result<
    (),
    VelaError,
>)
    requires
        i < services@.len(),
    ensures
        result is Ok == port_problem(services@, api_port, i as int) is None,
        result matches Err(e) ==> is_conflict(e, port_problem(services@, api_port, i as int)->0),
{
    let svc = &services[i];
    let port: u16 = match &svc.proxy {
        Some(proxy) => proxy.listen_port,
        None => return Ok(()),
    };
    if port == 0 {
        return Err(
            VelaError::ProxyPortConflict {
                port,
                reason: String::from_str("Service '").concat(svc.id.as_str()).concat(
                    "' proxy listen_port 0 is not valid",
                ),
            },
        );
    }
    let named = match svc.port {
        Some(own) => own == port,
        None => false,
    };
    if named || upstream_has_port(&svc.upstreams, port) {
        return Err(
            VelaError::ProxyPortConflict {
                port,
                reason: String::from_str("Service '").concat(svc.id.as_str()).concat(
                    "' proxy listen_port ",
                ).concat(text::decimal_text(port as u64).as_str()).concat(
                    " conflicts with the service's own port",
                ),
            },
        );
    }
    if port == api_port {
        return Err(
            VelaError::ProxyPortConflict {
                port,
                reason: String::from_str("Service '").concat(svc.id.as_str()).concat(
                    "' proxy listen_port ",
                ).concat(text::decimal_text(port as u64).as_str()).concat(
                    " conflicts with Vela API port",
                ),
            },
        );
    }
    if port_is_repeated(services, i, port) {
        return Err(
            VelaError::ProxyPortConflict {
                port,
                reason: String::from_str("Port ").concat(
                    text::decimal_text(port as u64).as_str(),
                ).concat(" is used by multiple services or conflicts with the API port"),
            },
        );
    }
    Ok(())
}

/// Checks the ports of all proxies before any of them is opened.
pub fn validate_proxy_config(config: &VelaConfig) -> (result: Result<(), VelaError>)
    ensures
        result is Ok == first_port_problem(config.services@, config.global.api_port, 0) is None,
        result matches Err(e) ==> is_conflict(
            e,
            first_port_problem(config.services@, config.global.api_port, 0)->0,
        ),
{
    let api_port: u16 = config.global.api_port;
    let mut i: usize = 0;
    while i < config.services.len()
        invariant
            i <= config.services@.len(),
            api_port == config.global.api_port,
            first_port_problem(config.services@, api_port, 0) == first_port_problem(
                config.services@,
                api_port,
                i as int,
            ),
        decreases config.services.len() - i,
    {
        match check_port(&config.services, api_port, i) {
            Ok(_) => {},
            Err(e) => return Err(e),
        }
        i = i + 1;
    }
    Ok(())
}

/// The addresses of instances.
pub open spec fn upstream_addresses(upstreams: Seq<UpstreamConfig>) -> Seq<Seq<char>> {
    upstreams.map_values(|u: UpstreamConfig| address(u.host@, u.port))
}

/// The addresses that a proxy of the service forwards to: those of its
/// instances, or the one that its host and port name.
pub open spec fn forward_addresses(svc: ServiceConfig) -> Seq<Seq<char>> {
    if svc.upstreams@.len() > 0 {
        upstream_addresses(svc.upstreams@)
    } else if svc.host is Some && svc.port is Some {
        seq![address(svc.host->0@, svc.port->0)]
    } else {
        Seq::empty()
    }
}

/// Strings by their characters.
pub open spec fn views(strings: Seq<String>) -> Seq<Seq<char>> {
    strings.map_values(|s: String| s@)
}

/// Whether `binding` is that of the proxy of the service.
pub open spec fn is_binding(binding: ProxyBinding, svc: ServiceConfig) -> bool {
    &&& svc.proxy is Some
    &&& binding.service_id@ == svc.id@
    &&& binding.service_name@ == svc.name@
    &&& binding.listen_addr@ == address(
        if svc.proxy->0.bind_all_interfaces {
            "0.0.0.0"@
        } else {
            "127.0.0.1"@
        },
        svc.proxy->0.listen_port,
    )
    &&& views(binding.upstream_addrs@) == forward_addresses(svc)
}

/// The services that have a proxy, in their order.
pub open spec fn proxied(services: Seq<ServiceConfig>) -> Seq<ServiceConfig>
    decreases services.len(),
{
    if services.len() == 0 {
        Seq::empty()
    } else if services.last().proxy is Some {
        proxied(services.drop_last()).push(services.last())
    } else {
        proxied(services.drop_last())
    }
}

/// Whether these are the bindings of the services that have a proxy.
pub open spec fn are_bindings(
    bindings: Seq<ProxyBinding>,
    services: Seq<ServiceConfig>,
) -> bool {
    &&& bindings.len() == proxied(services).len()
    &&& forall|i: int|
        0 <= i < bindings.len() ==> is_binding(#[trigger] bindings[i], proxied(services)[i])
}

fn upstream_address_list(svc: &ServiceConfig) -> (result: Vec<String>)
    ensures
        views(result@) == forward_addresses(*svc),
{
    let mut result: Vec<String> = Vec::new();
    if svc.upstreams.len() == 0 {
        if let Some(host) = &svc.host {
            if let Some(port) = svc.port {
                result.push(address_text(host.as_str(), port));
            }
        }
        assert(views(result@) =~= forward_addresses(*svc));
        return result;
    }
    let mut i: usize = 0;
    while i < svc.upstreams.len()
        invariant
            i <= svc.upstreams@.len(),
            views(result@) == upstream_addresses(svc.upstreams@.take(i as int)),
        decreases svc.upstreams.len() - i,
    {
        let ghost before = result@;
        result.push(address_text(svc.upstreams[i].host.as_str(), svc.upstreams[i].port));
        proof {
            let upstream = svc.upstreams@[i as int];
            assert(svc.upstreams@.take(i + 1) =~= svc.upstreams@.take(i as int).push(upstream));
            assert(views(result@) =~= views(before).push(address(upstream.host@, upstream.port)));
            assert(upstream_addresses(svc.upstreams@.take(i + 1)) =~= upstream_addresses(
                svc.upstreams@.take(i as int),
            ).push(address(upstream.host@, upstream.port)));
        }
        i = i + 1;
    }
    assert(svc.upstreams@.take(i as int) =~= svc.upstreams@);
    result
}

/// Works out where each proxy listens and what it forwards to.
pub fn build_proxy_bindings(config: &VelaConfig) -> (bindings: Vec<ProxyBinding>)
    ensures
        are_bindings(bindings@, config.services@),
{
    let mut bindings: Vec<ProxyBinding> = Vec::new();
    let mut i: usize = 0;
    while i < config.services.len()
        invariant
            i <= config.services@.len(),
            are_bindings(bindings@, config.services@.take(i as int)),
        decreases config.services.len() - i,
    {
        let svc = &config.services[i];
        assert(config.services@.take(i + 1).drop_last() =~= config.services@.take(i as int));
        if let Some(proxy) = &svc.proxy {
            let host = if proxy.bind_all_interfaces {
                "0.0.0.0"
            } else {
                "127.0.0.1"
            };
            bindings.push(
                ProxyBinding {
                    service_id: svc.id.clone(),
                    service_name: svc.name.clone(),
                    listen_addr: address_text(host, proxy.listen_port),
                    upstream_addrs: upstream_address_list(svc),
                },
            );
        }
        i = i + 1;
    }
    assert(config.services@.take(i as int) =~= config.services@);
    bindings
}

/// The error for a listener that could not be opened. The port is the one
/// after the last colon of its address, or zero where there is none.
pub fn bind_error(listen_addr: &str, detail: &str) -> (e: VelaError)
    ensures
        e matches VelaError::ProxyBindError { port, reason } && reason@ == detail@ && port == (
        match text::port_value(text::after_last(listen_addr@, ':')) {
            Some(n) => n,
            None => 0,
        }),
{
    let port: u16 = match text::parse_port(text::part_after_last(listen_addr, ':')) {
        Some(n) => n,
        None => 0,
    };
    VelaError::ProxyBindError { port, reason: detail.to_owned() }
}

/// The port that the error for a listener names is the one that it was to
/// listen on.
pub proof fn lemma_bind_error_names_the_port(host: Seq<char>, port: u16)
    ensures
        text::port_value(text::after_last(address(host, port), ':')) == Some(port),
{
    let digits = text::decimal(port as nat);
    text::lemma_decimal_spells(port as nat);
    assert forall|i: int| 0 <= i < digits.len() implies #[trigger] digits[i] != ':' by {
        assert('0' <= digits[i] <= '9');
    }
    reveal_strlit(":");
    assert(":"@ =~= seq![':']);
    text::lemma_after_last_of(host, ':', digits);
    text::lemma_port_reads_back(port);
}

/// Whether a service is known to be healthy.
pub open spec fn service_is_healthy(state: VelaState, service_id: Seq<char>) -> bool {
    state.inner.services@.dom().contains(service_id) && state.inner.services@[service_id].status
        == ServiceStatus::Healthy
}

/// Whether a service is known to be healthy.
pub fn is_upstream_healthy(state: &VelaState, service_id: &str) -> (result: bool)
    ensures
        result == service_is_healthy(*state, service_id@),
{
    match state.inner.services.get(service_id) {
        Some(found) => found.status == ServiceStatus::Healthy,
        None => false,
    }
}

/// Addresses of hosts and ports.
pub open spec fn as_addresses(pairs: Seq<(Seq<char>, u16)>) -> Seq<Seq<char>> {
    pairs.map_values(|p: (Seq<char>, u16)| address(p.0, p.1))
}

/// The addresses that a new connection may be forwarded to: those of the
/// healthy instances of the service, or, where nothing is known of its
/// instances, all addresses of the binding if the service is healthy.
pub open spec fn candidates(state: VelaState, binding: ProxyBinding) -> Seq<Seq<char>> {
    let id = binding.service_id@;
    if state.inner.upstream_states@.dom().contains(id) {
        as_addresses(state::healthy_addresses(state.inner.upstream_states@[id]@))
    } else if service_is_healthy(state, id) {
        views(binding.upstream_addrs@)
    } else {
        Seq::empty()
    }
}

/// The candidate whose turn it is; none where there are no candidates.
pub open spec fn chosen(candidates: Seq<Seq<char>>, turn: int) -> Option<Seq<char>> {
    if candidates.len() == 0 {
        None
    } else {
        Some(candidates[turn % candidates.len() as int])
    }
}

/// What to do with a new connection.
#[derive(Debug)]
pub enum ConnectionPlan {
    /// Close it: no instance of the service is healthy.
    Reject,
    /// Forward it to this address.
    Forward(String),
}

/// Whether `plan` forwards to the given address, or rejects where there is
/// none.
pub open spec fn carries_out(plan: ConnectionPlan, target: Option<Seq<char>>) -> bool {
    match target {
        None => plan is Reject,
        Some(addr) => plan matches ConnectionPlan::Forward(to) && to@ == addr,
    }
}

/// Decides where a new connection goes, from the state at this moment. The
/// connections of a listener take turns at the candidates.
pub fn handle_connection(state: &VelaState, binding: &ProxyBinding, turn: usize) -> (plan:
    ConnectionPlan)
    ensures
        carries_out(plan, chosen(candidates(*state, *binding), turn as int)),
{
    let id = binding.service_id.as_str();
    if state.inner.upstream_states.contains(id) {
        let healthy = state.get_healthy_upstreams(id);
        let ghost pairs = state::addresses(healthy@);
        assert(as_addresses(pairs).len() == healthy@.len());
        if healthy.len() == 0 {
            return ConnectionPlan::Reject;
        }
        let i: usize = turn % healthy.len();
        let (host, port) = &healthy[i];
        assert(pairs[i as int] == (host@, *port));
        ConnectionPlan::Forward(address_text(host.as_str(), *port))
    } else if is_upstream_healthy(state, id) && binding.upstream_addrs.len() > 0 {
        let i: usize = turn % binding.upstream_addrs.len();
        ConnectionPlan::Forward(binding.upstream_addrs[i].clone())
    } else {
        ConnectionPlan::Reject
    }
}

/// Where a listener stands.
#[derive(Debug, Clone, Copy)]
pub struct ListenerState {
    /// The turn of the next connection.
    pub turn: usize,
    /// The connections that are open.
    pub active: usize,
    /// Whether it was told to stop.
    pub draining: bool,
}

/// What happens to a listener.
#[derive(Debug, Clone, Copy, PartialEq, Eq, Structural)]
pub enum ListenerEvent {
    /// It was told to stop.
    ShutDown,
    /// A client connected.
    Accepted,
    /// Accepting a client failed.
    AcceptFailed,
    /// A connection ended.
    Finished,
}

/// What a listener does next.
#[derive(Debug, Clone, Copy, PartialEq, Eq, Structural)]
pub enum ListenerAction {
    /// Serve the client, whose turn is this.
    Serve(usize),
    /// Close the connection: there are too many, or the listener is to stop.
    TurnAway,
    /// Go on.
    Resume,
    /// End: it was told to stop, and no connection is open.
    Stop,
}

/// The turn after this one.
pub open spec fn turn_after(turn: usize) -> usize {
    if turn == usize::MAX {
        0
    } else {
        (turn + 1) as usize
    }
}

/// The state of a listener after an event.
pub open spec fn listener_after(state: ListenerState, event: ListenerEvent) -> ListenerState {
    match event {
        ListenerEvent::ShutDown => ListenerState { draining: true, ..state },
        ListenerEvent::Accepted => if state.draining || state.active
            >= MAX_CONCURRENT_CONNECTIONS {
            state
        } else {
            ListenerState {
                turn: turn_after(state.turn),
                active: (state.active + 1) as usize,
                ..state
            }
        },
        ListenerEvent::AcceptFailed => state,
        ListenerEvent::Finished => ListenerState { active: (state.active - 1) as usize, ..state },
    }
}

/// What a listener does after an event.
pub open spec fn listener_action(state: ListenerState, event: ListenerEvent) -> ListenerAction {
    let after = listener_after(state, event);
    if event == ListenerEvent::Accepted {
        if state.draining || state.active >= MAX_CONCURRENT_CONNECTIONS {
            ListenerAction::TurnAway
        } else {
            ListenerAction::Serve(state.turn)
        }
    } else if after.draining && after.active == 0 {
        ListenerAction::Stop
    } else {
        ListenerAction::Resume
    }
}

impl ListenerState {
    /// Whether no more connections are open than may be.
    pub open spec fn within_limit(&self) -> bool {
        self.active <= MAX_CONCURRENT_CONNECTIONS
    }

    /// A listener that was just opened.
    pub fn new() -> (state: Self)
        ensures
            state.turn == 0,
            state.active == 0,
            !state.draining,
            state.within_limit(),
    {
        ListenerState { turn: 0, active: 0, draining: false }
    }
}

/// Moves a listener on by one event, and decides what it does next.
pub fn run_listener(state: &mut ListenerState, event: ListenerEvent) -> (action: ListenerAction)
    requires
        event == ListenerEvent::Finished ==> old(state).active > 0,
    ensures
        *final(state) == listener_after(*old(state), event),
        action == listener_action(*old(state), event),
        old(state).within_limit() ==> final(state).within_limit(),
{
    match event {
        ListenerEvent::ShutDown => {
            state.draining = true;
        },
        ListenerEvent::Accepted => {
            if state.draining || state.active >= MAX_CONCURRENT_CONNECTIONS {
                return ListenerAction::TurnAway;
            }
            let turn: usize = state.turn;
            state.turn = if turn == usize::MAX {
                0
            } else {
                turn + 1
            };
            state.active = state.active + 1;
            return ListenerAction::Serve(turn);
        },
        ListenerEvent::AcceptFailed => {},
        ListenerEvent::Finished => {
            state.active = state.active - 1;
        },
    }
    if state.draining && state.active == 0 {
        ListenerAction::Stop
    } else {
        ListenerAction::Resume
    }
}

/// A listener that was told to stop serves no new client, and ends only when
/// its last connection has ended.
pub proof fn lemma_listener_drains(state: ListenerState, event: ListenerEvent)
    requires
        state.draining,
        event == ListenerEvent::Finished ==> state.active > 0,
    ensures
        listener_after(state, event).draining,
        !(listener_action(state, event) is Serve),
        listener_action(state, event) is Stop ==> listener_after(state, event).active == 0,
        event == ListenerEvent::Finished && state.active == 1 ==> listener_action(state, event)
            is Stop,
{
}

/// A listener that is full turns clients away until a connection ends.
pub proof fn lemma_full_listener_turns_away(state: ListenerState)
    requires
        state.active == MAX_CONCURRENT_CONNECTIONS,
        !state.draining,
    ensures
        listener_action(state, ListenerEvent::Accepted) is TurnAway,
        listener_action(
            listener_after(state, ListenerEvent::Finished),
            ListenerEvent::Accepted,
        ) is Serve,
{
}

/// A connection is never forwarded to an instance that is not healthy.
pub proof fn lemma_only_healthy_are_chosen(
    upstreams: Seq<UpstreamState>,
    state: VelaState,
    binding: ProxyBinding,
    turn: int,
)
    requires
        state.inner.upstream_states@.dom().contains(binding.service_id@),
        upstreams == state.inner.upstream_states@[binding.service_id@]@,
        chosen(candidates(state, binding), turn) is Some,
    ensures
        exists|i: int|
            0 <= i < upstreams.len() && (#[trigger] upstreams[i]).status == ServiceStatus::Healthy
                && chosen(candidates(state, binding), turn) == Some(
                address(upstreams[i].host@, upstreams[i].port),
            ),
{
    let healthy = state::healthy_addresses(upstreams);
    let k = turn % healthy.len() as int;
    lemma_healthy_address_has_source(upstreams, k);
    let i = choose|i: int|
        0 <= i < upstreams.len() && (#[trigger] upstreams[i]).status == ServiceStatus::Healthy
            && healthy[k] == (upstreams[i].host@, upstreams[i].port);
    assert(upstreams[i].status == ServiceStatus::Healthy);
}

proof fn lemma_healthy_address_has_source(upstreams: Seq<UpstreamState>, k: int)
    requires
        0 <= k < state::healthy_addresses(upstreams).len(),
    ensures
        exists|i: int|
            0 <= i < upstreams.len() && (#[trigger] upstreams[i]).status == ServiceStatus::Healthy
                && state::healthy_addresses(upstreams)[k] == (
                upstreams[i].host@,
                upstreams[i].port,
            ),
    decreases upstreams.len(),
{
    let rest = upstreams.drop_last();
    let n = state::healthy_addresses(rest).len();
    if k < n {
        lemma_healthy_address_has_source(rest, k);
        let i = choose|i: int|
            0 <= i < rest.len() && (#[trigger] rest[i]).status == ServiceStatus::Healthy
                && state::healthy_addresses(rest)[k] == (rest[i].host@, rest[i].port);
        assert(upstreams[i] == rest[i]);
    } else {
        let i = upstreams.len() - 1;
        assert(upstreams[i] == upstreams.last());
    }
}

/// As long as one instance of a service is healthy, connections are forwarded.
pub proof fn lemma_one_healthy_is_enough(
    state: VelaState,
    binding: ProxyBinding,
    turn: int,
    i: int,
)
    requires
        state.inner.upstream_states@.dom().contains(binding.service_id@),
        0 <= i < state.inner.upstream_states@[binding.service_id@]@.len(),
        state.inner.upstream_states@[binding.service_id@]@[i].status == ServiceStatus::Healthy,
    ensures
        chosen(candidates(state, binding), turn) is Some,
{
    lemma_healthy_is_listed(state.inner.upstream_states@[binding.service_id@]@, i);
}

proof fn lemma_healthy_is_listed(upstreams: Seq<UpstreamState>, i: int)
    requires
        0 <= i < upstreams.len(),
        upstreams[i].status == ServiceStatus::Healthy,
    ensures
        state::healthy_addresses(upstreams).contains((upstreams[i].host@, upstreams[i].port)),
        state::healthy_addresses(upstreams).len() > 0,
    decreases upstreams.len(),
{
    let rest = upstreams.drop_last();
    let all = state::healthy_addresses(upstreams);
    let pair = (upstreams[i].host@, upstreams[i].port);
    if i == upstreams.len() - 1 {
        assert(all[all.len() - 1] == pair);
    } else {
        lemma_healthy_is_listed(rest, i);
        let k = state::healthy_addresses(rest).index_of(pair);
        assert(state::healthy_addresses(rest)[k] == pair);
        assert(all[k] == pair);
    }
}

/// Each candidate has its turn once in every round of as many connections as
/// there are candidates.
pub proof fn lemma_every_candidate_has_its_turn(
    candidates: Seq<Seq<char>>,
    first_turn: int,
    k: int,
)
    requires
        first_turn >= 0,
        0 <= k < candidates.len(),
    ensures
        exists|turn: int|
            first_turn <= turn < first_turn + candidates.len() && #[trigger] chosen(
                candidates,
                turn,
            ) == Some(candidates[k]),
{
    let n = candidates.len() as int;
    let start = first_turn % n;
    let turn = if k >= start {
        first_turn + (k - start)
    } else {
        first_turn + (k - start) + n
    };
    let q = first_turn / n;
    assert(first_turn == q * n + start) by {
        vstd::arithmetic::div_mod::lemma_fundamental_div_mod(first_turn, n);
        assert(n * q == q * n) by (nonlinear_arith);
    }
    if k >= start {
        assert(turn == q * n + k);
        vstd::arithmetic::div_mod::lemma_fundamental_div_mod_converse(turn, n, q, k);
    } else {
        assert(turn == (q + 1) * n + k) by (nonlinear_arith)
            requires
                turn == q * n + start + (k - start) + n,
        ;
        vstd::arithmetic::div_mod::lemma_fundamental_div_mod_converse(turn, n, q + 1, k);
    }
    assert(chosen(candidates, turn) == Some(candidates[k]));
}

proof fn lemma_no_port_problem(services: Seq<ServiceConfig>, api_port: u16, from: int, i: int)
    requires
        0 <= from <= i < services.len(),
        first_port_problem(services, api_port, from) is None,
    ensures
        port_problem(services, api_port, i) is None,
    decreases i - from,
{
    if from < i {
        lemma_no_port_problem(services, api_port, from + 1, i);
    }
}

/// Where the proxy ports are valid, no two proxies share a port, and none takes
/// the port of the API or of its own service.
pub proof fn lemma_valid_ports(config: VelaConfig)
    requires
        first_port_problem(config.services@, config.global.api_port, 0) is None,
    ensures
        forall|i: int|
            0 <= i < config.services@.len() && (#[trigger] config.services@[i]).proxy is Some ==> {
                let port = config.services@[i].proxy->0.listen_port;
                &&& port != 0
                &&& port != config.global.api_port
                &&& !owns_port(config.services@[i], port)
            },
        forall|i: int, j: int|
            0 <= i < j < config.services@.len() && (#[trigger] config.services@[i]).proxy is Some
                && (#[trigger] config.services@[j]).proxy is Some
                ==> config.services@[i].proxy->0.listen_port
                != config.services@[j].proxy->0.listen_port,
{
    let services = config.services@;
    let api_port = config.global.api_port;
    assert forall|i: int| 0 <= i < services.len() && (#[trigger] services[i]).proxy is Some implies {
        let port = services[i].proxy->0.listen_port;
        &&& port != 0
        &&& port != api_port
        &&& !owns_port(services[i], port)
    } by {
        lemma_no_port_problem(services, api_port, 0, i);
    }
    assert forall|i: int, j: int|
        0 <= i < j < services.len() && (#[trigger] services[i]).proxy is Some && (
        #[trigger] services[j]).proxy is Some implies services[i].proxy->0.listen_port
        != services[j].proxy->0.listen_port by {
        lemma_no_port_problem(services, api_port, 0, j);
        assert(!repeats_port(services, j));
    }
}

/// An instance that is healthy, or healthy again, has its turn in every round
/// of connections.
pub proof fn lemma_healthy_upstream_is_in_rotation(
    state: VelaState,
    binding: ProxyBinding,
    i: int,
    first_turn: int,
)
    requires
        first_turn >= 0,
        state.inner.upstream_states@.dom().contains(binding.service_id@),
        0 <= i < state.inner.upstream_states@[binding.service_id@]@.len(),
        state.inner.upstream_states@[binding.service_id@]@[i].status == ServiceStatus::Healthy,
    ensures
        ({
            let upstream = state.inner.upstream_states@[binding.service_id@]@[i];
            exists|turn: int|
                first_turn <= turn < first_turn + candidates(state, binding).len()
                    && #[trigger] chosen(candidates(state, binding), turn) == Some(
                    address(upstream.host@, upstream.port),
                )
        }),
{
    let upstreams = state.inner.upstream_states@[binding.service_id@]@;
    let pair = (upstreams[i].host@, upstreams[i].port);
    lemma_healthy_is_listed(upstreams, i);
    let k = state::healthy_addresses(upstreams).index_of(pair);
    assert(state::healthy_addresses(upstreams)[k] == pair);
    assert(candidates(state, binding)[k] == address(pair.0, pair.1));
    lemma_every_candidate_has_its_turn(candidates(state, binding), first_turn, k);
}

/// An address is a host, a colon and a port in decimal, and the port is read back
/// from it.
pub proof fn lemma_address_in_full(host: Seq<char>, port: u16)
    ensures
        address(host, port) == host + ":"@ + text::decimal(port as nat),
        address(host, port).take(host.len() as int) == host,
        text::port_value(text::after_last(address(host, port), ':')) == Some(port),
{
    lemma_bind_error_names_the_port(host, port);
    assert(address(host, port).take(host.len() as int) =~= host);
}

/// Whether a binding is that of the proxy of this service, field by field.
pub open spec fn serves(binding: ProxyBinding, svc: ServiceConfig) -> bool {
    &&& svc.proxy is Some
    &&& binding.service_id@ == svc.id@
    &&& binding.service_name@ == svc.name@
    &&& binding.listen_addr@ == (if svc.proxy->0.bind_all_interfaces {
        "0.0.0.0"@
    } else {
        "127.0.0.1"@
    }) + ":"@ + text::decimal(svc.proxy->0.listen_port as nat)
    &&& text::port_value(text::after_last(binding.listen_addr@, ':')) == Some(
        svc.proxy->0.listen_port,
    )
    &&& svc.upstreams@.len() > 0 ==> binding.upstream_addrs@.len() == svc.upstreams@.len()
        && forall|k: int|
        0 <= k < svc.upstreams@.len() ==> (#[trigger] binding.upstream_addrs@[k])@
            == svc.upstreams@[k].host@ + ":"@ + text::decimal(svc.upstreams@[k].port as nat)
    &&& svc.upstreams@.len() == 0 && svc.host is Some && svc.port is Some
        ==> binding.upstream_addrs@.len() == 1 && binding.upstream_addrs@[0]@ == svc.host->0@
        + ":"@ + text::decimal(svc.port->0 as nat)
}

proof fn lemma_binding_serves(binding: ProxyBinding, svc: ServiceConfig)
    requires
        is_binding(binding, svc),
    ensures
        serves(binding, svc),
{
    let host = if svc.proxy->0.bind_all_interfaces {
        "0.0.0.0"@
    } else {
        "127.0.0.1"@
    };
    lemma_address_in_full(host, svc.proxy->0.listen_port);
    let addrs = binding.upstream_addrs@;
    assert(views(addrs).len() == addrs.len());
    if svc.upstreams@.len() > 0 {
        assert(upstream_addresses(svc.upstreams@).len() == svc.upstreams@.len());
        assert forall|k: int| 0 <= k < svc.upstreams@.len() implies (#[trigger] addrs[k])@
            == svc.upstreams@[k].host@ + ":"@ + text::decimal(svc.upstreams@[k].port as nat) by {
            assert(views(addrs)[k] == upstream_addresses(svc.upstreams@)[k]);
            lemma_address_in_full(svc.upstreams@[k].host@, svc.upstreams@[k].port);
        }
    } else if svc.host is Some && svc.port is Some {
        assert(views(addrs)[0] == forward_addresses(svc)[0]);
        lemma_address_in_full(svc.host->0@, svc.port->0);
    }
}

/// Whether these are, in their order, the positions of the services that have a
/// proxy, each one once.
pub open spec fn are_positions_of_proxies(
    positions: Seq<int>,
    services: Seq<ServiceConfig>,
) -> bool {
    &&& forall|k: int|
        0 <= k < positions.len() ==> 0 <= #[trigger] positions[k] < services.len()
            && services[positions[k]].proxy is Some
    &&& forall|k: int, l: int|
        0 <= k < l < positions.len() ==> #[trigger] positions[k] < #[trigger] positions[l]
    &&& forall|i: int|
        0 <= i < services.len() && (#[trigger] services[i]).proxy is Some ==> positions.contains(i)
}

proof fn lemma_proxied_positions(services: Seq<ServiceConfig>) -> (positions: Seq<int>)
    ensures
        are_positions_of_proxies(positions, services),
        positions.len() == proxied(services).len(),
        forall|k: int|
            0 <= k < positions.len() ==> proxied(services)[k] == services[#[trigger] positions[k]],
    decreases services.len(),
{
    if services.len() == 0 {
        Seq::empty()
    } else {
        let rest = services.drop_last();
        let n = services.len() - 1;
        let fewer = lemma_proxied_positions(rest);
        let positions = if services.last().proxy is Some {
            fewer.push(n)
        } else {
            fewer
        };
        assert forall|k: int| 0 <= k < positions.len() implies 0 <= #[trigger] positions[k]
            < services.len() && services[positions[k]].proxy is Some && proxied(services)[k]
            == services[positions[k]] by {
            if k < fewer.len() {
                assert(positions[k] == fewer[k]);
                assert(rest[fewer[k]] == services[fewer[k]]);
            }
        }
        assert forall|k: int, l: int| 0 <= k < l < positions.len() implies #[trigger] positions[k]
            < #[trigger] positions[l] by {
            assert(positions[k] == fewer[k]);
            if l < fewer.len() {
                assert(positions[l] == fewer[l]);
            }
        }
        assert forall|i: int|
            0 <= i < services.len() && (
            #[trigger] services[i]).proxy is Some implies positions.contains(i) by {
            if i < n {
                assert(rest[i] == services[i]);
                assert(fewer.contains(i));
                let k = fewer.index_of(i);
                assert(positions[k] == i);
            } else {
                assert(positions[fewer.len() as int] == n);
            }
        }
        positions
    }
}

/// There is one binding for each service that has a proxy, and no other: as many
/// as there are such services, in their order, and each listens on the port and
/// forwards to the instances of its service.
pub proof fn lemma_every_proxy_is_bound(bindings: Seq<ProxyBinding>, services: Seq<ServiceConfig>)
    requires
        are_bindings(bindings, services),
    ensures
        forall|i: int|
            0 <= i < services.len() && (#[trigger] services[i]).proxy is Some ==> exists|k: int|
                0 <= k < bindings.len() && serves(#[trigger] bindings[k], services[i]),
        bindings.len() == Set::new(
            |i: int| 0 <= i < services.len() && services[i].proxy is Some,
        ).len(),
        exists|positions: Seq<int>| #[trigger]
            are_positions_of_proxies(positions, services) && positions.len() == bindings.len()
                && forall|k: int|
                0 <= k < bindings.len() ==> serves(#[trigger] bindings[k], services[positions[k]]),
{
    let positions = lemma_proxied_positions(services);
    assert forall|k: int| 0 <= k < bindings.len() implies serves(
        #[trigger] bindings[k],
        services[positions[k]],
    ) by {
        lemma_binding_serves(bindings[k], proxied(services)[k]);
    }
    assert forall|i: int|
        0 <= i < services.len() && (#[trigger] services[i]).proxy is Some implies exists|k: int|
        0 <= k < bindings.len() && serves(#[trigger] bindings[k], services[i]) by {
        assert(positions.contains(i));
        let k = positions.index_of(i);
        assert(serves(bindings[k], services[positions[k]]));
    }
    assert(positions.no_duplicates());
    positions.unique_seq_to_set();
    let all = Set::new(|i: int| 0 <= i < services.len() && services[i].proxy is Some);
    assert(positions.to_set() =~= all);
}

/// The proxy ports are in order exactly where each of them is neither zero nor
/// that of the API nor one of its own service, and no two are the same.
pub proof fn lemma_port_validity_in_full(services: Seq<ServiceConfig>, api_port: u16)
    ensures
        first_port_problem(services, api_port, 0) is None <==> {
            &&& forall|i: int|
                0 <= i < services.len() && (#[trigger] services[i]).proxy is Some ==> {
                    let port = services[i].proxy->0.listen_port;
                    &&& port != 0
                    &&& port != api_port
                    &&& services[i].port != Some(port)
                    &&& forall|k: int|
                        0 <= k < services[i].upstreams@.len() ==> (
                        #[trigger] services[i].upstreams@[k]).port != port
                }
            &&& forall|i: int, j: int|
                0 <= i < j < services.len() && (#[trigger] services[i]).proxy is Some && (
                #[trigger] services[j]).proxy is Some ==> services[i].proxy->0.listen_port
                    != services[j].proxy->0.listen_port
        },
{
    if first_port_problem(services, api_port, 0) is None {
        assert forall|i: int| 0 <= i < services.len() && (
        #[trigger] services[i]).proxy is Some implies {
            let port = services[i].proxy->0.listen_port;
            &&& port != 0
            &&& port != api_port
            &&& services[i].port != Some(port)
            &&& forall|k: int|
                0 <= k < services[i].upstreams@.len() ==> (
                #[trigger] services[i].upstreams@[k]).port != port
        } by {
            lemma_no_port_problem(services, api_port, 0, i);
        }
        assert forall|i: int, j: int|
            0 <= i < j < services.len() && (#[trigger] services[i]).proxy is Some && (
            #[trigger] services[j]).proxy is Some implies services[i].proxy->0.listen_port
            != services[j].proxy->0.listen_port by {
            lemma_no_port_problem(services, api_port, 0, j);
            assert(!repeats_port(services, j));
        }
    } else {
        let i = lemma_first_port_problem_is_at(services, api_port, 0);
        assert(services[i].proxy is Some);
    }
}

proof fn lemma_first_port_problem_is_at(
    services: Seq<ServiceConfig>,
    api_port: u16,
    from: int,
) -> (i: int)
    requires
        from >= 0,
        first_port_problem(services, api_port, from) is Some,
    ensures
        from <= i < services.len(),
        port_problem(services, api_port, i) == first_port_problem(services, api_port, from),
        forall|j: int| from <= j < i ==> #[trigger] port_problem(services, api_port, j) is None,
    decreases services.len() - from,
{
    if port_problem(services, api_port, from) is Some {
        from
    } else {
        lemma_first_port_problem_is_at(services, api_port, from + 1)
    }
}

/// A refusal names the port of the first proxy that is not in order, and says
/// what is wrong with it: that it is zero, its service's own, that of the API,
/// or that of an earlier proxy.
pub proof fn lemma_port_refusal_in_full(
    services: Seq<ServiceConfig>,
    api_port: u16,
    e: VelaError,
)
    requires
        first_port_problem(services, api_port, 0) is Some,
        is_conflict(e, first_port_problem(services, api_port, 0)->0),
    ensures
        exists|i: int|
            0 <= i < services.len() && (#[trigger] services[i]).proxy is Some && (e matches
                VelaError::ProxyPortConflict { port, reason } && port
                == services[i].proxy->0.listen_port && {
                let own = services[i].port == Some(port) || exists|k: int|
                    0 <= k < services[i].upstreams@.len() && (
                    #[trigger] services[i].upstreams@[k]).port == port;
                if port == 0 {
                    reason@ == "Service '"@ + services[i].id@
                        + "' proxy listen_port 0 is not valid"@
                } else if own {
                    reason@ == "Service '"@ + services[i].id@ + "' proxy listen_port "@
                        + text::decimal(port as nat) + " conflicts with the service's own port"@
                } else if port == api_port {
                    reason@ == "Service '"@ + services[i].id@ + "' proxy listen_port "@
                        + text::decimal(port as nat) + " conflicts with Vela API port"@
                } else {
                    &&& reason@ == "Port "@ + text::decimal(port as nat)
                        + " is used by multiple services or conflicts with the API port"@
                    &&& exists|j: int|
                        0 <= j < i && (#[trigger] services[j]).proxy is Some
                            && services[j].proxy->0.listen_port == port
                }
            }),
{
    let i = lemma_first_port_problem_is_at(services, api_port, 0);
    assert(services[i].proxy is Some);
    if repeats_port(services, i) {
        let j = choose|j: int|
            0 <= j < i && (#[trigger] services[j]).proxy is Some
                && services[j].proxy->0.listen_port == services[i].proxy->0.listen_port;
        assert(services[j].proxy is Some);
    }
}

/// Where the instances of a service are known, a connection is rejected exactly
/// where none of them is healthy, and otherwise forwarded to one that is.
pub proof fn lemma_connection_goes_to_a_healthy_instance(
    state: VelaState,
    binding: ProxyBinding,
    turn: int,
    plan: ConnectionPlan,
)
    requires
        carries_out(plan, chosen(candidates(state, binding), turn)),
        state.inner.upstream_states@.dom().contains(binding.service_id@),
    ensures
        ({
            let upstreams = state.inner.upstream_states@[binding.service_id@]@;
            &&& plan is Reject <==> forall|i: int|
                0 <= i < upstreams.len() ==> (#[trigger] upstreams[i]).status
                    != ServiceStatus::Healthy
            &&& plan matches ConnectionPlan::Forward(to) ==> exists|i: int|
                0 <= i < upstreams.len() && (#[trigger] upstreams[i]).status
                    == ServiceStatus::Healthy && to@ == upstreams[i].host@ + ":"@ + text::decimal(
                    upstreams[i].port as nat,
                )
        }),
{
    let upstreams = state.inner.upstream_states@[binding.service_id@]@;
    if chosen(candidates(state, binding), turn) is Some {
        lemma_only_healthy_are_chosen(upstreams, state, binding, turn);
        let i = choose|i: int|
            0 <= i < upstreams.len() && (#[trigger] upstreams[i]).status == ServiceStatus::Healthy
                && chosen(candidates(state, binding), turn) == Some(
                address(upstreams[i].host@, upstreams[i].port),
            );
        lemma_address_in_full(upstreams[i].host@, upstreams[i].port);
        assert(upstreams[i].status == ServiceStatus::Healthy);
    } else if exists|i: int|
        0 <= i < upstreams.len() && (#[trigger] upstreams[i]).status == ServiceStatus::Healthy {
        let i = choose|i: int|
            0 <= i < upstreams.len() && (#[trigger] upstreams[i]).status == ServiceStatus::Healthy;
        lemma_one_healthy_is_enough(state, binding, turn, i);
    }
}

/// Where nothing is known of the instances of a service, its connections are
/// rejected unless the service is healthy, and then go to the addresses of the
/// binding by turns.
pub proof fn lemma_connection_without_instances(
    state: VelaState,
    binding: ProxyBinding,
    turn: int,
    plan: ConnectionPlan,
)
    requires
        turn >= 0,
        carries_out(plan, chosen(candidates(state, binding), turn)),
        !state.inner.upstream_states@.dom().contains(binding.service_id@),
    ensures
        ({
            let id = binding.service_id@;
            let up = state.inner.services@.dom().contains(id) && state.inner.services@[id].status
                == ServiceStatus::Healthy;
            let n = binding.upstream_addrs@.len();
            &&& plan is Reject <==> !up || n == 0
            &&& plan matches ConnectionPlan::Forward(to) ==> to@
                == binding.upstream_addrs@[turn % n as int]@
        }),
{
    assert(views(binding.upstream_addrs@).len() == binding.upstream_addrs@.len());
}

proof fn lemma_fewer_healthy(upstreams: Seq<UpstreamState>)
    ensures
        state::healthy_addresses(upstreams).len() <= upstreams.len(),
    decreases upstreams.len(),
{
    if upstreams.len() > 0 {
        lemma_fewer_healthy(upstreams.drop_last());
    }
}

/// Connections take turns: in as many turns in a row as a service has instances,
/// each of its healthy instances gets a connection.
pub proof fn lemma_connections_take_turns(
    state: VelaState,
    binding: ProxyBinding,
    i: int,
    first_turn: int,
) -> (turn: int)
    requires
        first_turn >= 0,
        state.inner.upstream_states@.dom().contains(binding.service_id@),
        0 <= i < state.inner.upstream_states@[binding.service_id@]@.len(),
        state.inner.upstream_states@[binding.service_id@]@[i].status == ServiceStatus::Healthy,
    ensures
        first_turn <= turn < first_turn
            + state.inner.upstream_states@[binding.service_id@]@.len(),
        forall|plan: ConnectionPlan| #[trigger]
            carries_out(plan, chosen(candidates(state, binding), turn)) ==> (plan matches
                ConnectionPlan::Forward(to) && to@
                == state.inner.upstream_states@[binding.service_id@]@[i].host@ + ":"@
                + text::decimal(
                state.inner.upstream_states@[binding.service_id@]@[i].port as nat,
            )),
{
    let upstreams = state.inner.upstream_states@[binding.service_id@]@;
    lemma_healthy_upstream_is_in_rotation(state, binding, i, first_turn);
    lemma_fewer_healthy(upstreams);
    let target = address(upstreams[i].host@, upstreams[i].port);
    let turn = choose|turn: int|
        first_turn <= turn < first_turn + candidates(state, binding).len() && #[trigger] chosen(
            candidates(state, binding),
            turn,
        ) == Some(target);
    lemma_address_in_full(upstreams[i].host@, upstreams[i].port);
    turn
}

/// A service is healthy for the proxy exactly where the store says so.
pub proof fn lemma_health_of_a_service(state: VelaState, service_id: Seq<char>)
    ensures
        service_is_healthy(state, service_id) <==> (state.inner.services@.dom().contains(service_id)
            && state.inner.services@[service_id].status == ServiceStatus::Healthy),
{
}

/// What a listener does, event by event: it serves a client while it has room
/// and was not told to stop, and the next client has the next turn; it counts
/// the connections that are open; and it ends when it was told to stop and none
/// is.
pub proof fn lemma_listener_in_full(state: ListenerState, event: ListenerEvent)
    requires
        event == ListenerEvent::Finished ==> state.active > 0,
        state.active <= 1024,
    ensures
        ({
            let after = listener_after(state, event);
            let action = listener_action(state, event);
            match event {
                ListenerEvent::Accepted => if !state.draining && state.active < 1024 {
                    &&& action == ListenerAction::Serve(state.turn)
                    &&& after.active == state.active + 1
                    &&& after.turn != state.turn
                    &&& state.turn < usize::MAX ==> after.turn == state.turn + 1
                    &&& !after.draining
                } else {
                    action == ListenerAction::TurnAway && after == state
                },
                ListenerEvent::Finished => {
                    &&& after.active == state.active - 1
                    &&& after.turn == state.turn
                    &&& after.draining == state.draining
                    &&& action == (if state.draining && state.active == 1 {
                        ListenerAction::Stop
                    } else {
                        ListenerAction::Resume
                    })
                },
                ListenerEvent::AcceptFailed => {
                    &&& after == state
                    &&& !state.draining ==> action == ListenerAction::Resume
                },
                ListenerEvent::ShutDown => {
                    &&& after.draining
                    &&& after.active == state.active
                    &&& after.turn == state.turn
                    &&& action == (if state.active == 0 {
                        ListenerAction::Stop
                    } else {
                        ListenerAction::Resume
                    })
                },
            }
        }),
{
}

/// Whether the proxy of the service at `j`, if it has one, can have its port: no
/// other part of the service, no earlier proxy and not the API has it.
pub open spec fn has_its_own_port(services: Seq<ServiceConfig>, j: int, api_port: u16) -> bool {
    services[j].proxy matches Some(own) ==> {
        &&& own.listen_port != 0
        &&& own.listen_port != api_port
        &&& services[j].port != Some(own.listen_port)
        &&& forall|k: int|
            0 <= k < services[j].upstreams@.len() ==> (
            #[trigger] services[j].upstreams@[k]).port != own.listen_port
        &&& forall|l: int|
            0 <= l < j && (#[trigger] services[l]).proxy is Some
                ==> services[l].proxy->0.listen_port != own.listen_port
    }
}

proof fn lemma_problem_after_good_ports(
    services: Seq<ServiceConfig>,
    api_port: u16,
    from: int,
    i: int,
)
    requires
        0 <= from <= i < services.len(),
        forall|j: int| from <= j < i ==> #[trigger] has_its_own_port(services, j, api_port),
        port_problem(services, api_port, i) is Some,
    ensures
        first_port_problem(services, api_port, from) == port_problem(services, api_port, i),
    decreases i - from,
{
    if from < i {
        assert(has_its_own_port(services, from, api_port));
        lemma_problem_after_good_ports(services, api_port, from + 1, i);
    }
}

/// A refusal tells of the first proxy that cannot have its port, and of that the
/// first reason: that the port is zero, its service's own, that of the API, or that
/// of an earlier proxy.
pub proof fn lemma_first_conflict_is_told(
    config: &VelaConfig,
    result: Result<(), VelaError>,
    i: int,
)
    requires
        call_ensures(validate_proxy_config, (config,), result),
        0 <= i < config.services@.len(),
        forall|j: int|
            0 <= j < i ==> #[trigger] has_its_own_port(
                config.services@,
                j,
                config.global.api_port,
            ),
        !has_its_own_port(config.services@, i, config.global.api_port),
    ensures
        ({
            let svc = config.services@[i];
            let port = svc.proxy->0.listen_port;
            let number = text::decimal(port as nat);
            let own = svc.port == Some(port) || exists|k: int|
                0 <= k < svc.upstreams@.len() && (#[trigger] svc.upstreams@[k]).port == port;
            result matches Err(VelaError::ProxyPortConflict { port: named, reason }) && named
                == port && reason@ == (if port == 0 {
                "Service '"@ + svc.id@ + "' proxy listen_port 0 is not valid"@
            } else if own {
                "Service '"@ + svc.id@ + "' proxy listen_port "@ + number
                    + " conflicts with the service's own port"@
            } else if port == config.global.api_port {
                "Service '"@ + svc.id@ + "' proxy listen_port "@ + number
                    + " conflicts with Vela API port"@
            } else {
                "Port "@ + number
                    + " is used by multiple services or conflicts with the API port"@
            })
        }),
{
    let services = config.services@;
    let api_port = config.global.api_port;
    let svc = services[i];
    let port = svc.proxy->0.listen_port;
    if port != 0 && !owns_port(svc, port) && port != api_port {
        let l = choose|l: int|
            0 <= l < i && (#[trigger] services[l]).proxy is Some
                && services[l].proxy->0.listen_port == port;
        assert(services[l].proxy is Some);
        assert(repeats_port(services, i));
    }
    lemma_problem_after_good_ports(services, api_port, 0, i);
}

} // verus!
