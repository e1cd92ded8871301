//! The one error type of the project.

use vstd::prelude::*;
use vstd::string::*;

use crate::text;

verus! {

/// What can go wrong in any of the engines.
#[derive(Debug)]
pub enum VelaError {
    /// The configuration file could not be read or parsed.
    ConfigParse(String),
    /// A required configuration field is missing or invalid.
    ConfigValidation(String),
    /// A TCP or HTTP health check failed.
    HealthCheckFailed { service_id: String, reason: String },
    /// A health check got no response in time.
    HealthCheckTimeout { service_id: String, timeout_ms: u64 },
    /// A service process could not be spawned or managed.
    ProcessError(String),
    /// The restarts allowed for a service were used up and it did not recover.
    MaxRestartsExceeded { service_id: String, attempts: u32 },
    /// A restart command did not complete in time.
    RestartTimeout { service_id: String, timeout_secs: u64 },
    /// An alert could not be delivered.
    AlertDeliveryFailed { kind: String, reason: String },
    /// A webhook URL failed validation, so no delivery was attempted.
    InsecureWebhookUrl { url: String },
    /// The reverse proxy could not forward a request.
    ProxyError(String),
    /// The port of a proxy is already taken.
    ProxyPortConflict { port: u16, reason: String },
    /// A proxy could not listen on its port.
    ProxyBindError { port: u16, reason: String },
    /// The API engine could not handle a request.
    ApiError(String),
    /// An operation on the shared state store failed.
    StateError(String),
    /// An I/O error, in the words of the operating system.
    Io(String),
    /// An error of the HTTP client, in its own words.
    Http(String),
}

/// Whether a character is one that the scheme of a URL may hold: a letter of
/// ASCII, a digit, a plus sign, a hyphen or a dot.
pub open spec fn in_scheme(c: char) -> bool {
    'a' <= c <= 'z' || 'A' <= c <= 'Z' || '0' <= c <= '9' || c == '+' || c == '-' || c == '.'
}

/// Whether a text can be the scheme of a URL.
pub open spec fn is_scheme(s: Seq<char>) -> bool {
    s.len() > 0 && forall|i: int| 0 <= i < s.len() ==> in_scheme(#[trigger] s[i])
}

/// Whether the host of a URL ends before this character. A backslash counts as
/// a slash there.
pub open spec fn ends_host(c: char) -> bool {
    c == '/' || c == '?' || c == '#' || c == '\\'
}

/// What stands before the path, the query and the fragment of a URL without its
/// scheme.
pub open spec fn authority(s: Seq<char>) -> Seq<char>
    decreases s.len(),
{
    if s.len() == 0 || ends_host(s[0]) {
        Seq::empty()
    } else {
        seq![s[0]] + authority(s.drop_first())
    }
}

/// A host without the port after it. A host in brackets, which may hold colons,
/// ends with its closing bracket; any other host ends before the first colon.
pub open spec fn without_port(s: Seq<char>) -> Seq<char> {
    let inside = text::before(s, ']');
    if s.len() > 0 && s[0] == '[' && inside.len() < s.len() {
        inside.push(']')
    } else {
        text::before(s, ':')
    }
}

/// What is shown of a URL: its scheme and its host, with neither a user, a
/// password nor a port. Of a text without scheme and host nothing is shown.
pub open spec fn origin(url: Seq<char>) -> Seq<char> {
    let scheme = text::before(url, ':');
    let rest = url.skip(scheme.len() as int);
    if is_scheme(scheme) && "://"@.is_prefix_of(rest) {
        scheme + "://"@ + without_port(text::after_last(authority(rest.skip(3)), '@'))
    } else {
        "(url hidden)"@
    }
}

impl VelaError {
    /// The message for a person who reads the error. Of a webhook URL only the
    /// scheme and the host are shown: the rest may hold credentials.
    pub open spec fn message(&self) -> Seq<char> {
        match self {
            VelaError::ConfigParse(msg) => "Config parse error: "@ + msg@,
            VelaError::ConfigValidation(msg) => "Config validation error: "@ + msg@,
            VelaError::HealthCheckFailed { service_id, reason } => "Health check failed for '"@
                + service_id@ + "': "@ + reason@,
            VelaError::HealthCheckTimeout { service_id, timeout_ms } =>
                "Health check timed out for '"@ + service_id@ + "' after "@ + text::decimal(
                *timeout_ms as nat,
            ) + "ms"@,
            VelaError::ProcessError(msg) => "Process error: "@ + msg@,
            VelaError::MaxRestartsExceeded { service_id, attempts } => "Service '"@ + service_id@
                + "' exceeded max restarts ("@ + text::decimal(*attempts as nat)
                + " attempts) — manual intervention required"@,
            VelaError::RestartTimeout { service_id, timeout_secs } => "Restart command for '"@
                + service_id@ + "' timed out after "@ + text::decimal(*timeout_secs as nat)
                + "s"@,
            VelaError::AlertDeliveryFailed { kind, reason } => "Alert delivery failed ["@ + kind@
                + "]: "@ + reason@,
            VelaError::InsecureWebhookUrl { url } => "Webhook URL failed security validation: "@
                + origin(url@),
            VelaError::ProxyError(msg) => "Proxy error: "@ + msg@,
            VelaError::ProxyPortConflict { port, reason } => "Proxy port conflict on port "@
                + text::decimal(*port as nat) + ": "@ + reason@,
            VelaError::ProxyBindError { port, reason } => "Proxy failed to bind port "@
                + text::decimal(*port as nat) + ": "@ + reason@,
            VelaError::ApiError(msg) => "API error: "@ + msg@,
            VelaError::StateError(msg) => "State error: "@ + msg@,
            VelaError::Io(msg) => "IO error: "@ + msg@,
            VelaError::Http(msg) => "HTTP error: "@ + msg@,
        }
    }

    /// Writes the error out for a person.
    pub fn to_text(&self) -> (result: String)
        ensures
            result@ == self.message(),
    {
        match self {
            VelaError::ConfigParse(msg) => String::from_str("Config parse error: ").concat(
                msg.as_str(),
            ),
            VelaError::ConfigValidation(msg) => String::from_str(
                "Config validation error: ",
            ).concat(msg.as_str()),
            VelaError::HealthCheckFailed { service_id, reason } => String::from_str(
                "Health check failed for '",
            ).concat(service_id.as_str()).concat("': ").concat(reason.as_str()),
            VelaError::HealthCheckTimeout { service_id, timeout_ms } => String::from_str(
                "Health check timed out for '",
            ).concat(service_id.as_str()).concat("' after ").concat(
                text::decimal_text(*timeout_ms).as_str(),
            ).concat("ms"),
            VelaError::ProcessError(msg) => String::from_str("Process error: ").concat(
                msg.as_str(),
            ),
            VelaError::MaxRestartsExceeded { service_id, attempts } => String::from_str(
                "Service '",
            ).concat(service_id.as_str()).concat("' exceeded max restarts (").concat(
                text::decimal_text(*attempts as u64).as_str(),
            ).concat(" attempts) — manual intervention required"),
            VelaError::RestartTimeout { service_id, timeout_secs } => String::from_str(
                "Restart command for '",
            ).concat(service_id.as_str()).concat("' timed out after ").concat(
                text::decimal_text(*timeout_secs).as_str(),
            ).concat("s"),
            VelaError::AlertDeliveryFailed { kind, reason } => String::from_str(
                "Alert delivery failed [",
            ).concat(kind.as_str()).concat("]: ").concat(reason.as_str()),
            VelaError::InsecureWebhookUrl { url } => String::from_str(
                "Webhook URL failed security validation: ",
            ).concat(origin_text(url.as_str()).as_str()),
            VelaError::ProxyError(msg) => String::from_str("Proxy error: ").concat(msg.as_str()),
            VelaError::ProxyPortConflict { port, reason } => String::from_str(
                "Proxy port conflict on port ",
            ).concat(text::decimal_text(*port as u64).as_str()).concat(": ").concat(
                reason.as_str(),
            ),
            VelaError::ProxyBindError { port, reason } => String::from_str(
                "Proxy failed to bind port ",
            ).concat(text::decimal_text(*port as u64).as_str()).concat(": ").concat(
                reason.as_str(),
            ),
            VelaError::ApiError(msg) => String::from_str("API error: ").concat(msg.as_str()),
            VelaError::StateError(msg) => String::from_str("State error: ").concat(msg.as_str()),
            VelaError::Io(msg) => String::from_str("IO error: ").concat(msg.as_str()),
            VelaError::Http(msg) => String::from_str("HTTP error: ").concat(msg.as_str()),
        }
    }
}

/// Whether `e` says that the configuration is invalid, in these words.
pub open spec fn is_config_error(e: VelaError, words: Seq<char>) -> bool {
    e matches VelaError::ConfigValidation(msg) && msg@ == words
}

/// Whether `e` says that the state store refused an operation, in these words.
pub open spec fn is_state_error(e: VelaError, words: Seq<char>) -> bool {
    e matches VelaError::StateError(msg) && msg@ == words
}

proof fn lemma_authority_take(s: Seq<char>, n: int)
    requires
        0 <= n <= s.len(),
        forall|j: int| 0 <= j < n ==> !ends_host(#[trigger] s[j]),
        n == s.len() || ends_host(s[n]),
    ensures
        authority(s) == s.take(n),
    decreases n,
{
    if n > 0 {
        let rest = s.drop_first();
        assert(!ends_host(s[0]));
        assert forall|j: int| 0 <= j < n - 1 implies !ends_host(#[trigger] rest[j]) by {
            assert(rest[j] == s[j + 1]);
        }
        assert(n < s.len() ==> rest[n - 1] == s[n]);
        lemma_authority_take(rest, n - 1);
        assert(authority(s) =~= s.take(n));
    } else {
        assert(s.take(0) =~= Seq::<char>::empty());
    }
}

fn authority_part(s: &str) -> (part: &str)
    ensures
        part@ == authority(s@),
{
    let chars = text::characters(s);
    let mut n: usize = 0;
    while n < chars.len() && chars[n] != '/' && chars[n] != '?' && chars[n] != '#' && chars[n]
        != '\\'
        invariant
            n <= chars@.len(),
            forall|j: int| 0 <= j < n ==> !ends_host(#[trigger] chars@[j]),
        decreases chars.len() - n,
    {
        n = n + 1;
    }
    proof {
        lemma_authority_take(s@, n as int);
    }
    s.substring_char(0, n)
}

fn can_be_scheme(s: &str) -> (result: bool)
    ensures
        result == is_scheme(s@),
{
    let chars = text::characters(s);
    let mut i: usize = 0;
    while i < chars.len()
        invariant
            i <= chars@.len(),
            chars@ == s@,
            forall|j: int| 0 <= j < i ==> in_scheme(#[trigger] chars@[j]),
        decreases chars.len() - i,
    {
        let c = chars[i];
        if !(('a' <= c && c <= 'z') || ('A' <= c && c <= 'Z') || ('0' <= c && c <= '9') || c == '+'
            || c == '-' || c == '.') {
            assert(!in_scheme(s@[i as int]));
            return false;
        }
        i = i + 1;
    }
    chars.len() > 0
}

fn host_part(s: &str) -> (part: &str)
    ensures
        part@ == without_port(s@),
{
    proof {
        text::lemma_before_is_prefix(s@, ']');
    }
    let n: usize = text::part_before(s, ']').unicode_len();
    let total: usize = s.unicode_len();
    if total > 0 && s.get_char(0) == '[' && n < total {
        proof {
            text::lemma_before_ends_at(s@, ']');
            assert(s@.take(n + 1) =~= s@.take(n as int).push(']'));
        }
        s.substring_char(0, n + 1)
    } else {
        text::part_before(s, ':')
    }
}

/// The scheme and the host of a URL.
pub fn origin_text(url: &str) -> (shown: String)
    ensures
        shown@ == origin(url@),
{
    let scheme = text::part_before(url, ':');
    let n: usize = scheme.unicode_len();
    let total: usize = url.unicode_len();
    proof {
        text::lemma_before_is_prefix(url@, ':');
        reveal_strlit("://");
    }
    if !can_be_scheme(scheme) || total - n < 3 {
        return String::from_str("(url hidden)");
    }
    let separator = url.substring_char(n, n + 3);
    assert(separator@ =~= url@.skip(n as int).subrange(0, 3));
    if !text::same(separator, "://") {
        return String::from_str("(url hidden)");
    }
    let rest = url.substring_char(n + 3, total);
    assert(rest@ =~= url@.skip(n as int).skip(3));
    let host = host_part(text::part_after_last(authority_part(rest), '@'));
    scheme.to_owned().concat("://").concat(host)
}

/// Whether a text can be the host of a URL: it has brackets around it, or holds
/// no colon.
pub open spec fn is_host(host: Seq<char>) -> bool {
    &&& forall|i: int| 0 <= i < host.len() ==> !ends_host(#[trigger] host[i]) && host[i] != '@'
    &&& if host.len() > 0 && host[0] == '[' {
        &&& host.last() == ']'
        &&& forall|i: int| 0 <= i < host.len() - 1 ==> #[trigger] host[i] != ']'
    } else {
        forall|i: int| 0 <= i < host.len() ==> #[trigger] host[i] != ':'
    }
}

/// Whether a URL is made of this scheme, a user or nothing, this host, a port or
/// nothing, and a path, a query, a fragment or nothing.
pub open spec fn is_made_of(
    url: Seq<char>,
    scheme: Seq<char>,
    user: Seq<char>,
    host: Seq<char>,
    port: Seq<char>,
    tail: Seq<char>,
) -> bool {
    &&& url == scheme + "://"@ + (user + host + port) + tail
    &&& is_scheme(scheme)
    &&& user.len() == 0 || user.last() == '@'
    &&& forall|i: int| 0 <= i < user.len() ==> !ends_host(#[trigger] user[i])
    &&& is_host(host)
    &&& port.len() == 0 || port[0] == ':'
    &&& forall|i: int| 0 <= i < port.len() ==> !ends_host(#[trigger] port[i]) && port[i] != '@'
    &&& tail.len() == 0 || ends_host(tail[0])
}

/// Of a webhook URL the message shows the scheme and the host only: two URLs
/// with the same scheme and host get the same message, whatever users, ports,
/// paths and queries they have.
pub proof fn lemma_only_scheme_and_host_are_shown(
    url: String,
    user: Seq<char>,
    port: Seq<char>,
    tail: Seq<char>,
    other: String,
    other_user: Seq<char>,
    other_port: Seq<char>,
    other_tail: Seq<char>,
    scheme: Seq<char>,
    host: Seq<char>,
)
    requires
        is_made_of(url@, scheme, user, host, port, tail),
        is_made_of(other@, scheme, other_user, host, other_port, other_tail),
    ensures
        (VelaError::InsecureWebhookUrl { url }).message()
            == "Webhook URL failed security validation: "@ + (scheme + "://"@ + host),
        (VelaError::InsecureWebhookUrl { url: other }).message() == (
        VelaError::InsecureWebhookUrl { url }).message(),
{
    lemma_origin_of(url@, scheme, user, host, port, tail);
    lemma_origin_of(other@, scheme, other_user, host, other_port, other_tail);
}

/// What is shown of a URL is its scheme and its host.
pub proof fn lemma_origin_of(
    url: Seq<char>,
    scheme: Seq<char>,
    user: Seq<char>,
    host: Seq<char>,
    port: Seq<char>,
    tail: Seq<char>,
)
    requires
        is_made_of(url, scheme, user, host, port, tail),
    ensures
        origin(url) == scheme + "://"@ + host,
{
    reveal_strlit("://");
    let place = host + port;
    let rest = user + place + tail;
    assert(url =~= scheme + seq![':'] + (seq!['/', '/'] + rest));
    assert forall|i: int| 0 <= i < scheme.len() implies #[trigger] scheme[i] != ':' by {
        assert(in_scheme(scheme[i]));
    }
    text::lemma_before_of(scheme, ':', seq!['/', '/'] + rest);
    let after = url.skip(scheme.len() as int);
    assert(after.subrange(0, 3) =~= "://"@);
    assert(after.skip(3) =~= rest);
    let n = (user.len() + place.len()) as int;
    assert forall|j: int| 0 <= j < n implies !ends_host(#[trigger] rest[j]) by {
        if j < user.len() {
            assert(rest[j] == user[j]);
        } else if j < user.len() + host.len() {
            assert(rest[j] == host[j - user.len()]);
        } else {
            assert(rest[j] == port[j - user.len() - host.len()]);
        }
    }
    assert(n < rest.len() ==> rest[n] == tail[0]);
    lemma_authority_take(rest, n);
    assert(rest.take(n) =~= user + place);
    assert forall|i: int| 0 <= i < place.len() implies #[trigger] place[i] != '@' by {
        if i < host.len() {
            assert(place[i] == host[i]);
        } else {
            assert(place[i] == port[i - host.len()]);
        }
    }
    if user.len() == 0 {
        assert(user + place =~= place);
        text::lemma_after_last_without(place, '@');
    } else {
        assert(user + place =~= user.drop_last() + seq!['@'] + place);
        text::lemma_after_last_of(user.drop_last(), '@', place);
    }
    lemma_host_of(host, port);
}

proof fn lemma_host_of(host: Seq<char>, port: Seq<char>)
    requires
        is_host(host),
        port.len() == 0 || port[0] == ':',
    ensures
        without_port(host + port) == host,
{
    let place = host + port;
    if host.len() > 0 && host[0] == '[' {
        let inside = host.drop_last();
        assert forall|i: int| 0 <= i < inside.len() implies #[trigger] inside[i] != ']' by {
            assert(inside[i] == host[i]);
        }
        assert(place =~= inside + seq![']'] + port);
        text::lemma_before_of(inside, ']', port);
        assert(inside.push(']') =~= host);
    } else {
        if port.len() == 0 {
            assert(place =~= host);
            text::lemma_before_without(host, ':');
        } else {
            assert(place =~= host + seq![':'] + port.drop_first());
            text::lemma_before_of(host, ':', port.drop_first());
        }
        if host.len() > 0 {
            assert(place[0] == host[0]);
        }
    }
}

/// The message of an error holds what the error holds, in these words.
pub proof fn lemma_messages_in_full(e: VelaError)
    ensures
        e matches VelaError::ConfigParse(m) ==> e.message() == "Config parse error: "@ + m@,
        e matches VelaError::ConfigValidation(m) ==> e.message() == "Config validation error: "@
            + m@,
        e matches VelaError::HealthCheckFailed { service_id, reason } ==> e.message()
            == "Health check failed for '"@ + service_id@ + "': "@ + reason@,
        e matches VelaError::HealthCheckTimeout { service_id, timeout_ms } ==> e.message()
            == "Health check timed out for '"@ + service_id@ + "' after "@ + text::decimal(
            timeout_ms as nat,
        ) + "ms"@,
        e matches VelaError::ProcessError(m) ==> e.message() == "Process error: "@ + m@,
        e matches VelaError::MaxRestartsExceeded { service_id, attempts } ==> e.message()
            == "Service '"@ + service_id@ + "' exceeded max restarts ("@ + text::decimal(
            attempts as nat,
        ) + " attempts) — manual intervention required"@,
        e matches VelaError::RestartTimeout { service_id, timeout_secs } ==> e.message()
            == "Restart command for '"@ + service_id@ + "' timed out after "@ + text::decimal(
            timeout_secs as nat,
        ) + "s"@,
        e matches VelaError::AlertDeliveryFailed { kind, reason } ==> e.message()
            == "Alert delivery failed ["@ + kind@ + "]: "@ + reason@,
        e matches VelaError::ProxyError(m) ==> e.message() == "Proxy error: "@ + m@,
        e matches VelaError::ProxyPortConflict { port, reason } ==> e.message()
            == "Proxy port conflict on port "@ + text::decimal(port as nat) + ": "@ + reason@,
        e matches VelaError::ProxyBindError { port, reason } ==> e.message()
            == "Proxy failed to bind port "@ + text::decimal(port as nat) + ": "@ + reason@,
        e matches VelaError::ApiError(m) ==> e.message() == "API error: "@ + m@,
        e matches VelaError::StateError(m) ==> e.message() == "State error: "@ + m@,
        e matches VelaError::Io(m) ==> e.message() == "IO error: "@ + m@,
        e matches VelaError::Http(m) ==> e.message() == "HTTP error: "@ + m@,
{
}

/// Of a text that does not begin with a scheme and two slashes nothing is shown.
pub proof fn lemma_texts_without_scheme_are_hidden(url: Seq<char>)
    requires
        forall|i: int| 0 <= i <= url.len() - 3 ==> #[trigger] url.subrange(i, i + 3) != "://"@,
    ensures
        origin(url) == "(url hidden)"@,
{
    reveal_strlit("://");
    text::lemma_before_is_prefix(url, ':');
    let n = text::before(url, ':').len() as int;
    if "://"@.is_prefix_of(url.skip(n)) {
        assert(url.skip(n).subrange(0, 3) =~= url.subrange(n, n + 3));
    }
}

} // verus!
