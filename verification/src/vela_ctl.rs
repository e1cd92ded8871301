//! The command-line client: what to ask the API for, what to make of its
//! answers, and how to lay them out in a terminal.
//!
//! Output is a list of lines, and a line a list of spans of text that each
//! have one style. Text is padded before it is coloured, so that the columns
//! stay aligned whether the terminal shows colours or not.

use vstd::prelude::*;
use vstd::string::*;

use crate::clock;
use crate::clock::Timestamp;
use crate::health;
use crate::sorting;
use crate::sorting::Keyed;
use crate::text;
use crate::unicode;

verus! {

/// Where the API is asked where nothing else is said.
pub const DEFAULT_URL: &'static str = "http://127.0.0.1:7700";

/// The most health checks that are shown.
pub const SHOWN_CHECKS: usize = 15;

/// The most alerts that are shown.
pub const SHOWN_ALERTS: usize = 10;

/// The most restart attempts that are shown.
pub const SHOWN_RESTARTS: usize = 10;

// ---------------------------------------------------------------------------
// Text with styles.
// ---------------------------------------------------------------------------

/// How a piece of text looks.
#[derive(Debug, Clone, Copy, PartialEq, Eq, Structural)]
pub enum Style {
    Plain,
    Green,
    Yellow,
    Red,
    Grey,
    Bold,
    RedBold,
}

/// A piece of text that looks the same throughout.
#[derive(Debug)]
pub struct Span {
    pub style: Style,
    pub text: String,
}

/// A line of text. Its view is the styles and the characters of its spans.
#[derive(Debug)]
pub struct Line {
    pub spans: Vec<Span>,
}

/// The styles and the characters of spans.
pub open spec fn span_views(spans: Seq<Span>) -> Seq<(Style, Seq<char>)> {
    spans.map_values(|s: Span| (s.style, s.text@))
}

impl View for Line {
    type V = Seq<(Style, Seq<char>)>;

    open spec fn view(&self) -> Seq<(Style, Seq<char>)> {
        span_views(self.spans@)
    }
}

/// The views of lines.
pub open spec fn line_views(lines: Seq<Line>) -> Seq<Seq<(Style, Seq<char>)>> {
    lines.map_values(|l: Line| l@)
}

/// The characters of a line, whatever their style.
pub open spec fn plain_text(line: Seq<(Style, Seq<char>)>) -> Seq<char>
    decreases line.len(),
{
    if line.len() == 0 {
        Seq::empty()
    } else {
        plain_text(line.drop_last()) + line.last().1
    }
}

/// What switches the terminal to a style, if anything does: the parameters of
/// the escape sequence.
pub open spec fn style_code(style: Style) -> Option<Seq<char>> {
    match style {
        Style::Plain => None,
        Style::Green => Some("32"@),
        Style::Yellow => Some("33"@),
        Style::Red => Some("31"@),
        Style::Grey => Some("90"@),
        Style::Bold => Some("1"@),
        Style::RedBold => Some("1;31"@),
    }
}

/// The parameters of the escape sequence for a colour by its name.
pub open spec fn color_code(color: Seq<char>) -> Option<Seq<char>> {
    if color == "green"@ {
        Some("32"@)
    } else if color == "yellow"@ {
        Some("33"@)
    } else if color == "red"@ {
        Some("31"@)
    } else if color == "bright black"@ {
        Some("90"@)
    } else {
        None
    }
}

/// The escape sequence with these parameters.
pub open spec fn escape(code: Seq<char>) -> Seq<char> {
    "\x1B["@ + code + "m"@
}

/// `text` with the escape sequence `start` put after every sequence in it that
/// ends a style, so that the style goes on after a styled piece of text.
pub open spec fn resumed(text: Seq<char>, start: Seq<char>) -> Seq<char>
    decreases text.len(),
{
    let reset = escape("0"@);
    if text.len() == 0 {
        text
    } else if reset.len() > 0 && reset.is_prefix_of(text) {
        reset + start + resumed(text.skip(reset.len() as int), start)
    } else {
        seq![text[0]] + resumed(text.drop_first(), start)
    }
}

/// Whether `out` is `text`, either as it is or in the style with these
/// parameters, which ends with it.
pub open spec fn is_dressed(out: Seq<char>, code: Seq<char>, text: Seq<char>) -> bool {
    out == text || out == escape(code) + resumed(text, escape(code)) + escape("0"@)
}

/// Calls `colored::Colorize::color` with the name of a colour and writes the
/// result out. Whether there are escape sequences depends on the terminal and
/// the environment.
#[verifier::external_body]
fn paint(text: &str, color: &str) -> (result: String)
    requires
        color_code(color@) is Some,
    ensures
        is_dressed(result@, color_code(color@)->0, text@),
{
    colored::Colorize::color(text, color).to_string()
}

/// Calls `colored::Colorize::bold` and writes the result out. Whether there
/// are escape sequences depends on the terminal and the environment.
#[verifier::external_body]
fn embolden(text: &str) -> (result: String)
    ensures
        is_dressed(result@, "1"@, text@),
{
    colored::Colorize::bold(text).to_string()
}

/// Calls `colored::Colorize::red` and `bold` and writes the result out.
/// Whether there are escape sequences depends on the terminal and the
/// environment.
#[verifier::external_body]
fn paint_red_bold(text: &str) -> (result: String)
    ensures
        is_dressed(result@, "1;31"@, text@),
{
    colored::Colorize::bold(colored::Colorize::red(text)).to_string()
}

/// Whether `out` shows `text` in this style.
pub open spec fn is_painted(out: Seq<char>, style: Style, text: Seq<char>) -> bool {
    match style_code(style) {
        None => out == text,
        Some(code) => is_dressed(out, code, text),
    }
}

/// The pieces one after the other.
pub open spec fn joined(pieces: Seq<Seq<char>>) -> Seq<char>
    decreases pieces.len(),
{
    if pieces.len() == 0 {
        Seq::empty()
    } else {
        joined(pieces.drop_last()) + pieces.last()
    }
}

/// Whether each piece shows the span at its position.
pub open spec fn are_painted(pieces: Seq<Seq<char>>, line: Seq<(Style, Seq<char>)>) -> bool {
    &&& pieces.len() == line.len()
    &&& forall|i: int|
        0 <= i < line.len() ==> is_painted(#[trigger] pieces[i], line[i].0, line[i].1)
}

/// Whether `out` shows a line: the spans of the line one after the other, each
/// in its style.
pub open spec fn is_rendered(out: Seq<char>, line: Seq<(Style, Seq<char>)>) -> bool {
    exists|pieces: Seq<Seq<char>>| #[trigger] are_painted(pieces, line) && out == joined(pieces)
}

fn paint_span(span: &Span) -> (result: String)
    ensures
        is_painted(result@, span.style, span.text@),
{
    proof {
        reveal_strlit("green");
        reveal_strlit("yellow");
        reveal_strlit("red");
        reveal_strlit("bright black");
        assert("green"@.len() == 5);
        assert("yellow"@.len() == 6);
        assert("red"@.len() == 3);
        assert("bright black"@.len() == 12);
    }
    let text = span.text.as_str();
    match span.style {
        Style::Plain => span.text.clone(),
        Style::Green => paint(text, "green"),
        Style::Yellow => paint(text, "yellow"),
        Style::Red => paint(text, "red"),
        Style::Grey => paint(text, "bright black"),
        Style::Bold => embolden(text),
        Style::RedBold => paint_red_bold(text),
    }
}

/// Writes a line out for the terminal.
pub fn render(line: &Line) -> (result: String)
    ensures
        is_rendered(result@, line@),
{
    let mut result = String::new();
    let ghost mut pieces: Seq<Seq<char>> = Seq::empty();
    let mut i: usize = 0;
    while i < line.spans.len()
        invariant
            i <= line.spans@.len(),
            are_painted(pieces, line@.take(i as int)),
            result@ == joined(pieces),
        decreases line.spans.len() - i,
    {
        let piece = paint_span(&line.spans[i]);
        result.append(piece.as_str());
        proof {
            let longer = pieces.push(piece@);
            assert(longer.drop_last() =~= pieces);
            assert forall|j: int| 0 <= j < i + 1 implies is_painted(
                #[trigger] longer[j],
                line@.take(i + 1)[j].0,
                line@.take(i + 1)[j].1,
            ) by {
                if j < i {
                    assert(is_painted(
                        pieces[j],
                        line@.take(i as int)[j].0,
                        line@.take(i as int)[j].1,
                    ));
                }
            }
            pieces = longer;
        }
        i = i + 1;
    }
    assert(line@.take(i as int) =~= line@);
    result
}

fn span(style: Style, text: String) -> (result: Span)
    ensures
        result.style == style,
        result.text == text,
{
    Span { style, text }
}

fn plain_line(text: String) -> (line: Line)
    ensures
        line@ == seq![(Style::Plain, text@)],
{
    let mut spans: Vec<Span> = Vec::new();
    spans.push(span(Style::Plain, text));
    let line = Line { spans };
    assert(line@ =~= seq![(Style::Plain, text@)]);
    line
}

fn line_of_two(first: Span, second: Span) -> (line: Line)
    ensures
        line@ == seq![(first.style, first.text@), (second.style, second.text@)],
{
    let mut spans: Vec<Span> = Vec::new();
    spans.push(first);
    spans.push(second);
    let line = Line { spans };
    assert(line@ =~= seq![(first.style, first.text@), (second.style, second.text@)]);
    line
}

fn line_of_three(first: Span, second: Span, third: Span) -> (line: Line)
    ensures
        line@ == seq![
            (first.style, first.text@),
            (second.style, second.text@),
            (third.style, third.text@),
        ],
{
    let mut spans: Vec<Span> = Vec::new();
    spans.push(first);
    spans.push(second);
    spans.push(third);
    let line = Line { spans };
    assert(line@ =~= seq![
        (first.style, first.text@),
        (second.style, second.text@),
        (third.style, third.text@),
    ]);
    line
}

/// Text in one style, padded to a width first.
pub open spec fn colored_column(text: Seq<char>, width: nat, style: Style) -> (Style, Seq<char>) {
    (style, text::padded(text, width))
}

/// Pads text to a width in characters, then gives it a style.
pub fn pad_then_color(text: &str, width: usize, style: Style) -> (result: Span)
    ensures
        (result.style, result.text@) == colored_column(text@, width as nat, style),
{
    span(style, text::pad_right(text, width))
}

/// A horizontal rule of this length.
pub open spec fn rule(n: nat) -> Seq<(Style, Seq<char>)> {
    seq![(Style::Plain, text::repeated('─', n))]
}

fn rule_line(n: usize) -> (line: Line)
    ensures
        line@ == rule(n as nat),
{
    proof {
        reveal_strlit("─");
    }
    plain_line(text::repeat("─", n))
}

/// The symbol and the label of a status by its name.
pub open spec fn symbol_label(status: Seq<char>) -> (Seq<char>, Seq<char>) {
    if status == "Healthy"@ {
        ("●"@, "Healthy"@)
    } else if status == "Degraded"@ {
        ("◐"@, "Degraded"@)
    } else if status == "Failed"@ {
        ("✗"@, "Failed"@)
    } else {
        ("○"@, "Unknown"@)
    }
}

/// The style of a status by its name.
pub open spec fn status_style(status: Seq<char>) -> Style {
    if status == "Healthy"@ {
        Style::Green
    } else if status == "Degraded"@ {
        Style::Yellow
    } else if status == "Failed"@ {
        Style::Red
    } else {
        Style::Grey
    }
}

/// The symbol and the label of a status, together.
pub open spec fn status_text(status: Seq<char>) -> Seq<char> {
    symbol_label(status).0 + " "@ + symbol_label(status).1
}

/// The symbol and the label of a status by its name.
pub fn status_symbol_label(status: &str) -> (result: (&'static str, &'static str))
    ensures
        (result.0@, result.1@) == symbol_label(status@),
{
    if text::same(status, "Healthy") {
        ("●", "Healthy")
    } else if text::same(status, "Degraded") {
        ("◐", "Degraded")
    } else if text::same(status, "Failed") {
        ("✗", "Failed")
    } else {
        ("○", "Unknown")
    }
}

/// The style of a status by its name.
pub fn colorize(status: &str) -> (style: Style)
    ensures
        style == status_style(status@),
{
    if text::same(status, "Healthy") {
        Style::Green
    } else if text::same(status, "Degraded") {
        Style::Yellow
    } else if text::same(status, "Failed") {
        Style::Red
    } else {
        Style::Grey
    }
}

/// A status by its name, with its symbol and in its style.
pub fn status_display(status: &str) -> (result: Span)
    ensures
        (result.style, result.text@) == (status_style(status@), status_text(status@)),
{
    let (symbol, label) = status_symbol_label(status);
    span(colorize(status), String::from_str(symbol).concat(" ").concat(label))
}

/// A status by its name, with its symbol and in its style, padded to a width.
pub fn status_display_padded(status: &str, width: usize) -> (result: Span)
    ensures
        (result.style, result.text@) == colored_column(
            status_text(status@),
            width as nat,
            status_style(status@),
        ),
{
    let (symbol, label) = status_symbol_label(status);
    let plain = String::from_str(symbol).concat(" ").concat(label);
    pad_then_color(plain.as_str(), width, colorize(status))
}

/// `s` itself where it has at most `max` characters; else its first characters
/// and an ellipsis, `max` in all (but at least the ellipsis).
pub open spec fn clipped(s: Seq<char>, max: nat) -> Seq<char> {
    if s.len() <= max {
        s
    } else {
        s.take(
            if max == 0 {
                0
            } else {
                max - 1
            },
        ) + "…"@
    }
}

/// Cuts a string to a number of characters, with an ellipsis where something
/// was cut.
pub fn truncate(s: &str, max: usize) -> (result: String)
    ensures
        result@ == clipped(s@, max as nat),
{
    if s.unicode_len() <= max {
        s.to_owned()
    } else {
        let kept: usize = if max == 0 {
            0
        } else {
            max - 1
        };
        s.substring_char(0, kept).to_owned().concat("…")
    }
}

/// Whether `shown` shows a point in time, or says that there was none.
pub open spec fn is_time(time: Option<Timestamp>, shown: Seq<char>) -> bool {
    match time {
        Some(time) => clock::is_local_time(time, shown),
        None => shown == "never"@,
    }
}

/// Writes a point in time in the time zone of this machine.
pub fn fmt_time(time: Option<Timestamp>) -> (shown: String)
    ensures
        is_time(time, shown@),
{
    match time {
        Some(time) => clock::local_time(time),
        None => String::from_str("never"),
    }
}

// ---------------------------------------------------------------------------
// Questions and answers.
// ---------------------------------------------------------------------------

/// The URL of the API without slashes at its end: that of the command line, or
/// else that of the environment, or else the default one.
pub open spec fn base_url_of(flag: Option<String>, env: Option<String>) -> Seq<char> {
    text::without_trailing(
        match flag {
            Some(url) => url@,
            None => match env {
                Some(url) => url@,
                None => "http://127.0.0.1:7700"@,
            },
        },
        '/',
    )
}

/// Works out the URL of the API.
pub fn base_url(flag: Option<String>, env: Option<String>) -> (url: String)
    ensures
        url@ == base_url_of(flag, env),
{
    let given = match flag {
        Some(url) => url,
        None => match env {
            Some(url) => url,
            None => String::from_str(DEFAULT_URL),
        },
    };
    text::trim_trailing(given.as_str(), '/').to_owned()
}

/// The API key: that of the command line, or else that of the environment,
/// where it is not blank.
pub fn api_key(flag: Option<String>, env: Option<String>) -> (key: Option<String>)
    ensures
        key == (match flag {
            Some(given) => if unicode::blank(given@) {
                None
            } else {
                Some(given)
            },
            None => match env {
                Some(given) => if unicode::blank(given@) {
                    None
                } else {
                    Some(given)
                },
                None => None,
            },
        }),
{
    let given = match flag {
        Some(given) => given,
        None => match env {
            Some(given) => given,
            None => return None,
        },
    };
    if unicode::is_blank(given.as_str()) {
        None
    } else {
        Some(given)
    }
}

/// What is said where there is no API key.
pub fn missing_key_message() -> (message: String)
    ensures
        message@
            == "VELA_API_KEY is not set.\n\nSet it with:\n  export VELA_API_KEY=\"your-api-key\"\n\nOr pass it directly:\n  vela-ctl --key \"your-api-key\" status"@,
{
    String::from_str(
        "VELA_API_KEY is not set.\n\nSet it with:\n  export VELA_API_KEY=\"your-api-key\"\n\nOr pass it directly:\n  vela-ctl --key \"your-api-key\" status",
    )
}

/// What is said where the HTTP client could not be set up.
pub fn no_client_message(detail: &str) -> (message: String)
    ensures
        message@ == "failed to build HTTP client: "@ + detail@,
{
    String::from_str("failed to build HTTP client: ").concat(detail)
}

/// An error as it is shown.
pub fn error_line(message: &str) -> (line: Line)
    ensures
        line@ == seq![(Style::RedBold, "Error:"@), (Style::Plain, " "@ + message@)],
{
    line_of_two(
        span(Style::RedBold, String::from_str("Error:")),
        span(Style::Plain, String::from_str(" ").concat(message)),
    )
}

/// What the command line asks for.
#[derive(Debug)]
pub enum Command {
    /// The overall status.
    Status,
    /// All services, one service, or a part of its history.
    Services { id: Option<String>, resource: Option<String> },
}

/// What is shown.
#[derive(Debug)]
pub enum Page {
    Status,
    Detail(String),
    Checks(String),
    Alerts(String),
    Restarts(String),
}

/// The page that a command asks for, or why there is none.
pub open spec fn page_of(command: Command) -> Result<Page, Seq<char>> {
    match command {
        Command::Status => Ok(Page::Status),
        Command::Services { id: None, .. } => Ok(Page::Status),
        Command::Services { id: Some(id), resource: None } => Ok(Page::Detail(id)),
        Command::Services { id: Some(id), resource: Some(resource) } => if resource@ == "checks"@ {
            Ok(Page::Checks(id))
        } else if resource@ == "alerts"@ {
            Ok(Page::Alerts(id))
        } else if resource@ == "restarts"@ {
            Ok(Page::Restarts(id))
        } else {
            Err(
                "Unknown sub-resource '"@ + resource@
                    + "'. Expected one of: checks, alerts, restarts"@,
            )
        },
    }
}

/// Works out which page a command asks for.
pub fn choose_page(command: Command) -> (result: Result<Page, String>)
    ensures
        match page_of(command) {
            Ok(page) => result == Ok::<Page, String>(page),
            Err(words) => result matches Err(message) && message@ == words,
        },
{
    match command {
        Command::Status => Ok(Page::Status),
        Command::Services { id, resource } => match id {
            None => Ok(Page::Status),
            Some(id) => match resource {
                None => Ok(Page::Detail(id)),
                Some(resource) => {
                    if text::same(resource.as_str(), "checks") {
                        Ok(Page::Checks(id))
                    } else if text::same(resource.as_str(), "alerts") {
                        Ok(Page::Alerts(id))
                    } else if text::same(resource.as_str(), "restarts") {
                        Ok(Page::Restarts(id))
                    } else {
                        Err(
                            String::from_str("Unknown sub-resource '").concat(
                                resource.as_str(),
                            ).concat("'. Expected one of: checks, alerts, restarts"),
                        )
                    }
                },
            },
        },
    }
}

/// Where the API is asked for a page.
pub open spec fn path_of(page: Page) -> Seq<char> {
    match page {
        Page::Status => "/api/v1/status"@,
        Page::Detail(id) => "/api/v1/services/"@ + id@,
        Page::Checks(id) => "/api/v1/services/"@ + id@ + "/checks"@,
        Page::Alerts(id) => "/api/v1/services/"@ + id@ + "/alerts"@,
        Page::Restarts(id) => "/api/v1/services/"@ + id@ + "/restarts"@,
    }
}

/// The URL to get for a page.
pub fn page_url(base_url: &str, page: &Page) -> (url: String)
    ensures
        url@ == base_url@ + path_of(*page),
{
    let path = match page {
        Page::Status => String::from_str("/api/v1/status"),
        Page::Detail(id) => String::from_str("/api/v1/services/").concat(id.as_str()),
        Page::Checks(id) => String::from_str("/api/v1/services/").concat(id.as_str()).concat(
            "/checks",
        ),
        Page::Alerts(id) => String::from_str("/api/v1/services/").concat(id.as_str()).concat(
            "/alerts",
        ),
        Page::Restarts(id) => String::from_str("/api/v1/services/").concat(id.as_str()).concat(
            "/restarts",
        ),
    };
    base_url.to_owned().concat(path.as_str())
}

/// The value of the `Authorization` header of a request.
pub fn authorization_value(api_key: &str) -> (value: String)
    ensures
        value@ == "Bearer "@ + api_key@,
{
    String::from_str("Bearer ").concat(api_key)
}

/// The envelope of an answer of the API.
#[derive(Debug)]
pub struct Envelope<T> {
    pub ok: bool,
    pub data: Option<T>,
    pub error: Option<String>,
}

/// What came of a request.
#[derive(Debug)]
pub enum Fetched<T> {
    /// There was no connection, or no answer in time.
    Unreachable,
    /// It failed, for this reason.
    Failed(String),
    /// There was an answer with this status code. Its body, read as an
    /// envelope, matters only where the code is one of success.
    Answered { status: u16, body: Result<Envelope<T>, String> },
}

/// What is said where a request brought no data; nothing where it did.
pub open spec fn fetch_problem<T>(
    fetched: Fetched<T>,
    base_url: Seq<char>,
    not_found_id: Option<Seq<char>>,
) -> Option<Seq<char>> {
    match fetched {
        Fetched::Unreachable => Some("Cannot reach Vela at "@ + base_url + ". Is it running?"@),
        Fetched::Failed(detail) => Some("Request failed: "@ + detail@),
        Fetched::Answered { status, body } => if status == 401 {
            Some("Authentication failed. Check your API key."@)
        } else if status == 404 {
            match not_found_id {
                Some(id) => Some("Service '"@ + id + "' not found."@),
                None => Some("Not found."@),
            }
        } else if !health::is_success(status) {
            Some("Vela API returned HTTP "@ + text::decimal(status as nat) + "."@)
        } else {
            match body {
                Err(detail) => Some("Failed to parse response from Vela: "@ + detail@),
                Ok(envelope) => if !envelope.ok {
                    match envelope.error {
                        Some(words) => Some(words@),
                        None => Some("Unknown API error"@),
                    }
                } else if envelope.data is None {
                    Some("Empty response from Vela"@)
                } else {
                    None
                }
            }
        },
    }
}

/// Takes the data out of what came of a request, or says why there is none.
pub fn get_json<T>(fetched: Fetched<T>, base_url: &str, not_found_id: Option<&str>) -> (result:
    Result<T, String>)
    ensures
        match fetch_problem(
            fetched,
            base_url@,
            match not_found_id {
                Some(id) => Some(id@),
                None => None,
            },
        ) {
            Some(words) => result matches Err(message) && message@ == words,
            None => result == Ok::<T, String>((fetched->body->Ok_0).data->0),
        },
{
    match fetched {
        Fetched::Unreachable => Err(
            String::from_str("Cannot reach Vela at ").concat(base_url).concat(". Is it running?"),
        ),
        Fetched::Failed(detail) => Err(
            String::from_str("Request failed: ").concat(detail.as_str()),
        ),
        Fetched::Answered { status, body } => {
            if status == 401 {
                return Err(String::from_str("Authentication failed. Check your API key."));
            }
            if status == 404 {
                return Err(
                    match not_found_id {
                        Some(id) => String::from_str("Service '").concat(id).concat("' not found."),
                        None => String::from_str("Not found."),
                    },
                );
            }
            if !health::status_is_success(status) {
                return Err(
                    String::from_str("Vela API returned HTTP ").concat(
                        text::decimal_text(status as u64).as_str(),
                    ).concat("."),
                );
            }
            match body {
                Err(detail) => Err(
                    String::from_str("Failed to parse response from Vela: ").concat(
                        detail.as_str(),
                    ),
                ),
                Ok(envelope) => {
                    if !envelope.ok {
                        return Err(
                            match envelope.error {
                                Some(words) => words,
                                None => String::from_str("Unknown API error"),
                            },
                        );
                    }
                    match envelope.data {
                        Some(data) => Ok(data),
                        None => Err(String::from_str("Empty response from Vela")),
                    }
                },
            }
        },
    }
}

// ---------------------------------------------------------------------------
// Pages.
// ---------------------------------------------------------------------------

/// A service as the API shows it.
#[derive(Debug)]
pub struct ServiceSummary {
    pub service_id: String,
    pub service_name: String,
    pub status: String,
    pub consecutive_failures: u32,
    pub restart_count: u32,
    pub last_checked_at: Option<Timestamp>,
    pub last_ok_at: Option<Timestamp>,
}

impl Keyed for ServiceSummary {
    open spec fn key(&self) -> Seq<char> {
        self.service_id@
    }

    fn key_text(&self) -> &str {
        self.service_id.as_str()
    }
}

/// The overall status as the API shows it.
#[derive(Debug)]
pub struct StatusResponse {
    pub healthy_count: usize,
    pub degraded_count: usize,
    pub failed_count: usize,
    pub unknown_count: usize,
    pub total_services: usize,
    pub services: Vec<ServiceSummary>,
}

/// A health check as the API shows it.
#[derive(Debug)]
pub struct HealthCheckRecord {
    pub success: bool,
    pub latency_ms: u64,
    pub checked_at: Timestamp,
    pub error: Option<String>,
}

/// An alert as the API shows it.
#[derive(Debug)]
pub struct AlertRecord {
    pub kind: String,
    pub delivered: bool,
    pub trigger: String,
    pub sent_at: Timestamp,
}

/// A restart attempt as the API shows it.
#[derive(Debug)]
pub struct RestartRecord {
    pub attempted_at: Timestamp,
    pub succeeded: bool,
    pub attempt_number: u32,
}

/// How many services have which status.
pub open spec fn count_line(
    healthy: nat,
    degraded: nat,
    failed: nat,
    unknown: nat,
    total: nat,
) -> Seq<(Style, Seq<char>)> {
    seq![
        (Style::Green, text::decimal(healthy)),
        (Style::Plain, " healthy  "@),
        (Style::Yellow, text::decimal(degraded)),
        (Style::Plain, " degraded  "@),
        (Style::Red, text::decimal(failed)),
        (Style::Plain, " failed  "@),
        (Style::Grey, text::decimal(unknown)),
        (Style::Plain, " unknown  ("@ + text::decimal(total) + " total)"@),
    ]
}

/// The heads of the columns of the status page.
pub open spec fn status_heads() -> Seq<(Style, Seq<char>)> {
    seq![
        (
            Style::Plain,
            text::padded("SERVICE"@, 24) + " "@ + text::padded("STATUS"@, 14) + " "@ + text::padded(
                "FAILURES"@,
                10,
            ) + " "@ + text::padded("RESTARTS"@, 10) + " LAST CHECK"@,
        ),
    ]
}

/// The row of a service on the status page.
pub open spec fn status_row(svc: ServiceSummary, time: Seq<char>) -> Seq<(Style, Seq<char>)> {
    seq![
        (Style::Plain, text::padded(clipped(svc.service_id@, 24), 24) + " "@),
        colored_column(status_text(svc.status@), 14, status_style(svc.status@)),
        (
            Style::Plain,
            " "@ + text::padded(text::decimal(svc.consecutive_failures as nat), 10) + " "@
                + text::padded(text::decimal(svc.restart_count as nat), 10) + " "@ + time,
        ),
    ]
}

/// The status page, with the services in the order given, and the times of
/// their last checks as given.
pub open spec fn status_page(
    response: StatusResponse,
    services: Seq<ServiceSummary>,
    times: Seq<Seq<char>>,
) -> Seq<Seq<(Style, Seq<char>)>> {
    seq![
        count_line(
            response.healthy_count as nat,
            response.degraded_count as nat,
            response.failed_count as nat,
            response.unknown_count as nat,
            response.total_services as nat,
        ),
        rule(88),
        status_heads(),
    ] + Seq::new(services.len(), |i: int| status_row(services[i], times[i]))
}

fn counts(
    healthy: usize,
    degraded: usize,
    failed: usize,
    unknown: usize,
    total: usize,
) -> (line: Line)
    ensures
        line@ == count_line(
            healthy as nat,
            degraded as nat,
            failed as nat,
            unknown as nat,
            total as nat,
        ),
{
    let mut spans: Vec<Span> = Vec::new();
    spans.push(span(Style::Green, text::decimal_text(healthy as u64)));
    spans.push(span(Style::Plain, String::from_str(" healthy  ")));
    spans.push(span(Style::Yellow, text::decimal_text(degraded as u64)));
    spans.push(span(Style::Plain, String::from_str(" degraded  ")));
    spans.push(span(Style::Red, text::decimal_text(failed as u64)));
    spans.push(span(Style::Plain, String::from_str(" failed  ")));
    spans.push(span(Style::Grey, text::decimal_text(unknown as u64)));
    spans.push(
        span(
            Style::Plain,
            String::from_str(" unknown  (").concat(text::decimal_text(total as u64).as_str()).concat(
                " total)",
            ),
        ),
    );
    let line = Line { spans };
    assert(line@ =~= count_line(
        healthy as nat,
        degraded as nat,
        failed as nat,
        unknown as nat,
        total as nat,
    ));
    line
}

fn service_row(svc: &ServiceSummary, time: &str) -> (line: Line)
    ensures
        line@ == status_row(*svc, time@),
{
    let id = truncate(svc.service_id.as_str(), 24);
    let failures = text::decimal_text(svc.consecutive_failures as u64);
    let restarts = text::decimal_text(svc.restart_count as u64);
    line_of_three(
        span(Style::Plain, text::pad_right(id.as_str(), 24).concat(" ")),
        status_display_padded(svc.status.as_str(), 14),
        span(
            Style::Plain,
            String::from_str(" ").concat(text::pad_right(failures.as_str(), 10).as_str()).concat(
                " ",
            ).concat(text::pad_right(restarts.as_str(), 10).as_str()).concat(" ").concat(time),
        ),
    )
}

/// The characters of strings.
pub open spec fn views(strings: Seq<String>) -> Seq<Seq<char>> {
    strings.map_values(|s: String| s@)
}

/// Whether `times` show when the services were last checked.
pub open spec fn are_check_times(services: Seq<ServiceSummary>, times: Seq<Seq<char>>) -> bool {
    &&& times.len() == services.len()
    &&& forall|i: int|
        0 <= i < times.len() ==> is_time(services[i].last_checked_at, #[trigger] times[i])
}

/// Whether `lines` are the status page of an answer: with all of its services,
/// in the order of their ids.
pub open spec fn is_status_page(
    lines: Seq<Seq<(Style, Seq<char>)>>,
    response: StatusResponse,
) -> bool {
    exists|services: Seq<ServiceSummary>, times: Seq<Seq<char>>| #[trigger]
        are_check_times(services, times) && sorting::is_sorted_from(services, response.services@)
            && lines == status_page(response, services, times)
}

/// Lays the overall status out, with the services in the order given, and the
/// times of their last checks as given.
pub fn layout_status(
    healthy: usize,
    degraded: usize,
    failed: usize,
    unknown: usize,
    total: usize,
    services: &Vec<ServiceSummary>,
    times: &Vec<String>,
) -> (lines: Vec<Line>)
    requires
        times@.len() == services@.len(),
    ensures
        line_views(lines@) == seq![
            count_line(
                healthy as nat,
                degraded as nat,
                failed as nat,
                unknown as nat,
                total as nat,
            ),
            rule(88),
            status_heads(),
        ] + Seq::new(services@.len(), |i: int| status_row(services@[i], times@[i]@)),
{
    let mut lines: Vec<Line> = Vec::new();
    lines.push(counts(healthy, degraded, failed, unknown, total));
    lines.push(rule_line(88));
    lines.push(
        plain_line(
            text::pad_right("SERVICE", 24).concat(" ").concat(
                text::pad_right("STATUS", 14).as_str(),
            ).concat(" ").concat(text::pad_right("FAILURES", 10).as_str()).concat(" ").concat(
                text::pad_right("RESTARTS", 10).as_str(),
            ).concat(" LAST CHECK"),
        ),
    );
    let ghost heads = line_views(lines@);
    assert(heads =~= seq![
        count_line(healthy as nat, degraded as nat, failed as nat, unknown as nat, total as nat),
        rule(88),
        status_heads(),
    ]);
    let mut i: usize = 0;
    assert(line_views(lines@) =~= heads + Seq::new(
        0,
        |i: int| status_row(services@[i], times@[i]@),
    ));
    while i < services.len()
        invariant
            i <= services@.len() == times@.len(),
            line_views(lines@) == heads + Seq::new(
                i as nat,
                |i: int| status_row(services@[i], times@[i]@),
            ),
        decreases services.len() - i,
    {
        let ghost before = lines@;
        lines.push(service_row(&services[i], times[i].as_str()));
        assert(line_views(lines@) =~= line_views(before).push(
            status_row(services@[i as int], times@[i as int]@),
        ));
        assert(line_views(lines@) =~= heads + Seq::new(
            (i + 1) as nat,
            |i: int| status_row(services@[i], times@[i]@),
        ));
        i = i + 1;
    }
    lines
}

/// Lays the overall status out.
pub fn run_status(response: StatusResponse) -> (lines: Vec<Line>)
    ensures
        is_status_page(line_views(lines@), response),
{
    let StatusResponse {
        healthy_count,
        degraded_count,
        failed_count,
        unknown_count,
        total_services,
        services,
    } = response;
    let sorted = sorting::sort(services);
    let mut times: Vec<String> = Vec::new();
    let mut i: usize = 0;
    while i < sorted.len()
        invariant
            i <= sorted@.len(),
            times@.len() == i,
            forall|j: int|
                0 <= j < i ==> is_time(sorted@[j].last_checked_at, (#[trigger] times@[j])@),
        decreases sorted.len() - i,
    {
        times.push(fmt_time(sorted[i].last_checked_at));
        i = i + 1;
    }
    let lines = layout_status(
        healthy_count,
        degraded_count,
        failed_count,
        unknown_count,
        total_services,
        &sorted,
        &times,
    );
    proof {
        assert(are_check_times(sorted@, views(times@)));
        assert(line_views(lines@) =~= status_page(response, sorted@, views(times@)));
    }
    lines
}

/// A field of a service: its name, and its value.
pub open spec fn field(name: Seq<char>, value: Seq<char>) -> Seq<(Style, Seq<char>)> {
    seq![(Style::Plain, text::padded(name, 22) + " "@ + value)]
}

fn field_line(name: &str, value: &str) -> (line: Line)
    ensures
        line@ == field(name@, value@),
{
    plain_line(text::pad_right(name, 22).concat(" ").concat(value))
}

/// The page of one service, with the times as given.
pub open spec fn detail_page(
    svc: ServiceSummary,
    checked: Seq<char>,
    succeeded: Seq<char>,
) -> Seq<Seq<(Style, Seq<char>)>> {
    seq![
        seq![(Style::Bold, svc.service_name@)],
        rule(50),
        field("Service ID:"@, svc.service_id@),
        seq![
            (Style::Plain, text::padded("Status:"@, 22) + " "@),
            (status_style(svc.status@), status_text(svc.status@)),
        ],
        field("Consecutive failures:"@, text::decimal(svc.consecutive_failures as nat)),
        field("Restart count:"@, text::decimal(svc.restart_count as nat)),
        field("Last checked:"@, checked),
        field("Last success:"@, succeeded),
    ]
}

/// Lays one service out, with the times as given.
pub fn layout_detail(svc: &ServiceSummary, checked: &str, succeeded: &str) -> (lines: Vec<Line>)
    ensures
        line_views(lines@) == detail_page(*svc, checked@, succeeded@),
{
    let mut lines: Vec<Line> = Vec::new();
    let mut name: Vec<Span> = Vec::new();
    name.push(span(Style::Bold, svc.service_name.clone()));
    let title = Line { spans: name };
    assert(title@ =~= seq![(Style::Bold, svc.service_name@)]);
    lines.push(title);
    lines.push(rule_line(50));
    lines.push(field_line("Service ID:", svc.service_id.as_str()));
    lines.push(
        line_of_two(
            span(Style::Plain, text::pad_right("Status:", 22).concat(" ")),
            status_display(svc.status.as_str()),
        ),
    );
    lines.push(
        field_line(
            "Consecutive failures:",
            text::decimal_text(svc.consecutive_failures as u64).as_str(),
        ),
    );
    lines.push(
        field_line("Restart count:", text::decimal_text(svc.restart_count as u64).as_str()),
    );
    lines.push(field_line("Last checked:", checked));
    lines.push(field_line("Last success:", succeeded));
    assert(line_views(lines@) =~= detail_page(*svc, checked@, succeeded@));
    lines
}

/// Lays one service out.
pub fn run_service_detail(svc: &ServiceSummary) -> (lines: Vec<Line>)
    ensures
        exists|checked: Seq<char>, succeeded: Seq<char>|
            is_time(svc.last_checked_at, checked) && is_time(svc.last_ok_at, succeeded)
                && line_views(lines@) == #[trigger] detail_page(*svc, checked, succeeded),
{
    let checked = fmt_time(svc.last_checked_at);
    let succeeded = fmt_time(svc.last_ok_at);
    let lines = layout_detail(svc, checked.as_str(), succeeded.as_str());
    assert(line_views(lines@) == detail_page(*svc, checked@, succeeded@));
    lines
}

/// How many of `n` records are shown.
pub open spec fn shown(n: nat, max: nat) -> nat {
    if n <= max {
        n
    } else {
        max
    }
}

/// The heads of the columns of the page of health checks.
pub open spec fn check_heads() -> Seq<(Style, Seq<char>)> {
    seq![
        (
            Style::Plain,
            text::padded("TIMESTAMP"@, 22) + " "@ + text::padded("RESULT"@, 12) + " "@
                + text::padded("LATENCY"@, 10) + " ERROR"@,
        ),
    ]
}

/// The row of a health check.
pub open spec fn check_row(record: HealthCheckRecord, time: Seq<char>) -> Seq<(Style, Seq<char>)> {
    seq![
        (Style::Plain, text::padded(time, 22) + " "@),
        if record.success {
            colored_column("✓ Success"@, 12, Style::Green)
        } else {
            colored_column("✗ Failed"@, 12, Style::Red)
        },
        (
            Style::Plain,
            " "@ + text::padded(
                if record.success {
                    text::decimal(record.latency_ms as nat) + "ms"@
                } else {
                    "—"@
                },
                10,
            ) + " "@ + match record.error {
                Some(error) => error@,
                None => "—"@,
            },
        ),
    ]
}

/// The times of the health checks that are shown, the latest first.
pub open spec fn check_stamps(records: Seq<HealthCheckRecord>) -> Seq<Timestamp> {
    Seq::new(
        shown(records.len(), SHOWN_CHECKS as nat),
        |i: int| records[records.len() - 1 - i].checked_at,
    )
}

/// The page of health checks: the last ones, the latest first, with the times
/// as given.
pub open spec fn checks_page(
    records: Seq<HealthCheckRecord>,
    id: Seq<char>,
    times: Seq<Seq<char>>,
) -> Seq<Seq<(Style, Seq<char>)>> {
    if records.len() == 0 {
        seq![seq![(Style::Plain, "No health check records for '"@ + id + "'."@)]]
    } else {
        seq![check_heads(), rule(88)] + Seq::new(
            shown(records.len(), SHOWN_CHECKS as nat),
            |i: int| check_row(records[records.len() - 1 - i], times[i]),
        )
    }
}

/// Whether `shown` shows these points in time.
pub open spec fn are_times(stamps: Seq<Timestamp>, shown: Seq<Seq<char>>) -> bool {
    &&& shown.len() == stamps.len()
    &&& forall|i: int|
        0 <= i < shown.len() ==> clock::is_local_time(stamps[i], #[trigger] shown[i])
}

fn count_shown(n: usize, max: usize) -> (result: usize)
    ensures
        result == shown(n as nat, max as nat),
{
    if n <= max {
        n
    } else {
        max
    }
}

fn check_line(record: &HealthCheckRecord, time: &str) -> (line: Line)
    ensures
        line@ == check_row(*record, time@),
{
    let result = if record.success {
        pad_then_color("✓ Success", 12, Style::Green)
    } else {
        pad_then_color("✗ Failed", 12, Style::Red)
    };
    let latency = if record.success {
        text::decimal_text(record.latency_ms).concat("ms")
    } else {
        String::from_str("—")
    };
    let error = match &record.error {
        Some(error) => error.as_str(),
        None => "—",
    };
    line_of_three(
        span(Style::Plain, text::pad_right(time, 22).concat(" ")),
        result,
        span(
            Style::Plain,
            String::from_str(" ").concat(text::pad_right(latency.as_str(), 10).as_str()).concat(
                " ",
            ).concat(error),
        ),
    )
}

/// Lays health checks out, with the times as given.
pub fn layout_checks(records: &Vec<HealthCheckRecord>, id: &str, times: &Vec<String>) -> (lines:
    Vec<Line>)
    requires
        times@.len() == shown(records@.len(), SHOWN_CHECKS as nat),
    ensures
        line_views(lines@) == checks_page(records@, id@, views(times@)),
{
    let mut lines: Vec<Line> = Vec::new();
    let n: usize = records.len();
    if n == 0 {
        lines.push(
            plain_line(
                String::from_str("No health check records for '").concat(id).concat("'."),
            ),
        );
        assert(line_views(lines@) =~= checks_page(records@, id@, views(times@)));
        return lines;
    }
    lines.push(
        plain_line(
            text::pad_right("TIMESTAMP", 22).concat(" ").concat(
                text::pad_right("RESULT", 12).as_str(),
            ).concat(" ").concat(text::pad_right("LATENCY", 10).as_str()).concat(" ERROR"),
        ),
    );
    lines.push(rule_line(88));
    let ghost heads = line_views(lines@);
    assert(heads =~= seq![check_heads(), rule(88)]);
    let ghost row = |i: int| check_row(records@[records@.len() - 1 - i], views(times@)[i]);
    let count: usize = count_shown(n, SHOWN_CHECKS);
    let mut i: usize = 0;
    assert(line_views(lines@) =~= heads + Seq::new(0, row));
    while i < count
        invariant
            n == records@.len(),
            i <= count <= n,
            count == times@.len(),
            row == (|i: int| check_row(records@[records@.len() - 1 - i], views(times@)[i])),
            line_views(lines@) == heads + Seq::new(i as nat, row),
        decreases count - i,
    {
        let ghost before = lines@;
        lines.push(check_line(&records[n - 1 - i], times[i].as_str()));
        assert(line_views(lines@) =~= line_views(before).push(row(i as int)));
        assert(line_views(lines@) =~= heads + Seq::new((i + 1) as nat, row));
        i = i + 1;
    }
    lines
}

/// Lays health checks out.
pub fn run_checks(records: &Vec<HealthCheckRecord>, id: &str) -> (lines: Vec<Line>)
    ensures
        exists|times: Seq<Seq<char>>| #[trigger]
            are_times(check_stamps(records@), times) && line_views(lines@) == checks_page(
                records@,
                id@,
                times,
            ),
{
    let n: usize = records.len();
    let count: usize = count_shown(n, SHOWN_CHECKS);
    let mut times: Vec<String> = Vec::new();
    let mut i: usize = 0;
    while i < count
        invariant
            n == records@.len(),
            i <= count <= n,
            times@.len() == i,
            forall|j: int|
                0 <= j < i ==> clock::is_local_time(
                    records@[records@.len() - 1 - j].checked_at,
                    (#[trigger] times@[j])@,
                ),
        decreases count - i,
    {
        times.push(clock::local_time(records[n - 1 - i].checked_at));
        i = i + 1;
    }
    assert(are_times(check_stamps(records@), views(times@)));
    layout_checks(records, id, &times)
}

/// The heads of the columns of the page of alerts.
pub open spec fn alert_heads() -> Seq<(Style, Seq<char>)> {
    seq![
        (
            Style::Plain,
            text::padded("TIMESTAMP"@, 22) + " "@ + text::padded("TRANSITION"@, 20) + " "@
                + text::padded("KIND"@, 10) + " STATUS"@,
        ),
    ]
}

/// The row of an alert.
pub open spec fn alert_row(record: AlertRecord, time: Seq<char>) -> Seq<(Style, Seq<char>)> {
    seq![
        (
            Style::Plain,
            text::padded(time, 22) + " "@ + text::padded(record.trigger@, 20) + " "@
                + text::padded(record.kind@, 10) + " "@,
        ),
        if record.delivered {
            colored_column("Delivered"@, 10, Style::Green)
        } else {
            colored_column("Failed"@, 10, Style::Red)
        },
    ]
}

/// The times of the alerts that are shown, the latest first.
pub open spec fn alert_stamps(records: Seq<AlertRecord>) -> Seq<Timestamp> {
    Seq::new(
        shown(records.len(), SHOWN_ALERTS as nat),
        |i: int| records[records.len() - 1 - i].sent_at,
    )
}

/// The page of alerts: the last ones, the latest first, with the times as
/// given.
pub open spec fn alerts_page(
    records: Seq<AlertRecord>,
    id: Seq<char>,
    times: Seq<Seq<char>>,
) -> Seq<Seq<(Style, Seq<char>)>> {
    if records.len() == 0 {
        seq![seq![(Style::Plain, "No alert records for '"@ + id + "'."@)]]
    } else {
        seq![alert_heads(), rule(88)] + Seq::new(
            shown(records.len(), SHOWN_ALERTS as nat),
            |i: int| alert_row(records[records.len() - 1 - i], times[i]),
        )
    }
}

fn alert_line(record: &AlertRecord, time: &str) -> (line: Line)
    ensures
        line@ == alert_row(*record, time@),
{
    let status = if record.delivered {
        pad_then_color("Delivered", 10, Style::Green)
    } else {
        pad_then_color("Failed", 10, Style::Red)
    };
    line_of_two(
        span(
            Style::Plain,
            text::pad_right(time, 22).concat(" ").concat(
                text::pad_right(record.trigger.as_str(), 20).as_str(),
            ).concat(" ").concat(text::pad_right(record.kind.as_str(), 10).as_str()).concat(" "),
        ),
        status,
    )
}

/// Lays alerts out, with the times as given.
pub fn layout_alerts(records: &Vec<AlertRecord>, id: &str, times: &Vec<String>) -> (lines: Vec<
    Line,
>)
    requires
        times@.len() == shown(records@.len(), SHOWN_ALERTS as nat),
    ensures
        line_views(lines@) == alerts_page(records@, id@, views(times@)),
{
    let mut lines: Vec<Line> = Vec::new();
    let n: usize = records.len();
    if n == 0 {
        lines.push(
            plain_line(String::from_str("No alert records for '").concat(id).concat("'.")),
        );
        assert(line_views(lines@) =~= alerts_page(records@, id@, views(times@)));
        return lines;
    }
    lines.push(
        plain_line(
            text::pad_right("TIMESTAMP", 22).concat(" ").concat(
                text::pad_right("TRANSITION", 20).as_str(),
            ).concat(" ").concat(text::pad_right("KIND", 10).as_str()).concat(" STATUS"),
        ),
    );
    lines.push(rule_line(88));
    let ghost heads = line_views(lines@);
    assert(heads =~= seq![alert_heads(), rule(88)]);
    let ghost row = |i: int| alert_row(records@[records@.len() - 1 - i], views(times@)[i]);
    let count: usize = count_shown(n, SHOWN_ALERTS);
    let mut i: usize = 0;
    assert(line_views(lines@) =~= heads + Seq::new(0, row));
    while i < count
        invariant
            n == records@.len(),
            i <= count <= n,
            count == times@.len(),
            row == (|i: int| alert_row(records@[records@.len() - 1 - i], views(times@)[i])),
            line_views(lines@) == heads + Seq::new(i as nat, row),
        decreases count - i,
    {
        let ghost before = lines@;
        lines.push(alert_line(&records[n - 1 - i], times[i].as_str()));
        assert(line_views(lines@) =~= line_views(before).push(row(i as int)));
        assert(line_views(lines@) =~= heads + Seq::new((i + 1) as nat, row));
        i = i + 1;
    }
    lines
}

/// Lays alerts out.
pub fn run_alerts(records: &Vec<AlertRecord>, id: &str) -> (lines: Vec<Line>)
    ensures
        exists|times: Seq<Seq<char>>| #[trigger]
            are_times(alert_stamps(records@), times) && line_views(lines@) == alerts_page(
                records@,
                id@,
                times,
            ),
{
    let n: usize = records.len();
    let count: usize = count_shown(n, SHOWN_ALERTS);
    let mut times: Vec<String> = Vec::new();
    let mut i: usize = 0;
    while i < count
        invariant
            n == records@.len(),
            i <= count <= n,
            times@.len() == i,
            forall|j: int|
                0 <= j < i ==> clock::is_local_time(
                    records@[records@.len() - 1 - j].sent_at,
                    (#[trigger] times@[j])@,
                ),
        decreases count - i,
    {
        times.push(clock::local_time(records[n - 1 - i].sent_at));
        i = i + 1;
    }
    assert(are_times(alert_stamps(records@), views(times@)));
    layout_alerts(records, id, &times)
}

/// The heads of the columns of the page of restart attempts.
pub open spec fn restart_heads() -> Seq<(Style, Seq<char>)> {
    seq![
        (
            Style::Plain,
            text::padded("TIMESTAMP"@, 22) + " "@ + text::padded("ATTEMPT #"@, 10) + " OUTCOME"@,
        ),
    ]
}

/// The row of a restart attempt.
pub open spec fn restart_row(record: RestartRecord, time: Seq<char>) -> Seq<(Style, Seq<char>)> {
    seq![
        (
            Style::Plain,
            text::padded(time, 22) + " "@ + text::padded(
                text::decimal(record.attempt_number as nat),
                10,
            ) + " "@,
        ),
        if record.succeeded {
            colored_column("Success"@, 10, Style::Green)
        } else {
            colored_column("Failed"@, 10, Style::Red)
        },
    ]
}

/// The times of the restart attempts that are shown, the latest first.
pub open spec fn restart_stamps(records: Seq<RestartRecord>) -> Seq<Timestamp> {
    Seq::new(
        shown(records.len(), SHOWN_RESTARTS as nat),
        |i: int| records[records.len() - 1 - i].attempted_at,
    )
}

/// The page of restart attempts: the last ones, the latest first, with the
/// times as given.
pub open spec fn restarts_page(
    records: Seq<RestartRecord>,
    id: Seq<char>,
    times: Seq<Seq<char>>,
) -> Seq<Seq<(Style, Seq<char>)>> {
    if records.len() == 0 {
        seq![seq![(Style::Plain, "No restart records for '"@ + id + "'."@)]]
    } else {
        seq![restart_heads(), rule(60)] + Seq::new(
            shown(records.len(), SHOWN_RESTARTS as nat),
            |i: int| restart_row(records[records.len() - 1 - i], times[i]),
        )
    }
}

fn restart_line(record: &RestartRecord, time: &str) -> (line: Line)
    ensures
        line@ == restart_row(*record, time@),
{
    let outcome = if record.succeeded {
        pad_then_color("Success", 10, Style::Green)
    } else {
        pad_then_color("Failed", 10, Style::Red)
    };
    let attempt = text::decimal_text(record.attempt_number as u64);
    line_of_two(
        span(
            Style::Plain,
            text::pad_right(time, 22).concat(" ").concat(
                text::pad_right(attempt.as_str(), 10).as_str(),
            ).concat(" "),
        ),
        outcome,
    )
}

/// Lays restart attempts out, with the times as given.
pub fn layout_restarts(records: &Vec<RestartRecord>, id: &str, times: &Vec<String>) -> (lines: Vec<
    Line,
>)
    requires
        times@.len() == shown(records@.len(), SHOWN_RESTARTS as nat),
    ensures
        line_views(lines@) == restarts_page(records@, id@, views(times@)),
{
    let mut lines: Vec<Line> = Vec::new();
    let n: usize = records.len();
    if n == 0 {
        lines.push(
            plain_line(String::from_str("No restart records for '").concat(id).concat("'.")),
        );
        assert(line_views(lines@) =~= restarts_page(records@, id@, views(times@)));
        return lines;
    }
    lines.push(
        plain_line(
            text::pad_right("TIMESTAMP", 22).concat(" ").concat(
                text::pad_right("ATTEMPT #", 10).as_str(),
            ).concat(" OUTCOME"),
        ),
    );
    lines.push(rule_line(60));
    let ghost heads = line_views(lines@);
    assert(heads =~= seq![restart_heads(), rule(60)]);
    let ghost row = |i: int| restart_row(records@[records@.len() - 1 - i], views(times@)[i]);
    let count: usize = count_shown(n, SHOWN_RESTARTS);
    let mut i: usize = 0;
    assert(line_views(lines@) =~= heads + Seq::new(0, row));
    while i < count
        invariant
            n == records@.len(),
            i <= count <= n,
            count == times@.len(),
            row == (|i: int| restart_row(records@[records@.len() - 1 - i], views(times@)[i])),
            line_views(lines@) == heads + Seq::new(i as nat, row),
        decreases count - i,
    {
        let ghost before = lines@;
        lines.push(restart_line(&records[n - 1 - i], times[i].as_str()));
        assert(line_views(lines@) =~= line_views(before).push(row(i as int)));
        assert(line_views(lines@) =~= heads + Seq::new((i + 1) as nat, row));
        i = i + 1;
    }
    lines
}

/// Lays restart attempts out.
pub fn run_restarts(records: &Vec<RestartRecord>, id: &str) -> (lines: Vec<Line>)
    ensures
        exists|times: Seq<Seq<char>>| #[trigger]
            are_times(restart_stamps(records@), times) && line_views(lines@) == restarts_page(
                records@,
                id@,
                times,
            ),
{
    let n: usize = records.len();
    let count: usize = count_shown(n, SHOWN_RESTARTS);
    let mut times: Vec<String> = Vec::new();
    let mut i: usize = 0;
    while i < count
        invariant
            n == records@.len(),
            i <= count <= n,
            times@.len() == i,
            forall|j: int|
                0 <= j < i ==> clock::is_local_time(
                    records@[records@.len() - 1 - j].attempted_at,
                    (#[trigger] times@[j])@,
                ),
        decreases count - i,
    {
        times.push(clock::local_time(records[n - 1 - i].attempted_at));
        i = i + 1;
    }
    assert(are_times(restart_stamps(records@), views(times@)));
    layout_restarts(records, id, &times)
}

// ---------------------------------------------------------------------------
// Laws.
// ---------------------------------------------------------------------------

/// A clipped text has at most as many characters as it may.
pub proof fn lemma_clipped_fits(s: Seq<char>, max: nat)
    requires
        max > 0,
    ensures
        clipped(s, max).len() <= max,
{
    reveal_strlit("…");
}

/// Every status, known or not, has a symbol and a label of at most ten
/// characters together.
pub proof fn lemma_status_text_fits(status: Seq<char>)
    ensures
        status_text(status).len() <= 10,
{
    reveal_strlit("●");
    reveal_strlit("◐");
    reveal_strlit("✗");
    reveal_strlit("○");
    reveal_strlit("Healthy");
    reveal_strlit("Degraded");
    reveal_strlit("Failed");
    reveal_strlit("Unknown");
    reveal_strlit(" ");
}

/// The columns of the status page are aligned: whatever the service, what
/// stands before the time of its last check takes the same number of
/// characters, colours not counted.
pub proof fn lemma_status_columns_align(svc: ServiceSummary, time: Seq<char>)
    ensures
        plain_text(status_row(svc, time)).len() == 62 + time.len(),
        status_row(svc, time)[0].1.len() == 25,
        status_row(svc, time)[1].1.len() == 14,
{
    reveal_strlit(" ");
    lemma_clipped_fits(svc.service_id@, 24);
    lemma_status_text_fits(svc.status@);
    text::lemma_u32_has_ten_digits(svc.consecutive_failures as nat);
    text::lemma_u32_has_ten_digits(svc.restart_count as nat);
    let row = status_row(svc, time);
    assert(row.drop_last().drop_last().drop_last() =~= Seq::<(Style, Seq<char>)>::empty());
    assert(row.drop_last().drop_last().last() == row[0]);
    assert(row.drop_last().last() == row[1]);
    reveal_with_fuel(plain_text, 4);
}

/// A page of history shows the latest record first, and no more than its
/// limit.
pub proof fn lemma_latest_check_comes_first(
    records: Seq<HealthCheckRecord>,
    id: Seq<char>,
    times: Seq<Seq<char>>,
)
    requires
        records.len() > 0,
    ensures
        checks_page(records, id, times).len() <= 2 + SHOWN_CHECKS,
        checks_page(records, id, times)[2] == check_row(records.last(), times[0]),
{
}

/// An authentication failure and a missing service are reported as such,
/// whatever the body of the answer says.
pub proof fn lemma_status_code_decides<T>(
    status: u16,
    body: Result<Envelope<T>, String>,
    other: Result<Envelope<T>, String>,
    base_url: Seq<char>,
    id: Option<Seq<char>>,
)
    requires
        !health::is_success(status),
    ensures
        fetch_problem(Fetched::Answered { status, body }, base_url, id) is Some,
        fetch_problem(Fetched::Answered { status, body }, base_url, id) == fetch_problem(
            Fetched::Answered { status, body: other },
            base_url,
            id,
        ),
{
}

/// Each status has its own symbol, label and colour; what is none of the known
/// ones is shown as unknown.
pub proof fn lemma_status_looks_in_full(status: Seq<char>)
    ensures
        status == "Healthy"@ ==> status_text(status) == "●"@ + " "@ + "Healthy"@ && status_style(
            status,
        ) == Style::Green,
        status == "Degraded"@ ==> status_text(status) == "◐"@ + " "@ + "Degraded"@
            && status_style(status) == Style::Yellow,
        status == "Failed"@ ==> status_text(status) == "✗"@ + " "@ + "Failed"@ && status_style(
            status,
        ) == Style::Red,
        status != "Healthy"@ && status != "Degraded"@ && status != "Failed"@ ==> status_text(status)
            == "○"@ + " "@ + "Unknown"@ && status_style(status) == Style::Grey,
        symbol_label(status).0 + " "@ + symbol_label(status).1 == status_text(status),
{
    reveal_strlit("Healthy");
    reveal_strlit("Degraded");
    reveal_strlit("Failed");
    assert("Healthy"@[0] == 'H');
    assert("Degraded"@[0] == 'D');
    assert("Failed"@[0] == 'F');
}

/// A text that fits is kept whole. One that does not is cut to one character less
/// than it may have, and an ellipsis follows.
pub proof fn lemma_clipping_in_full(s: Seq<char>, max: nat)
    ensures
        s.len() <= max ==> clipped(s, max) == s,
        s.len() > max > 0 ==> clipped(s, max) == s.take(max - 1) + "…"@,
        s.len() > max && max == 0 ==> clipped(s, max) == "…"@,
{
    if s.len() > max && max == 0 {
        assert(s.take(0) + "…"@ =~= "…"@);
    }
}

/// Each style has its own escape sequence, and plain text has none.
pub proof fn lemma_style_codes_in_full(style: Style)
    ensures
        style == Style::Plain <==> style_code(style) is None,
        style == Style::Green ==> style_code(style) == Some("32"@),
        style == Style::Yellow ==> style_code(style) == Some("33"@),
        style == Style::Red ==> style_code(style) == Some("31"@),
        style == Style::Grey ==> style_code(style) == Some("90"@),
        style == Style::Bold ==> style_code(style) == Some("1"@),
        style == Style::RedBold ==> style_code(style) == Some("1;31"@),
{
}

/// A line without styles is written out as its characters are.
pub proof fn lemma_plain_lines_are_written_as_they_are(
    out: Seq<char>,
    line: Seq<(Style, Seq<char>)>,
)
    requires
        is_rendered(out, line),
        forall|i: int| 0 <= i < line.len() ==> (#[trigger] line[i]).0 == Style::Plain,
    ensures
        out == plain_text(line),
{
    let pieces = choose|pieces: Seq<Seq<char>>| #[trigger]
        are_painted(pieces, line) && out == joined(pieces);
    lemma_plain_pieces(pieces, line);
}

proof fn lemma_plain_pieces(pieces: Seq<Seq<char>>, line: Seq<(Style, Seq<char>)>)
    requires
        are_painted(pieces, line),
        forall|i: int| 0 <= i < line.len() ==> (#[trigger] line[i]).0 == Style::Plain,
    ensures
        joined(pieces) == plain_text(line),
    decreases line.len(),
{
    if line.len() > 0 {
        let n = line.len() - 1;
        let fewer = pieces.drop_last();
        let rest = line.drop_last();
        assert forall|i: int| 0 <= i < rest.len() implies is_painted(
            #[trigger] fewer[i],
            rest[i].0,
            rest[i].1,
        ) by {
            assert(is_painted(pieces[i], line[i].0, line[i].1));
        }
        assert forall|i: int| 0 <= i < rest.len() implies (#[trigger] rest[i]).0 == Style::Plain by {
            assert(rest[i] == line[i]);
        }
        lemma_plain_pieces(fewer, rest);
        assert(line[n].0 == Style::Plain);
        assert(is_painted(pieces[n], line[n].0, line[n].1));
        assert(pieces.last() == pieces[n]);
        assert(line.last() == line[n]);
    }
}

/// A span in a style is written out as its characters, alone or between the
/// escape sequence of the style and the one that ends it.
pub proof fn lemma_painting_in_full(out: Seq<char>, style: Style, text: Seq<char>)
    requires
        is_painted(out, style, text),
        forall|i: int| 0 <= i < text.len() ==> #[trigger] text[i] != '\u{1b}',
    ensures
        style == Style::Plain ==> out == text,
        style != Style::Plain ==> (out == text || out == "\x1B["@ + style_code(style)->0 + "m"@
            + text + ("\x1B["@ + "0"@ + "m"@)),
{
    if style != Style::Plain {
        lemma_nothing_to_resume(text, escape(style_code(style)->0));
    }
}

proof fn lemma_nothing_to_resume(text: Seq<char>, start: Seq<char>)
    requires
        forall|i: int| 0 <= i < text.len() ==> #[trigger] text[i] != '\u{1b}',
    ensures
        resumed(text, start) == text,
    decreases text.len(),
{
    if text.len() > 0 {
        reveal_strlit("\x1B[");
        let reset = escape("0"@);
        assert(reset[0] == "\x1B["@[0]);
        if reset.is_prefix_of(text) {
            assert(text.subrange(0, reset.len() as int)[0] == text[0]);
            assert(reset[0] == text[0]);
            assert(false);
        }
        let rest = text.drop_first();
        assert forall|i: int| 0 <= i < rest.len() implies #[trigger] rest[i] != '\u{1b}' by {
            assert(rest[i] == text[i + 1]);
        }
        lemma_nothing_to_resume(rest, start);
        assert(seq![text[0]] + rest =~= text);
    }
}

/// The URL of the API is that of the command line where there is one, else that of
/// the environment, else the default one; and it does not end with a slash.
pub proof fn lemma_base_url_in_full(flag: Option<String>, env: Option<String>, given: Seq<char>)
    requires
        flag is Some ==> given == flag->0@,
        flag is None && env is Some ==> given == env->0@,
        flag is None && env is None ==> given == "http://127.0.0.1:7700"@,
    ensures
        ({
            let url = base_url_of(flag, env);
            &&& url.len() <= given.len()
            &&& url == given.take(url.len() as int)
            &&& forall|i: int| url.len() <= i < given.len() ==> #[trigger] given[i] == '/'
            &&& url.len() > 0 ==> url.last() != '/'
        }),
{
    text::lemma_without_trailing_in_full(given, '/');
}

/// Each command has its page: the overview without an id, the service with one,
/// and its checks, alerts or restarts where they are asked for by name. Any other
/// name is refused.
pub proof fn lemma_pages_in_full(command: Command)
    ensures
        command is Status ==> page_of(command) == Ok::<Page, Seq<char>>(Page::Status),
        command matches Command::Services { id, resource } ==> {
            &&& id is None ==> page_of(command) == Ok::<Page, Seq<char>>(Page::Status)
            &&& id is Some && resource is None ==> page_of(command) == Ok::<Page, Seq<char>>(
                Page::Detail(id->0),
            )
            &&& id is Some && resource is Some && resource->0@ == "checks"@ ==> page_of(command)
                == Ok::<Page, Seq<char>>(Page::Checks(id->0))
            &&& id is Some && resource is Some && resource->0@ == "alerts"@ ==> page_of(command)
                == Ok::<Page, Seq<char>>(Page::Alerts(id->0))
            &&& id is Some && resource is Some && resource->0@ == "restarts"@ ==> page_of(command)
                == Ok::<Page, Seq<char>>(Page::Restarts(id->0))
            &&& id is Some && resource is Some && resource->0@ != "checks"@ && resource->0@
                != "alerts"@ && resource->0@ != "restarts"@ ==> page_of(command) == Err::<
                Page,
                Seq<char>,
            >(
                "Unknown sub-resource '"@ + resource->0@
                    + "'. Expected one of: checks, alerts, restarts"@,
            )
        },
{
    reveal_strlit("checks");
    reveal_strlit("alerts");
    reveal_strlit("restarts");
    assert("checks"@[0] == 'c');
    assert("alerts"@[0] == 'a');
    assert("restarts"@[0] == 'r');
}

/// Each page is asked for at its own path.
pub proof fn lemma_paths_in_full(page: Page)
    ensures
        page is Status ==> path_of(page) == "/api/v1/status"@,
        page matches Page::Detail(id) ==> path_of(page) == "/api/v1/services/"@ + id@,
        page matches Page::Checks(id) ==> path_of(page) == "/api/v1/services/"@ + id@ + "/checks"@,
        page matches Page::Alerts(id) ==> path_of(page) == "/api/v1/services/"@ + id@ + "/alerts"@,
        page matches Page::Restarts(id) ==> path_of(page) == "/api/v1/services/"@ + id@
            + "/restarts"@,
{
}

/// A request brings data exactly where an answer from 200 to 299 holds an envelope
/// that is in order and not empty. Otherwise it is said what went wrong.
pub proof fn lemma_fetching_in_full<T>(
    fetched: Fetched<T>,
    base_url: Seq<char>,
    not_found_id: Option<Seq<char>>,
)
    ensures
        fetch_problem(fetched, base_url, not_found_id) is None <==> (fetched matches
            Fetched::Answered { status, body } && 200 <= status <= 299 && body is Ok && body->Ok_0.ok
            && body->Ok_0.data is Some),
        fetched is Unreachable ==> fetch_problem(fetched, base_url, not_found_id) == Some(
            "Cannot reach Vela at "@ + base_url + ". Is it running?"@,
        ),
        fetched matches Fetched::Failed(detail) ==> fetch_problem(fetched, base_url, not_found_id)
            == Some("Request failed: "@ + detail@),
        fetched matches Fetched::Answered { status, body } ==> {
            let said = fetch_problem(fetched, base_url, not_found_id);
            &&& status == 401 ==> said == Some("Authentication failed. Check your API key."@)
            &&& status == 404 && not_found_id is Some ==> said == Some(
                "Service '"@ + not_found_id->0 + "' not found."@,
            )
            &&& status == 404 && not_found_id is None ==> said == Some("Not found."@)
            &&& status != 401 && status != 404 && !(200 <= status <= 299) ==> said == Some(
                "Vela API returned HTTP "@ + text::decimal(status as nat) + "."@,
            )
            &&& 200 <= status <= 299 && body is Err ==> said == Some(
                "Failed to parse response from Vela: "@ + body->Err_0@,
            )
            &&& 200 <= status <= 299 && body is Ok && !body->Ok_0.ok && body->Ok_0.error is Some
                ==> said == Some(body->Ok_0.error->0@)
            &&& 200 <= status <= 299 && body is Ok && !body->Ok_0.ok && body->Ok_0.error is None
                ==> said == Some("Unknown API error"@)
            &&& 200 <= status <= 299 && body is Ok && body->Ok_0.ok && body->Ok_0.data is None
                ==> said == Some("Empty response from Vela"@)
        },
{
}

/// The first line of the status page tells how many services are healthy,
/// degraded, failed and unknown, each number before its word and in its colour.
pub proof fn lemma_count_line_in_full(
    healthy: nat,
    degraded: nat,
    failed: nat,
    unknown: nat,
    total: nat,
)
    ensures
        ({
            let line = count_line(healthy, degraded, failed, unknown, total);
            &&& line.len() == 8
            &&& line[0] == (Style::Green, text::decimal(healthy))
            &&& line[1] == (Style::Plain, " healthy  "@)
            &&& line[2] == (Style::Yellow, text::decimal(degraded))
            &&& line[3] == (Style::Plain, " degraded  "@)
            &&& line[4] == (Style::Red, text::decimal(failed))
            &&& line[5] == (Style::Plain, " failed  "@)
            &&& line[6] == (Style::Grey, text::decimal(unknown))
            &&& line[7] == (Style::Plain, " unknown  ("@ + text::decimal(total) + " total)"@)
        }),
{
}

/// The row of a service tells, in this order, its id, its status, its failures,
/// its restarts and when it was last checked.
pub proof fn lemma_status_row_in_full(svc: ServiceSummary, time: Seq<char>)
    ensures
        ({
            let row = status_row(svc, time);
            let failures = text::decimal(svc.consecutive_failures as nat);
            let restarts = text::decimal(svc.restart_count as nat);
            &&& row.len() == 3
            &&& row[0].0 == Style::Plain
            &&& svc.service_id@.len() <= 24 ==> row[0].1 == text::padded(svc.service_id@, 24)
                + " "@
            &&& svc.service_id@.len() > 24 ==> row[0].1 == svc.service_id@.take(23) + "…"@ + " "@
            &&& row[1] == (status_style(svc.status@), text::padded(status_text(svc.status@), 14))
            &&& row[2] == (
                Style::Plain,
                " "@ + text::padded(failures, 10) + " "@ + text::padded(restarts, 10) + " "@ + time,
            )
        }),
{
    reveal_strlit("…");
    lemma_clipping_in_full(svc.service_id@, 24);
}

/// The status page of an answer begins with its counts and has a row for each of
/// its services, in the order of their ids, with the time of the last check.
pub proof fn lemma_status_page_in_full(
    lines: Seq<Seq<(Style, Seq<char>)>>,
    response: StatusResponse,
    i: int,
)
    requires
        is_status_page(lines, response),
        0 <= i < response.services@.len(),
    ensures
        lines.len() == 3 + response.services@.len(),
        lines[0] == count_line(
            response.healthy_count as nat,
            response.degraded_count as nat,
            response.failed_count as nat,
            response.unknown_count as nat,
            response.total_services as nat,
        ),
        lines[1] == seq![(Style::Plain, text::repeated('─', 88))],
        exists|k: int, time: Seq<char>|
            3 <= k < lines.len() && is_time(response.services@[i].last_checked_at, time)
                && #[trigger] lines[k] == #[trigger] status_row(response.services@[i], time),
{
    let (services, times) = choose|services: Seq<ServiceSummary>, times: Seq<Seq<char>>| #[trigger]
        are_check_times(services, times) && sorting::is_sorted_from(services, response.services@)
            && lines == status_page(response, services, times);
    sorting::lemma_sorting_in_full(services, response.services@, i);
    let k = services.index_of(response.services@[i]);
    assert(services[k] == response.services@[i]);
    assert(is_time(services[k].last_checked_at, times[k]));
    assert(lines[3 + k] == status_row(services[k], times[k]));
}

/// The page of a service tells its name, its id, its status, its failures, its
/// restarts, and when it was last checked and last well, each under its own head.
pub proof fn lemma_detail_page_in_full(
    svc: ServiceSummary,
    checked: Seq<char>,
    succeeded: Seq<char>,
)
    ensures
        ({
            let page = detail_page(svc, checked, succeeded);
            &&& page.len() == 8
            &&& page[0] == seq![(Style::Bold, svc.service_name@)]
            &&& page[2] == seq![
                (Style::Plain, text::padded("Service ID:"@, 22) + " "@ + svc.service_id@),
            ]
            &&& page[3] == seq![
                (Style::Plain, text::padded("Status:"@, 22) + " "@),
                (status_style(svc.status@), status_text(svc.status@)),
            ]
            &&& page[4] == seq![
                (
                    Style::Plain,
                    text::padded("Consecutive failures:"@, 22) + " "@ + text::decimal(
                        svc.consecutive_failures as nat,
                    ),
                ),
            ]
            &&& page[5] == seq![
                (
                    Style::Plain,
                    text::padded("Restart count:"@, 22) + " "@ + text::decimal(
                        svc.restart_count as nat,
                    ),
                ),
            ]
            &&& page[6] == seq![(Style::Plain, text::padded("Last checked:"@, 22) + " "@ + checked)]
            &&& page[7] == seq![
                (Style::Plain, text::padded("Last success:"@, 22) + " "@ + succeeded),
            ]
        }),
{
}

/// The row of a health check tells when it was, whether it passed, how long it
/// took where it did, and why not where it did not.
pub proof fn lemma_check_row_in_full(record: HealthCheckRecord, time: Seq<char>)
    ensures
        ({
            let row = check_row(record, time);
            let why = match record.error {
                Some(error) => error@,
                None => "—"@,
            };
            &&& row.len() == 3
            &&& row[0] == (Style::Plain, text::padded(time, 22) + " "@)
            &&& record.success ==> row[1] == (Style::Green, text::padded("✓ Success"@, 12))
                && row[2] == (
                Style::Plain,
                " "@ + text::padded(text::decimal(record.latency_ms as nat) + "ms"@, 10) + " "@
                    + why,
            )
            &&& !record.success ==> row[1] == (Style::Red, text::padded("✗ Failed"@, 12)) && row[2]
                == (Style::Plain, " "@ + text::padded("—"@, 10) + " "@ + why)
        }),
{
}

/// The row of an alert tells when it was, which change it told, how, and whether
/// it came through.
pub proof fn lemma_alert_row_in_full(record: AlertRecord, time: Seq<char>)
    ensures
        ({
            let row = alert_row(record, time);
            &&& row.len() == 2
            &&& row[0] == (
                Style::Plain,
                text::padded(time, 22) + " "@ + text::padded(record.trigger@, 20) + " "@
                    + text::padded(record.kind@, 10) + " "@,
            )
            &&& record.delivered ==> row[1] == (Style::Green, text::padded("Delivered"@, 10))
            &&& !record.delivered ==> row[1] == (Style::Red, text::padded("Failed"@, 10))
        }),
{
}

/// The row of a restart attempt tells when it was, its number, and whether it
/// succeeded.
pub proof fn lemma_restart_row_in_full(record: RestartRecord, time: Seq<char>)
    ensures
        ({
            let row = restart_row(record, time);
            &&& row.len() == 2
            &&& row[0] == (
                Style::Plain,
                text::padded(time, 22) + " "@ + text::padded(
                    text::decimal(record.attempt_number as nat),
                    10,
                ) + " "@,
            )
            &&& record.succeeded ==> row[1] == (Style::Green, text::padded("Success"@, 10))
            &&& !record.succeeded ==> row[1] == (Style::Red, text::padded("Failed"@, 10))
        }),
{
}

/// The pages of history show the last records, the latest first: at most fifteen
/// checks, ten alerts and ten restart attempts. A page without records says so.
pub proof fn lemma_history_in_full(
    id: Seq<char>,
    times: Seq<Seq<char>>,
    checks: Seq<HealthCheckRecord>,
    alerts: Seq<AlertRecord>,
    restarts: Seq<RestartRecord>,
    i: int,
)
    ensures
        checks.len() == 0 ==> checks_page(checks, id, times) == seq![
            seq![(Style::Plain, "No health check records for '"@ + id + "'."@)],
        ],
        checks.len() > 0 ==> checks_page(checks, id, times).len() == 2 + (if checks.len() <= 15 {
            checks.len()
        } else {
            15
        }),
        0 <= i < checks.len() && i < 15 ==> checks_page(checks, id, times)[2 + i] == check_row(
            checks[checks.len() - 1 - i],
            times[i],
        ) && check_stamps(checks)[i] == checks[checks.len() - 1 - i].checked_at,
        alerts.len() == 0 ==> alerts_page(alerts, id, times) == seq![
            seq![(Style::Plain, "No alert records for '"@ + id + "'."@)],
        ],
        alerts.len() > 0 ==> alerts_page(alerts, id, times).len() == 2 + (if alerts.len() <= 10 {
            alerts.len()
        } else {
            10
        }),
        0 <= i < alerts.len() && i < 10 ==> alerts_page(alerts, id, times)[2 + i] == alert_row(
            alerts[alerts.len() - 1 - i],
            times[i],
        ) && alert_stamps(alerts)[i] == alerts[alerts.len() - 1 - i].sent_at,
        restarts.len() == 0 ==> restarts_page(restarts, id, times) == seq![
            seq![(Style::Plain, "No restart records for '"@ + id + "'."@)],
        ],
        restarts.len() > 0 ==> restarts_page(restarts, id, times).len() == 2 + (
        if restarts.len() <= 10 {
            restarts.len()
        } else {
            10
        }),
        0 <= i < restarts.len() && i < 10 ==> restarts_page(restarts, id, times)[2 + i]
            == restart_row(restarts[restarts.len() - 1 - i], times[i]) && restart_stamps(
            restarts,
        )[i] == restarts[restarts.len() - 1 - i].attempted_at,
{
}

/// Without a time it is said that there was none; a time that is shown looks like
/// a date and a time of day.
pub proof fn lemma_times_in_full(time: Option<Timestamp>, shown: Seq<char>)
    requires
        is_time(time, shown),
    ensures
        time is None ==> shown == "never"@,
        time is Some ==> shown.len() >= 19 && shown[shown.len() - 15] == '-' && shown[shown.len()
            - 12] == '-' && shown[shown.len() - 9] == ' ' && shown[shown.len() - 6] == ':'
            && shown[shown.len() - 3] == ':',
{
}

} // verus!
