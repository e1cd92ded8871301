use vela::clock::Timestamp;
use vela::vela_ctl::{
    api_key, authorization_value, base_url, choose_page, colorize, error_line, fmt_time, get_json,
    layout_checks, layout_status, missing_key_message, no_client_message, pad_then_color,
    page_url, render, run_alerts, run_checks, run_restarts, run_service_detail, run_status,
    status_display, status_display_padded, status_symbol_label, truncate, AlertRecord, Command,
    Envelope, Fetched, HealthCheckRecord, Line, Page, RestartRecord, ServiceSummary, Span,
    StatusResponse, Style,
};

fn at(secs: i64) -> Timestamp {
    Timestamp::new(secs, 0).unwrap()
}

fn plain(line: &Line) -> String {
    line.spans.iter().map(|s| s.text.clone()).collect()
}

fn summary(id: &str, status: &str) -> ServiceSummary {
    ServiceSummary {
        service_id: id.to_string(),
        service_name: format!("Name of {}", id),
        status: status.to_string(),
        consecutive_failures: 2,
        restart_count: 31,
        last_checked_at: None,
        last_ok_at: None,
    }
}

fn answered(status: u16, body: Result<Envelope<u32>, String>) -> Fetched<u32> {
    Fetched::Answered { status, body }
}

fn envelope(ok: bool, data: Option<u32>, error: Option<&str>) -> Result<Envelope<u32>, String> {
    Ok(Envelope {
        ok,
        data,
        error: error.map(|e| e.to_string()),
    })
}

fn said(fetched: Fetched<u32>, id: Option<&str>) -> String {
    get_json(fetched, "http://base", id).unwrap_err()
}

#[test]
fn base_url_prefers_the_flag() {
    let some = |s: &str| Some(s.to_string());
    assert_eq!(base_url(some("http://a//"), some("http://b")), "http://a");
    assert_eq!(base_url(None, some("http://b/")), "http://b");
    assert_eq!(base_url(None, None), "http://127.0.0.1:7700");
}

#[test]
fn api_key_prefers_the_flag_and_must_not_be_blank() {
    let some = |s: &str| Some(s.to_string());
    assert_eq!(api_key(some("a"), some("b")).as_deref(), Some("a"));
    assert_eq!(api_key(None, some("b")).as_deref(), Some("b"));
    assert_eq!(api_key(some(" "), some("b")), None);
    assert_eq!(api_key(None, None), None);
    assert!(missing_key_message().starts_with("VELA_API_KEY is not set.\n\nSet it with:"));
    assert_eq!(no_client_message("x"), "failed to build HTTP client: x");
}

#[test]
fn commands_choose_their_pages() {
    let services = |id: Option<&str>, resource: Option<&str>| Command::Services {
        id: id.map(|s| s.to_string()),
        resource: resource.map(|s| s.to_string()),
    };
    assert!(matches!(choose_page(Command::Status), Ok(Page::Status)));
    assert!(matches!(choose_page(services(None, None)), Ok(Page::Status)));
    assert!(matches!(choose_page(services(None, Some("x"))), Ok(Page::Status)));
    assert!(matches!(choose_page(services(Some("a"), None)), Ok(Page::Detail(_))));
    assert!(matches!(choose_page(services(Some("a"), Some("checks"))), Ok(Page::Checks(_))));
    assert!(matches!(choose_page(services(Some("a"), Some("alerts"))), Ok(Page::Alerts(_))));
    assert!(matches!(
        choose_page(services(Some("a"), Some("restarts"))),
        Ok(Page::Restarts(_))
    ));
    assert_eq!(
        choose_page(services(Some("a"), Some("logs"))).unwrap_err(),
        "Unknown sub-resource 'logs'. Expected one of: checks, alerts, restarts"
    );
}

#[test]
fn pages_have_their_urls() {
    let id = || "a".to_string();
    assert_eq!(page_url("u", &Page::Status), "u/api/v1/status");
    assert_eq!(page_url("u", &Page::Detail(id())), "u/api/v1/services/a");
    assert_eq!(page_url("u", &Page::Checks(id())), "u/api/v1/services/a/checks");
    assert_eq!(page_url("u", &Page::Alerts(id())), "u/api/v1/services/a/alerts");
    assert_eq!(page_url("u", &Page::Restarts(id())), "u/api/v1/services/a/restarts");
    assert_eq!(authorization_value("k"), "Bearer k");
}

#[test]
fn data_is_taken_out_of_the_envelope() {
    let fetched = answered(200, envelope(true, Some(7), None));
    assert_eq!(get_json(fetched, "b", None).unwrap(), 7);
}

#[test]
fn failures_are_explained() {
    assert_eq!(
        said(Fetched::Unreachable, None),
        "Cannot reach Vela at http://base. Is it running?"
    );
    assert_eq!(said(Fetched::Failed("x".to_string()), None), "Request failed: x");
    let body = || envelope(true, Some(1), None);
    assert_eq!(
        said(answered(401, body()), None),
        "Authentication failed. Check your API key."
    );
    assert_eq!(said(answered(404, body()), Some("a")), "Service 'a' not found.");
    assert_eq!(said(answered(404, body()), None), "Not found.");
    assert_eq!(said(answered(503, body()), None), "Vela API returned HTTP 503.");
    assert_eq!(
        said(answered(200, Err("eof".to_string())), None),
        "Failed to parse response from Vela: eof"
    );
    assert_eq!(said(answered(200, envelope(false, Some(1), Some("no"))), None), "no");
    assert_eq!(
        said(answered(200, envelope(false, None, None)), None),
        "Unknown API error"
    );
    assert_eq!(
        said(answered(200, envelope(true, None, None)), None),
        "Empty response from Vela"
    );
}

#[test]
fn status_has_a_symbol_and_a_style() {
    assert_eq!(status_symbol_label("Healthy"), ("●", "Healthy"));
    assert_eq!(status_symbol_label("Degraded"), ("◐", "Degraded"));
    assert_eq!(status_symbol_label("Failed"), ("✗", "Failed"));
    assert_eq!(status_symbol_label("???"), ("○", "Unknown"));
    assert_eq!(colorize("Healthy"), Style::Green);
    assert_eq!(colorize("Degraded"), Style::Yellow);
    assert_eq!(colorize("Failed"), Style::Red);
    assert_eq!(colorize("Unknown"), Style::Grey);
    assert_eq!(status_display("Failed").text, "✗ Failed");
    assert_eq!(status_display_padded("Failed", 14).text, "✗ Failed      ");
    assert_eq!(pad_then_color("abc", 2, Style::Red).text, "abc");
}

#[test]
fn long_ids_are_clipped() {
    assert_eq!(truncate("short", 24), "short");
    assert_eq!(truncate("äöüäöü", 4), "äöü…");
    assert_eq!(truncate("ab", 0), "…");
}

#[test]
fn status_page_is_sorted_and_aligned() {
    let response = StatusResponse {
        healthy_count: 1,
        degraded_count: 0,
        failed_count: 1,
        unknown_count: 0,
        total_services: 2,
        services: vec![
            summary("zeta-with-a-name-that-is-too-long", "Failed"),
            summary("alpha", "Healthy"),
        ],
    };
    let lines = run_status(response);
    assert_eq!(lines.len(), 5);
    assert_eq!(
        plain(&lines[0]),
        "1 healthy  0 degraded  1 failed  0 unknown  (2 total)"
    );
    assert_eq!(plain(&lines[1]), "─".repeat(88));
    assert_eq!(
        plain(&lines[2]),
        "SERVICE                  STATUS         FAILURES   RESTARTS   LAST CHECK"
    );
    assert_eq!(
        plain(&lines[3]),
        "alpha                    ● Healthy      2          31         never"
    );
    assert_eq!(
        plain(&lines[4]),
        "zeta-with-a-name-that-i… ✗ Failed       2          31         never"
    );
    assert_eq!(lines[3].spans[1].style, Style::Green);
}

#[test]
fn status_layout_keeps_the_order_given() {
    let services = vec![summary("b", "Unknown"), summary("a", "Degraded")];
    let times = vec!["t1".to_string(), "t2".to_string()];
    let lines = layout_status(0, 1, 0, 1, 2, &services, &times);
    assert!(plain(&lines[3]).starts_with("b "));
    assert!(plain(&lines[3]).ends_with(" t1"));
    assert!(plain(&lines[4]).ends_with(" t2"));
}

#[test]
fn detail_page_lists_the_fields() {
    let lines = run_service_detail(&summary("alpha", "Degraded"));
    let text: Vec<String> = lines.iter().map(plain).collect();
    assert_eq!(text[0], "Name of alpha");
    assert_eq!(lines[0].spans[0].style, Style::Bold);
    assert_eq!(text[1], "─".repeat(50));
    assert_eq!(text[2], "Service ID:            alpha");
    assert_eq!(text[3], "Status:                ◐ Degraded");
    assert_eq!(text[4], "Consecutive failures:  2");
    assert_eq!(text[5], "Restart count:         31");
    assert_eq!(text[6], "Last checked:          never");
    assert_eq!(text[7], "Last success:          never");
}

fn check(success: bool, latency_ms: u64, error: Option<&str>) -> HealthCheckRecord {
    HealthCheckRecord {
        success,
        latency_ms,
        checked_at: at(0),
        error: error.map(|e| e.to_string()),
    }
}

#[test]
fn checks_page_shows_the_latest_first() {
    let records: Vec<HealthCheckRecord> = (0..20).map(|i| check(true, i, None)).collect();
    let lines = run_checks(&records, "a");
    assert_eq!(lines.len(), 17);
    assert!(plain(&lines[2]).contains(" 19ms "));
    assert!(plain(&lines[16]).contains(" 5ms "));
}

#[test]
fn checks_rows_show_the_error() {
    let records = vec![check(true, 12, None), check(false, 3, Some("refused"))];
    let times = vec!["now".to_string(), "then".to_string()];
    let lines = layout_checks(&records, "a", &times);
    assert_eq!(
        plain(&lines[0]),
        "TIMESTAMP              RESULT       LATENCY    ERROR"
    );
    assert_eq!(
        plain(&lines[2]),
        "now                    ✗ Failed     —          refused"
    );
    assert_eq!(
        plain(&lines[3]),
        "then                   ✓ Success    12ms       —"
    );
}

#[test]
fn empty_histories_say_so() {
    assert_eq!(plain(&run_checks(&vec![], "a")[0]), "No health check records for 'a'.");
    assert_eq!(plain(&run_alerts(&vec![], "a")[0]), "No alert records for 'a'.");
    assert_eq!(plain(&run_restarts(&vec![], "a")[0]), "No restart records for 'a'.");
}

#[test]
fn alerts_page_has_its_columns() {
    let records = vec![AlertRecord {
        kind: "webhook".to_string(),
        delivered: false,
        trigger: "Unknown→Healthy".to_string(),
        sent_at: at(0),
    }];
    let lines = run_alerts(&records, "a");
    assert_eq!(
        plain(&lines[0]),
        "TIMESTAMP              TRANSITION           KIND       STATUS"
    );
    assert!(plain(&lines[2]).ends_with("    Unknown→Healthy      webhook    Failed    "));
    assert_eq!(lines[2].spans[1].style, Style::Red);
}

#[test]
fn restarts_page_has_its_columns() {
    let records: Vec<RestartRecord> = (1..13)
        .map(|n| RestartRecord {
            attempted_at: at(n as i64),
            succeeded: n % 2 == 0,
            attempt_number: n,
        })
        .collect();
    let lines = run_restarts(&records, "a");
    assert_eq!(lines.len(), 12);
    assert_eq!(plain(&lines[0]), "TIMESTAMP              ATTEMPT #  OUTCOME");
    assert_eq!(plain(&lines[1]), "─".repeat(60));
    assert!(plain(&lines[2]).ends_with("    12         Success   "));
    assert!(plain(&lines[11]).ends_with("    3          Failed    "));
}

#[test]
fn times_have_their_format() {
    assert_eq!(fmt_time(None), "never");
    let shown = fmt_time(Some(at(1_700_000_000)));
    assert_eq!(shown.len(), 19);
    assert!(shown.starts_with("2023-11-1"));
    assert_eq!(&shown[10..11], " ");
    assert_eq!(&shown[13..14], ":");
}

fn sample() -> Line {
    let span = |style: Style, text: &str| Span {
        style,
        text: text.to_string(),
    };
    Line {
        spans: vec![
            span(Style::Plain, "a"),
            span(Style::Green, "b"),
            span(Style::Yellow, "c"),
            span(Style::Red, "d"),
            span(Style::Grey, "e"),
            span(Style::Bold, "f"),
        ],
    }
}

#[test]
fn lines_are_rendered_in_colour() {
    colored::control::set_override(true);
    assert_eq!(
        render(&sample()),
        "a\x1B[32mb\x1B[0m\x1B[33mc\x1B[0m\x1B[31md\x1B[0m\x1B[90me\x1B[0m\x1B[1mf\x1B[0m"
    );
    assert_eq!(render(&error_line("oops")), "\x1B[1;31mError:\x1B[0m oops");
}

#[test]
fn style_goes_on_after_a_styled_piece() {
    colored::control::set_override(true);
    let line = Line {
        spans: vec![Span {
            style: Style::Bold,
            text: "a\x1B[31mb\x1B[0mc\x1B[0".to_string(),
        }],
    };
    assert_eq!(
        render(&line),
        "\x1B[1ma\x1B[31mb\x1B[0m\x1B[1mc\x1B[0\x1B[0m"
    );
}

#[test]
fn lines_are_rendered_without_colour() {
    colored::control::set_override(false);
    assert_eq!(render(&sample()), "abcdef");
    assert_eq!(render(&error_line("oops")), "Error: oops");
}
