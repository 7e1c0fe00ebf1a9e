use std::collections::HashMap;

use libfrizz::refresh::{
    commit_date_of, git_copy_is_newer, is_rate_limited, latest_commit_url, nmap_services_request,
    refresh_first_step, refresh_on_answer, refresh_on_commit_date, committer_date_selector,
    latest_commit_selector, RefreshAction,
};
use libfrizz::request::{
    download_path, download_result, downloads_to_file, headers_text, plan_response, request_body,
    text_result, DownloadProgress, ResponsePlan, LARGE_BODY_BYTES,
};
use libfrizz::scan::{
    concurrency_or_default, default_user_agent, is_http_target, ordered_ports, output_suppressed,
    scan_ports, select_method, timeout_or_default, upload_post_data,
};
use libfrizz::services::{
    frizz_dir, service_captures_of, service_table_pattern, try_get_details, try_get_most_common_ports,
    try_get_most_common_ports_with_name,
};
use libfrizz::text::{contains_str, is_exit_command, parse_port, parse_unsigned};
use libfrizz::{
    get_details, get_most_common_ports, get_most_common_ports_with_name, get_service_file,
    get_transport_layer_protocol_name, ExecRequest, TransportLayerProtocol,
};

const TABLE: &str = "# Fields in this file are: Service name, portnum/protocol, open-frequency, optional comments\n\
tcpmux\t1/tcp\t0.001995\t# TCP Port Service Multiplexer [rfc-1078]\n\
compressnet\t2/tcp\t0.000013\t# Management Utility\n\
rje\t5/udp\t0.000000\t# Remote Job Entry\n\
http\t80/tcp\t0.484143\t# World Wide Web HTTP\n\
http\t80/udp\t0.035767\t# World Wide Web HTTP\n\
http\t80/sctp\t0.000000\t# World Wide Web HTTP\n\
www\t80/tcp\t0.000000\t# alias\n\
discard\t9/sctp\t0.000000\n";

fn map(entries: &[(u16, &str)]) -> HashMap<u16, String> {
    entries.iter().map(|(k, v)| (*k, v.to_string())).collect()
}

#[test]
fn test() {
    println!("....");
}

#[test]
fn protocol_names() {
    assert_eq!(get_transport_layer_protocol_name(TransportLayerProtocol::Unspecified), "none");
    assert_eq!(get_transport_layer_protocol_name(TransportLayerProtocol::Sctp), "sctp");
    assert_eq!(get_transport_layer_protocol_name(TransportLayerProtocol::Tcp), "tcp");
    assert_eq!(get_transport_layer_protocol_name(TransportLayerProtocol::Udp), "udp");
}

#[test]
fn pattern_of_protocol() {
    assert_eq!(service_table_pattern(TransportLayerProtocol::Tcp), r"(\w+)\t(\d+)/tcp");
    assert_eq!(service_table_pattern(TransportLayerProtocol::Unspecified), r"(\w+)\t(\d+)/none");
}

#[test]
fn captures_in_table_order() {
    let caps = service_captures_of(TABLE, TransportLayerProtocol::Tcp);
    let expected: Vec<(String, String)> = vec![
        ("tcpmux".to_string(), "1".to_string()),
        ("compressnet".to_string(), "2".to_string()),
        ("http".to_string(), "80".to_string()),
        ("www".to_string(), "80".to_string()),
    ];
    assert_eq!(caps, expected);
}

#[test]
fn names_of_tcp_ports_later_line_wins() {
    let m = get_most_common_ports_with_name(TABLE, TransportLayerProtocol::Tcp);
    assert_eq!(m, map(&[(1, "tcpmux"), (2, "compressnet"), (80, "www")]));
}

#[test]
fn names_of_udp_and_sctp_ports() {
    assert_eq!(get_most_common_ports_with_name(TABLE, TransportLayerProtocol::Udp), map(&[(5, "rje"), (80, "http")]));
    assert_eq!(get_most_common_ports_with_name(TABLE, TransportLayerProtocol::Sctp), map(&[(80, "http"), (9, "discard")]));
    assert!(get_most_common_ports_with_name(TABLE, TransportLayerProtocol::Unspecified).is_empty());
}

#[test]
fn ports_keep_order_and_repeats() {
    assert_eq!(get_most_common_ports(TABLE, TransportLayerProtocol::Tcp), vec![1, 2, 80, 80]);
    assert_eq!(get_most_common_ports(TABLE, TransportLayerProtocol::Udp), vec![5, 80]);
    assert_eq!(get_most_common_ports("", TransportLayerProtocol::Udp), Vec::<u16>::new());
}

#[test]
fn named_ports_are_the_listed_ports() {
    for t in [TransportLayerProtocol::Tcp, TransportLayerProtocol::Udp, TransportLayerProtocol::Sctp] {
        let mut listed = get_most_common_ports(TABLE, t);
        listed.sort();
        listed.dedup();
        let mut named: Vec<u16> = get_most_common_ports_with_name(TABLE, t).keys().copied().collect();
        named.sort();
        assert_eq!(listed, named);
    }
}

#[test]
fn details_prefer_sctp_then_tcp() {
    let d = get_details(TABLE);
    assert_eq!(
        d,
        map(&[
            (1, "tcpmux       tcp"),
            (2, "compressnet       tcp"),
            (5, "rje       udp"),
            (9, "discard       sctp"),
            (80, "http       sctp"),
        ])
    );
}

#[test]
fn port_out_of_range_is_refused() {
    let table = "big\t70000/tcp\nsmall\t7/tcp\n";
    assert!(try_get_most_common_ports_with_name(table, TransportLayerProtocol::Tcp).is_none());
    assert!(try_get_most_common_ports(table, TransportLayerProtocol::Tcp).is_none());
    assert!(try_get_details(table).is_none());
    assert_eq!(try_get_most_common_ports(table, TransportLayerProtocol::Udp), Some(vec![]));
    assert_eq!(try_get_most_common_ports(TABLE, TransportLayerProtocol::Tcp), Some(vec![1, 2, 80, 80]));
    assert_eq!(
        try_get_most_common_ports_with_name(TABLE, TransportLayerProtocol::Udp),
        Some(map(&[(5, "rje"), (80, "http")]))
    );
    assert_eq!(try_get_details("a\t3/udp\n"), Some(map(&[(3, "a       udp")])));
}

#[test]
fn service_file_paths() {
    assert_eq!(get_service_file("/home/user"), "/home/user/.frizz/nmap-services");
    assert_eq!(frizz_dir("/home/user"), "/home/user/.frizz/");
}

#[test]
fn port_parsing_follows_u16_parse() {
    assert_eq!(parse_port("80"), Some(80));
    assert_eq!(parse_port("+80"), Some(80));
    assert_eq!(parse_port("0065535"), Some(65535));
    assert_eq!(parse_port("65536"), None);
    assert_eq!(parse_port(""), None);
    assert_eq!(parse_port("+"), None);
    assert_eq!(parse_port("-1"), None);
    assert_eq!(parse_port("8a"), None);
    assert_eq!(parse_port("\u{0663}"), None);
    for s in ["0", "1", "443", "+7", "65535", "65536", "99999999999", "", "x"] {
        assert_eq!(parse_port(s), s.parse::<u16>().ok());
    }
    assert_eq!(parse_unsigned("18446744073709551615", u64::MAX), Some(u64::MAX));
    assert_eq!(parse_unsigned("18446744073709551616", u64::MAX), None);
}

#[test]
fn exit_command() {
    assert!(is_exit_command("exit\n"));
    assert!(is_exit_command("  EXIT \r\n"));
    assert!(is_exit_command("\u{3000}Exit\u{85}"));
    assert!(!is_exit_command("exit now"));
    assert!(!is_exit_command("exi"));
    assert!(!is_exit_command(""));
}

#[test]
fn substring_search() {
    assert!(contains_str("API rate limit exceeded for 1.2.3.4", "limit exceeded"));
    assert!(!contains_str("limit  exceeded", "limit exceeded"));
    assert!(contains_str("abc", ""));
    assert!(!contains_str("", "a"));
}

#[test]
fn download_file_names() {
    assert_eq!(download_path("http://httpbin.org/get"), "get");
    assert_eq!(download_path("http://httpbin.org/a"), "frizz.out.file");
    assert_eq!(download_path("http://httpbin.org/"), "frizz.out.file");
    assert_eq!(download_path("plain"), "plain");
    assert_eq!(download_path(""), "frizz.out.file");
}

#[test]
fn nmap_download_lands_where_it_is_copied_from() {
    let r = nmap_services_request();
    assert_eq!(download_path(&r.url), "nmap-services");
    assert_eq!(r.user_agent, "frizz");
    assert_eq!(r.http_method, "GET");
    assert!(r.progress_bar && r.disable_cert_validation && r.disable_hostname_validation && !r.verbose);
    assert!(r.post_data.is_empty());
}

#[test]
fn large_bodies_are_streamed() {
    assert!(!downloads_to_file(LARGE_BODY_BYTES, false));
    assert!(downloads_to_file(LARGE_BODY_BYTES + 1, false));
    assert!(downloads_to_file(0, true));
    assert_eq!(LARGE_BODY_BYTES, 104647460);
}

#[test]
fn progress_is_capped_by_total() {
    let mut p = DownloadProgress::new(100);
    assert_eq!(p.advance(40), 40);
    assert_eq!(p.advance(40), 80);
    assert_eq!(p.advance(40), 100);
    assert_eq!(p.advance(0), 100);
    assert_eq!(p.downloaded(), 100);
    assert_eq!(p.total(), 100);
}

fn request(post_data: &str) -> ExecRequest {
    ExecRequest {
        url: "http://httpbin.org/post".to_string(),
        user_agent: "rusty".to_string(),
        verbose: true,
        disable_cert_validation: true,
        disable_hostname_validation: true,
        post_data: post_data.to_string(),
        http_method: "POST".to_string(),
        progress_bar: false,
    }
}

#[test]
fn body_only_when_post_data_given() {
    assert_eq!(request_body(&request("")), None);
    assert_eq!(request_body(&request("hallo")), Some("hallo".to_string()));
}

#[test]
fn response_plans() {
    let mut exec = request("");
    match plan_response(&exec, 10) {
        ResponsePlan::ReadText => {}
        ResponsePlan::StreamToFile { .. } => panic!("a short body is read as text"),
    }
    match plan_response(&exec, LARGE_BODY_BYTES + 1) {
        ResponsePlan::StreamToFile { path, total } => {
            assert_eq!(path, "post");
            assert_eq!(total, LARGE_BODY_BYTES + 1);
        }
        ResponsePlan::ReadText => panic!("a large body is streamed"),
    }
    exec.progress_bar = true;
    exec.url = "http://httpbin.org/x".to_string();
    match plan_response(&exec, 3) {
        ResponsePlan::StreamToFile { path, total } => {
            assert_eq!(path, "frizz.out.file");
            assert_eq!(total, 3);
        }
        ResponsePlan::ReadText => panic!("a progress bar streams the body"),
    }
}

#[test]
fn results_are_formatted() {
    assert_eq!(headers_text("{}"), "Headers:\n{}");
    let r = download_result("200 OK".to_string(), "{}", "get");
    assert_eq!(r.status_code, "200 OK");
    assert_eq!(r.headers, "Headers:\n{}");
    assert_eq!(r.body, "written to ./get");
    let t = text_result("404 Not Found".to_string(), "{}", "nope".to_string());
    assert_eq!(t.body, "nope");
    assert_eq!(t.headers, "Headers:\n{}");
}

#[test]
fn refresh_decisions() {
    assert_eq!(refresh_first_step(false), RefreshAction::Download);
    assert_eq!(refresh_first_step(true), RefreshAction::QueryLatestCommit);
    assert!(is_rate_limited("{\"message\":\"API rate limit exceeded for 1.2.3.4.\"}"));
    assert_eq!(
        refresh_on_answer("{\"message\":\"API rate limit exceeded\"}", 0, 0),
        RefreshAction::RateLimited
    );
    let answer = "[{\"sha\":\"x\",\"commit\":{\"committer\":{\"name\":\"n\",\"date\":\"2021-01-01T00:00:00Z\"}}}]";
    assert_eq!(commit_date_of(answer), Some("2021-01-01T00:00:00Z".to_string()));
    assert_eq!(refresh_on_answer(answer, 1609459199, 999_999_999), RefreshAction::Download);
    assert_eq!(refresh_on_answer(answer, 1609459200, 0), RefreshAction::KeepLocal);
    assert_eq!(refresh_on_answer("not json", 0, 0), RefreshAction::UnreadableAnswer);
    assert_eq!(refresh_on_answer("[]", 0, 0), RefreshAction::UnreadableAnswer);
    assert_eq!(commit_date_of("{}"), None);
    assert_eq!(
        commit_date_of("[{\"commit\":{\"committer\":{\"date\":\"a\\\"b\"}}},{}]"),
        Some("a\"b".to_string())
    );
    assert_eq!(commit_date_of("[{\"commit\":{\"committer\":{\"date\":7}}}]"), None);
}

#[test]
fn answer_decides_download_or_keep() {
    let answer = "[{\"commit\":{\"committer\":{\"date\":\"2021-01-01T00:00:00Z\"}}}]";
    assert_eq!(refresh_on_answer(answer, 1609459200, 1), RefreshAction::KeepLocal);
    assert_eq!(refresh_on_answer(answer, 1609459199, 0), RefreshAction::Download);
    let unreadable = "[{\"commit\":{\"committer\":{\"date\":\"soon\"}}}]";
    assert_eq!(refresh_on_answer(unreadable, 0, 0), RefreshAction::UnreadableAnswer);
}

#[test]
fn udp_line_never_overrides_tcp_or_sctp() {
    let more = format!("{}{}", TABLE, "late\t80/udp\nlate\t1/udp\n");
    let before = get_details(TABLE);
    let after = get_details(&more);
    assert_eq!(before.get(&80), after.get(&80));
    assert_eq!(before.get(&1), after.get(&1));
}

#[test]
fn commit_dates_compare_as_instants() {
    assert_eq!(git_copy_is_newer("2021-01-01T00:00:00Z", 1609459200, 0), Some(false));
    assert_eq!(git_copy_is_newer("2021-01-01T00:00:00.5Z", 1609459200, 0), Some(true));
    assert_eq!(git_copy_is_newer("2021-01-01T01:00:00+02:00", 1609459200, 0), Some(false));
    assert_eq!(git_copy_is_newer("yesterday", 0, 0), None);
    assert_eq!(refresh_on_commit_date("2030-01-01T00:00:00Z", 0, 0), RefreshAction::Download);
    assert_eq!(refresh_on_commit_date("", 0, 0), RefreshAction::UnreadableAnswer);
}

#[test]
fn refresh_constants() {
    assert_eq!(
        latest_commit_url(),
        "https://api.github.com/repos/nmap/nmap/commits?path=nmap-services&page=1&per_page=1"
    );
    assert_eq!(latest_commit_selector(), "[0]");
    assert_eq!(committer_date_selector(), "\"commit\".\"committer\".\"date\"");
}

#[test]
fn scan_ranges() {
    assert_eq!(scan_ports(1, 3), vec![1, 2, 3]);
    assert_eq!(scan_ports(5, 3), Vec::<u16>::new());
    assert_eq!(scan_ports(65534, 65535), vec![65534, 65535]);
    assert_eq!(scan_ports(0, 65535).len(), 65536);
    assert_eq!(ordered_ports(1024, 80), (80, 1024));
    assert_eq!(ordered_ports(80, 1024), (80, 1024));
}

#[test]
fn command_line_defaults() {
    assert_eq!(timeout_or_default("30"), 30);
    assert_eq!(timeout_or_default("abc"), 1);
    assert_eq!(concurrency_or_default("16"), 16);
    assert_eq!(concurrency_or_default("-3"), 1024);
    assert_eq!(default_user_agent("0.1.0"), "frizz / 0.1.0");
    assert_eq!(upload_post_data("a.txt"), "@a.txt");
    assert!(is_http_target("http://httpbin.org/get"));
    assert!(is_http_target("https://x"));
    assert!(!is_http_target("example.net"));
    assert!(!is_http_target("htt"));
}

#[test]
fn method_selection() {
    assert_eq!(select_method(None, false, false), "GET");
    assert_eq!(select_method(None, true, false), "POST");
    assert_eq!(select_method(Some("GET"), true, false), "POST");
    assert_eq!(select_method(Some("get"), true, false), "get");
    assert_eq!(select_method(Some("TRACE"), false, false), "TRACE");
    assert_eq!(select_method(Some("DELETE"), true, true), "PUT");
}

#[test]
fn failed_status_suppresses_output() {
    assert!(output_suppressed(true, "404 Not Found"));
    assert!(!output_suppressed(true, "200 OK"));
    assert!(!output_suppressed(false, "404 Not Found"));
}
