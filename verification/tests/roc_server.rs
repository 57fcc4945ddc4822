//! Tests of the results server and of the plain one.

use lora_online::env_file::parse_env_file;
use lora_online::html::{html_escape, pill};
use lora_online::lora_output;
use lora_online::lora_server::version::VERSION;
use lora_online::roc_server::activity::{ActivityState, LOG_CAPACITY};
use lora_online::roc_server::dashboard::{
    aged, build_dashboard, render_dashboard, Dashboard, LogLine, SourceRow,
};
use lora_online::roc_server::http::{
    competition_id_from_mip_request, competition_id_from_roc_request, competition_id_ok,
    handle_mip, handle_punches, handle_roc, last_id_from_request, query_param, route, Answer,
    Endpoint, Header, Kind, Method, PunchPush,
};
use lora_online::roc_server::mip::{all_times_fit, render_mip_xml};
use lora_online::roc_server::roc::render_roc_text;
use lora_online::roc_server::store::{RawRow, Store, StoredPunch};

#[test]
fn test_competition_id_ok_when_unconfigured_accepts_anything() {
    assert!(competition_id_ok(&None, None));
    assert!(competition_id_ok(&None, Some("anything")));
}

#[test]
fn test_competition_id_ok_requires_exact_match_when_configured() {
    let expected = Some("evt-42".to_string());
    assert!(competition_id_ok(&expected, Some("evt-42")));
    assert!(!competition_id_ok(&expected, Some("evt-43")));
    assert!(!competition_id_ok(&expected, None));
}

#[test]
fn test_competition_id_from_roc_request_reads_unit_id_query_param() {
    assert_eq!(
        competition_id_from_roc_request("/roc?unitId=evt-42&lastId=0"),
        Some("evt-42".to_string())
    );
    assert_eq!(competition_id_from_roc_request("/roc?lastId=0"), None);
}

fn competition(id: &str) -> Vec<Header> {
    vec![Header { field: "competition".to_string(), value: id.to_string() }]
}

fn mip(store: &Store, headers: &Vec<Header>, expected: &Option<String>) -> Answer {
    handle_mip(headers, "/mip", store, &mut ActivityState::default(), expected)
}

fn roc(store: &Store, url: &str, expected: &Option<String>) -> Answer {
    handle_roc(url, store, &mut ActivityState::default(), expected, "2026-08-31")
}

#[test]
fn test_endpoints_reject_wrong_competition_id_when_configured() {
    let mut store = Store::new();
    store.record(123456, 31, 100, "local", "evt-42").unwrap();
    let expected = Some("evt-42".to_string());

    assert_eq!(mip(&store, &competition("evt-99"), &expected).status, 403);
    assert_eq!(mip(&store, &competition("evt-42"), &expected).status, 200);
    assert_eq!(roc(&store, "/roc?unitId=evt-99&lastId=0", &expected).status, 403);
    assert_eq!(roc(&store, "/roc?unitId=evt-42&lastId=0", &expected).status, 200);
}

#[test]
fn test_endpoints_accept_any_competition_id_when_unconfigured() {
    let store = Store::new();
    assert_eq!(mip(&store, &vec![], &None).status, 200);
    assert_eq!(mip(&store, &competition("whatever"), &None).status, 200);
    assert_eq!(roc(&store, "/roc?lastId=0", &None).status, 200);
    assert_eq!(roc(&store, "/roc?unitId=whatever&lastId=0", &None).status, 200);
}

#[test]
fn test_roc_endpoint_reports_time_of_day_from_punch_time_s_not_receipt_time() {
    let mut store = Store::new();
    store.record(123456, 31, 36070, "local", "").unwrap();
    let body = roc(&store, "/roc?lastId=0", &None).body;
    assert!(
        body.ends_with("10:01:10"),
        "expected time-of-day derived from time_s=36070, got: {body}"
    );
}

#[test]
fn test_status_json_reports_own_version() {
    let d = build_dashboard(VERSION, &ActivityState::default(), None, 0);
    assert_eq!(d.version, VERSION);
}

#[test]
fn test_record_source_tracks_count_and_last_seen() {
    let mut state = ActivityState::default();
    state.record_source("local");
    state.record_source("local");
    state.record_source("10");

    assert_eq!(state.source("local").unwrap().punch_count, 2);
    assert_eq!(state.source("10").unwrap().punch_count, 1);
    assert!(state.source("local").unwrap().last_seen.is_some());
    assert!(state.source("nobody").is_none());
}

#[test]
fn activity_test_push_log_evicts_oldest_past_capacity() {
    let mut state = ActivityState::default();
    for i in 0..LOG_CAPACITY + 3 {
        state.push_log(format!("entry {i}"));
    }
    assert_eq!(state.log.len(), LOG_CAPACITY);
    assert_eq!(state.log.front().unwrap().line, "entry 3");
}

#[test]
fn mip_test_render_empty() {
    let xml = render_mip_xml(0, &[]);
    assert_eq!(
        xml,
        "<?xml version=\"1.0\" encoding=\"utf-8\"?>\n<MIPData lastid=\"0\">\n</MIPData>\n"
    );
}

#[test]
fn test_survives_meos_first_gt_discard() {
    let punches = vec![StoredPunch { id: 1, card_id: 42, station: 31, time_s: 100 }];
    let xml = render_mip_xml(1, &punches);
    let first_gt = xml.find('>').expect("no '>' in output at all");
    let after_discard = &xml[first_gt + 1..];
    assert!(
        after_discard.trim_start().starts_with("<MIPData"),
        "MEOS would discard the <MIPData> opening tag itself: {after_discard:?}"
    );
    assert!(
        after_discard.contains("</MIPData>"),
        "closing tag missing after discard: {after_discard:?}"
    );
}

#[test]
fn test_render_punches_uses_tenths_of_second() {
    let punches = vec![StoredPunch { id: 5, card_id: 123456, station: 31, time_s: 36070 }];
    let xml = render_mip_xml(5, &punches);
    assert!(xml.contains("lastid=\"5\""));
    assert!(xml.contains("card=\"123456\""));
    assert!(xml.contains("code=\"31\""));
    assert!(xml.contains("time=\"360700\""));
}

#[test]
fn test_render_does_not_regress_to_wrong_attribute_name() {
    let punches = vec![StoredPunch { id: 1, card_id: 1, station: 31, time_s: 0 }];
    let xml = render_mip_xml(1, &punches);
    assert!(!xml.contains("control="), "MEOS's parser doesn't read a `control` attribute at all");
}

#[test]
fn test_render_multiple_punches_in_order() {
    let punches = vec![
        StoredPunch { id: 1, card_id: 1, station: 1, time_s: 100 },
        StoredPunch { id: 2, card_id: 2, station: 2, time_s: 200 },
    ];
    let xml = render_mip_xml(2, &punches);
    let first = xml.find("card=\"1\"").unwrap();
    let second = xml.find("card=\"2\"").unwrap();
    assert!(first < second);
}

#[test]
fn times_that_do_not_fit_tenths_are_seen() {
    let p = |time_s| StoredPunch { id: 1, card_id: 1, station: 1, time_s };
    assert!(all_times_fit(&[p(86_400), p(429_496_729)]));
    assert!(!all_times_fit(&[p(86_400), p(429_496_730)]));
}

#[test]
fn roc_test_render_empty() {
    assert_eq!(render_roc_text(&[], "2026-08-31"), "");
}

#[test]
fn test_render_single_punch() {
    let punches = vec![StoredPunch { id: 7, card_id: 123456, station: 31, time_s: 36070 }];
    let text = render_roc_text(&punches, "2026-08-31");
    assert_eq!(text, "7;31;123456;2026-08-31 10:01:10");
}

#[test]
fn test_render_multiple_punches_newline_separated() {
    let punches = vec![
        StoredPunch { id: 1, card_id: 1, station: 1, time_s: 100 },
        StoredPunch { id: 2, card_id: 2, station: 2, time_s: 200 },
    ];
    let text = render_roc_text(&punches, "2026-08-31");
    assert_eq!(text, "1;1;1;2026-08-31 00:01:40\n2;2;2;2026-08-31 00:03:20");
}

#[test]
fn test_time_of_day_matches_mips_encoding_of_the_same_time_s() {
    let time_s = 36070u32;
    let punches = vec![StoredPunch { id: 1, card_id: 1, station: 1, time_s }];
    let roc_text = render_roc_text(&punches, "2026-08-31");

    let mip_xml = render_mip_xml(1, &punches);
    let mip_tenths: u32 = mip_xml
        .split("time=\"")
        .nth(1)
        .and_then(|s| s.split('"').next())
        .and_then(|s| s.parse().ok())
        .unwrap();
    let mip_seconds = mip_tenths / 10;
    let expected_hms = format!(
        "{:02}:{:02}:{:02}",
        mip_seconds / 3600,
        (mip_seconds % 3600) / 60,
        mip_seconds % 60
    );

    assert!(
        roc_text.ends_with(&expected_hms),
        "roc_text was: {roc_text}, expected time-of-day {expected_hms}"
    );
}

#[test]
fn test_record_and_since() {
    let mut store = Store::new();
    store.record(111, 33, 36070, "local", "evt-1").unwrap();
    store.record(222, 50, 37300, "192.168.1.5", "evt-1").unwrap();

    let all = store.since(0, "evt-1");
    assert_eq!(all.len(), 2);
    assert_eq!(all[0].card_id, 111);
    assert_eq!(all[1].card_id, 222);
}

#[test]
fn test_since_only_returns_matching_competition_id() {
    let mut store = Store::new();
    store.record(111, 33, 36070, "local", "evt-2024").unwrap();
    store.record(222, 50, 37300, "local", "evt-2025").unwrap();

    let evt_2024 = store.since(0, "evt-2024");
    assert_eq!(evt_2024.len(), 1);
    assert_eq!(evt_2024[0].card_id, 111);

    let evt_2025 = store.since(0, "evt-2025");
    assert_eq!(evt_2025.len(), 1);
    assert_eq!(evt_2025[0].card_id, 222);
}

fn raw(id: i64, card_id: i64, station: i64, competition: &str) -> RawRow {
    RawRow {
        id,
        card_id,
        station,
        time_s: 100,
        source: "local".to_string(),
        competition_id: competition.to_string(),
    }
}

#[test]
fn test_since_excludes_legacy_rows_with_empty_competition_id() {
    let mut store = Store::restore(&vec![raw(1, 999, 1, "")], 2);
    store.record(1, 1, 200, "local", "evt-2025").unwrap();

    let card_ids: Vec<u32> = store.since(0, "evt-2025").iter().map(|p| p.card_id).collect();
    assert_eq!(
        card_ids,
        vec![1],
        "legacy row (empty competition_id) leaked into a real competition's results"
    );
}

#[test]
fn test_since_skips_corrupt_row_without_losing_other_rows() {
    let rows = vec![raw(1, 1, 1, "evt-1"), raw(2, 2, 99_999, "evt-1"), raw(3, 3, 3, "evt-1")];
    let store = Store::restore(&rows, 4);
    let card_ids: Vec<u32> = store.since(0, "evt-1").iter().map(|p| p.card_id).collect();
    assert_eq!(card_ids, vec![1, 3]);
}

#[test]
fn store_survives_a_restart() {
    let mut store = Store::new();
    store.record(7, 31, 36070, "local", "evt-1").unwrap();
    store.record(u32::MAX, u8::MAX, u32::MAX, "10", "").unwrap();
    let disk: Vec<RawRow> = store
        .rows
        .iter()
        .map(|r| RawRow {
            id: r.punch.id,
            card_id: r.punch.card_id as i64,
            station: r.punch.station as i64,
            time_s: r.punch.time_s as i64,
            source: r.source.clone(),
            competition_id: r.competition_id.clone(),
        })
        .collect();

    let again = Store::restore(&disk, store.next_id);
    assert_eq!(format!("{again:?}"), format!("{store:?}"));
}

#[test]
fn test_since_only_returns_newer() {
    let mut store = Store::new();
    let id1 = store.record(1, 1, 100, "local", "evt-1").unwrap();
    store.record(2, 1, 200, "local", "evt-1").unwrap();

    let newer = store.since(id1, "evt-1");
    assert_eq!(newer.len(), 1);
    assert_eq!(newer[0].card_id, 2);
}

#[test]
fn requests_are_routed() {
    assert_eq!(route(Method::Post, "/punches"), Endpoint::Punches);
    assert_eq!(route(Method::Get, "/mip?lastid=3"), Endpoint::Mip);
    assert_eq!(route(Method::Get, "/roc"), Endpoint::Roc);
    assert_eq!(route(Method::Get, "/punches"), Endpoint::Unknown);
    assert_eq!(route(Method::Other, "/mip"), Endpoint::Unknown);
    assert_eq!(lora_output::route(Method::Get, "/mip"), Endpoint::Mip);
    assert_eq!(lora_output::route(Method::Get, "/status.json"), Endpoint::Unknown);
}

#[test]
fn last_number_comes_from_the_header_or_the_url() {
    let header = vec![Header { field: "lastid".to_string(), value: "7".to_string() }];
    assert_eq!(last_id_from_request(&header, "/mip?lastid=3"), 7);
    assert_eq!(last_id_from_request(&vec![], "/mip?lastid=3"), 3);
    assert_eq!(last_id_from_request(&vec![], "/mip"), 0);
    assert_eq!(query_param("/roc?a=1&b=2", "b"), Some("2".to_string()));
    assert_eq!(competition_id_from_mip_request(&competition("x")), Some("x".to_string()));
}

fn push(competition: &str) -> Option<PunchPush> {
    Some(PunchPush {
        card_id: 7,
        station: 31,
        time_s: 36070,
        source: "local".to_string(),
        competition_id: competition.to_string(),
    })
}

#[test]
fn pushed_punches_are_recorded_for_their_competition_only() {
    let mut store = Store::new();
    let mut activity = ActivityState::default();
    let expected = Some("evt-42".to_string());
    let bad = handle_punches(None, &mut store, &mut activity, &expected);
    assert_eq!((bad.status, bad.body.as_str()), (400, "invalid json"));
    let wrong = handle_punches(push("evt-43"), &mut store, &mut activity, &expected);
    assert_eq!(wrong.status, 403);
    assert!(store.since(0, "evt-43").is_empty());
    let ok = handle_punches(push("evt-42"), &mut store, &mut activity, &expected);
    assert_eq!(ok.status, 200);
    assert_eq!(store.since(0, "evt-42").len(), 1);
    assert_eq!(activity.source("local").unwrap().punch_count, 1);
    assert!(!activity.log.is_empty());
}

#[test]
fn polled_xml_carries_the_cursor() {
    let mut store = Store::new();
    store.record(7, 31, 36070, "local", "").unwrap();
    store.record(8, 32, 36080, "local", "").unwrap();
    let headers = vec![Header { field: "LastId".to_string(), value: "1".to_string() }];
    let a = handle_mip(&headers, "/mip", &store, &mut ActivityState::default(), &None);
    assert_eq!(a.kind, Kind::Xml);
    assert!(a.body.contains("<MIPData lastid=\"2\">"));
    assert!(!a.body.contains("card=\"7\""));
    assert!(a.body.contains("card=\"8\""));
}

#[test]
fn taken_punch_is_given_to_the_next_poll() {
    let mut store = Store::new();
    let mut activity = ActivityState::default();
    let expected = Some("evt-42".to_string());
    store.record(1, 1, 100, "local", "evt-41").unwrap();
    let push = PunchPush {
        card_id: 7,
        station: 31,
        time_s: 36070,
        source: "10".to_string(),
        competition_id: "evt-42".to_string(),
    };
    assert_eq!(handle_punches(Some(push), &mut store, &mut activity, &expected).status, 200);
    let a = handle_roc("/roc?unitId=evt-42&lastId=0", &store, &mut activity, &expected, "2026-08-31");
    assert_eq!(a.body, "2;31;7;2026-08-31 10:01:10");
}

#[test]
fn plain_server_knows_no_competitions() {
    let mut store = Store::new();
    let p = lora_output::PunchPush {
        card_id: 7,
        station: 31,
        time_s: 36070,
        source: "local".to_string(),
    };
    assert_eq!(lora_output::handle_punches(Some(p), &mut store).status, 200);
    assert_eq!(lora_output::handle_punches(None, &mut store).status, 400);
    let a = lora_output::handle_mip(&vec![], "/mip", &store);
    assert!(a.body.contains("card=\"7\""));
    let a = lora_output::handle_roc("/roc?lastId=0", &store, "2026-08-31");
    assert_eq!(a.body, "1;31;7;2026-08-31 10:01:10");
    assert_eq!(lora_output::handle_roc("/roc?lastId=1", &store, "2026-08-31").body, "");
}

#[test]
fn dashboard_shows_sources_and_log() {
    let mut state = ActivityState::default();
    state.record_source("local");
    state.record_source("10");
    state.push_log("first".to_string());
    state.push_log("second".to_string());
    let d = build_dashboard("1.0+x", &state, Some(true), 0);
    assert_eq!(d.lora_reachable, Some(true));
    let names: Vec<&str> = d.sources.iter().map(|s| s.source.as_str()).collect();
    assert_eq!(names, vec!["10", "local"]);
    assert_eq!(d.log[0].line, "second");
    let page = render_dashboard(&Dashboard {
        version: "1.0+x".to_string(),
        lora_reachable: None,
        sources: vec![SourceRow {
            source: "<local>".to_string(),
            last_seen_secs_ago: Some(5),
            punch_count: 3,
        }],
        log: vec![LogLine { secs_ago: 4, line: "a & b".to_string() }],
    });
    assert!(page.contains("1.0+x"));
    assert!(page.contains("&lt;local&gt;"));
    assert!(page.contains("a &amp; b"));
    assert_eq!(aged(&LogLine { secs_ago: 4, line: "x".to_string() }), "[-4s] x");
}

#[test]
fn text_stands_in_html_as_it_is() {
    assert_eq!(html_escape("<a & b>"), "&lt;a &amp; b&gt;");
    assert!(pill(true, "up").contains("up"));
}

#[test]
fn environment_file_is_read_line_by_line() {
    let vars = parse_env_file("# comment\n\nA=1\n B = two words \nbroken\nC=\n");
    assert_eq!(vars[0], ("A".to_string(), "1".to_string()));
    assert_eq!(vars[1], ("B".to_string(), "two words".to_string()));
    assert!(vars.iter().all(|(k, _)| k != "broken"));
}

#[test]
fn ages_of_sources_and_lines_count_from_their_times() {
    let second = 1_000_000_000;
    let mut state = ActivityState::default();
    state.record_source_at("local", 3 * second);
    state.record_source_at("10", 4 * second);
    state.record_source_at("local", 6 * second);
    state.push_log_at("line".to_string(), 5 * second + 1);
    let d = build_dashboard("v", &state, None, 10 * second);
    let seen: Vec<Option<u64>> = d.sources.iter().map(|s| s.last_seen_secs_ago).collect();
    assert_eq!(seen, vec![Some(6), Some(4)]);
    assert_eq!(aged(&d.log[0]), "[-4s] line");
}
