//! Tests of the daemon's web interface.

use lora_online::lora_server::backend::ClientCall;
use lora_online::lora_server::daemon_state::DaemonState;
use lora_online::lora_server::page::render_html;
use lora_online::lora_server::version::VERSION;
use lora_online::lora_server::web::{
    build_status, command_answer, competition_answer, route, Method, Route,
};

fn post(url: &str, body: &str) -> Route {
    route(Method::Post, url, body)
}

fn line(r: Route) -> String {
    match r {
        Route::Command { line, .. } => line,
        other => panic!("no command: {:?}", other),
    }
}

fn status(r: Route) -> u16 {
    match r {
        Route::Refuse { status, .. } => status,
        other => panic!("not refused: {:?}", other),
    }
}

#[test]
fn test_status_json_and_testpunch_against_real_server() {
    let mut state = DaemonState::default();
    state.record_heartbeat(10, Some((77, 3850)), Some(true));
    state.record_version(10, "0.1.0+deadbeef".to_string());
    state.push_log("RX 10 -80 HB 77 3850".to_string());

    let page = build_status(10, VERSION, &state, true, None, "evt-1", 0);
    assert_eq!(page.nodes[0].addr, 10);
    assert_eq!(page.nodes[0].battery_pct, Some(77));
    assert_eq!(page.nodes[0].si_present, Some(true));
    assert!(page.radio_ready);
    assert_eq!(page.version, VERSION);
    assert_eq!(page.nodes[0].version.as_deref(), Some("0.1.0+deadbeef"));

    let html = render_html(&page);
    assert!(html.contains("0x000a") || html.contains("0xa"), "HTML was: {html}");
    assert!(html.contains("RX 10 -80 HB 77 3850"), "HTML was: {html}");
    assert!(html.contains("connected"), "HTML was: {html}");
    assert!(html.contains("0.1.0+deadbeef"), "HTML was: {html}");

    assert_eq!(
        line(post("/testpunch", "card_id=555&station=9&time_s=1234")),
        "TESTPUNCH 555 9 1234"
    );
}

#[test]
fn test_send_setdest_cmd_endpoints_drive_command_channel() {
    let mut state = DaemonState::default();
    state.push_log("first".to_string());
    state.push_log("second".to_string());
    let page = build_status(10, VERSION, &state, true, None, "evt-1", 0);
    let mut seqs: Vec<u64> = page.log.iter().map(|l| l.seq).collect();
    seqs.sort();
    assert_eq!(seqs, vec![1, 2]);

    assert_eq!(line(post("/send", "PUNCH 5 123456 31:100")), "SEND PUNCH 5 123456 31:100");
    assert_eq!(line(post("/setdest", "dest=7")), "SET_DEST 7");
    assert_eq!(line(post("/cmd", "target=5&heartbeat_interval_secs=60")), "CMD 5 60");
    assert_eq!(line(post("/queryversion", "target=10")), "QUERYVERSION 10");
}

#[test]
fn test_setcfg_endpoint_drives_command_channel_and_rejects_bad_setting() {
    assert_eq!(line(post("/setcfg", "target=10&setting=sf=11")), "SETCFG 10 sf=11");
    assert_eq!(status(post("/setcfg", "target=10&setting=nonsense=1")), 400);
}

#[test]
fn test_sendbin_endpoint_drives_command_channel_and_rejects_bad_hex() {
    assert_eq!(line(post("/sendbin", "0102ff")), "SENDBIN 0102ff");
    assert_eq!(command_answer(false, true).status, 200);
    assert_eq!(status(post("/sendbin", "not hex")), 400);
}

#[test]
fn test_setcompetitionid_endpoint_changes_live_value() {
    match post("/setcompetitionid", "competition_id=evt-2") {
        Route::SetCompetition(id) => assert_eq!(id, "evt-2"),
        other => panic!("unexpected {:?}", other),
    }
    assert_eq!(competition_answer().status, 200);
    let page = build_status(10, VERSION, &DaemonState::default(), true, None, "evt-2", 0);
    assert_eq!(page.competition_id, "evt-2");
    assert_eq!(status(post("/setcompetitionid", "competition_id=")), 400);
}

#[test]
fn test_clearpunch_and_clearpunches_endpoints_drive_command_channel() {
    assert_eq!(line(post("/clearpunch", "id=42")), "CLEARPUNCH 42");
    assert_eq!(line(post("/clearpunches", "")), "CLEARPUNCHES");
    assert_eq!(status(post("/clearpunch", "id=x")), 400);
}

#[test]
fn test_command_endpoints_503_when_command_channel_receiver_is_gone() {
    for (path, body) in [
        ("/send", "PUNCH 5 123456 31:100"),
        ("/setdest", "dest=7"),
        ("/cmd", "target=5&heartbeat_interval_secs=60"),
        ("/testpunch", "card_id=1&station=2&time_s=3"),
    ] {
        match post(path, body) {
            Route::Command { form, .. } => assert_eq!(command_answer(form, false).status, 503),
            other => panic!("{path} is no command: {:?}", other),
        }
    }
}

#[test]
fn test_http_radio_send_command_reaches_daemon_command_channel() {
    let page = build_status(5, VERSION, &DaemonState::default(), true, None, "", 0);
    assert_eq!(page.own_addr, 5);
    let call = ClientCall::Command { target: 5, heartbeat_interval_secs: 30 };
    assert_eq!(line(post(call.path(), &call.body())), "CMD 5 30");
}

#[test]
fn every_client_call_reaches_the_daemon() {
    let calls = [
        (ClientCall::Send(vec![0xAB]), "SENDBIN ab"),
        (ClientCall::SetDest(7), "SET_DEST 7"),
        (ClientCall::TestPunch { card_id: 1, station: 2, time_s: 3 }, "TESTPUNCH 1 2 3"),
        (ClientCall::ClearPunch(-1), "CLEARPUNCH -1"),
        (ClientCall::ClearPunches, "CLEARPUNCHES"),
    ];
    for (call, expected) in calls {
        assert_eq!(line(post(call.path(), &call.body())), expected);
    }
}

#[test]
fn other_requests_are_shown_or_refused() {
    assert!(matches!(route(Method::Get, "/status.json?x=1", ""), Route::StatusJson));
    assert!(matches!(route(Method::Get, "/", ""), Route::Page));
    assert_eq!(status(route(Method::Get, "/nowhere", "")), 404);
    assert_eq!(status(route(Method::Other, "/", "")), 404);
    assert_eq!(status(post("/cmd", "target=5")), 400);
    assert_eq!(status(post("/testpunch", "card_id=1")), 400);
    assert_eq!(status(post("/send", "")), 400);
}

#[test]
fn ages_count_from_what_they_are_the_age_of() {
    let second = 1_000_000_000;
    let mut state = DaemonState::default();
    state.record_heartbeat_at(10, None, None, 5 * second);
    state.record_punch_at(10, Some(-80), 7 * second);
    state.record_punch_at(11, None, 30 * second);
    state.push_log_at("first".to_string(), 5 * second + 1);
    state.push_log_at("second".to_string(), 8 * second);

    let page = build_status(1, VERSION, &state, true, None, "", 20 * second);
    assert_eq!(page.nodes[0].last_heartbeat_secs_ago, Some(15));
    assert_eq!(page.nodes[0].last_punch_secs_ago, Some(13));
    assert_eq!(page.nodes[1].last_heartbeat_secs_ago, None);
    assert_eq!(page.nodes[1].last_punch_secs_ago, Some(0));
    let ages: Vec<u64> = page.log.iter().map(|l| l.secs_ago).collect();
    assert_eq!(ages, vec![12, 14]);
}
