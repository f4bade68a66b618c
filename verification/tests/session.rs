use evertext_session::buffer::{RollingBuffer, BUFFER_CAP};
use evertext_session::driver::{handle_frame, FrameAction, SETTLE_DELAY_MS};
use evertext_session::engine::TriggerEngine;
use evertext_session::frames::{
    classify_frame, encode_input_frame, join_frame, pong_frame, retry_start_frame, start_frame,
    stop_frame, FrameKind,
};
use evertext_session::json::{parse_open_frame, DEFAULT_PING_MS};
use evertext_session::outcome::{CloseReason, RunMode, SessionOutcome};
use evertext_session::select::select_server;
use evertext_session::supervisor::{supervise, Supervision};

fn cv(s: &str) -> Vec<char> {
    s.chars().collect()
}

fn sv(v: &[char]) -> String {
    v.iter().collect()
}

fn engine(mode: RunMode, target: Option<&str>, code: &str) -> TriggerEngine {
    TriggerEngine::new(mode, target.map(cv), cv(code)).expect("engine")
}

#[test]
fn buffer_stays_under_cap() {
    let mut b = RollingBuffer::new();
    let chunk = cv(&"x".repeat(3000));
    for _ in 0..5 {
        b.append(&chunk);
        assert!(b.len() <= BUFFER_CAP);
    }
    assert_eq!(b.len(), BUFFER_CAP);
}

#[test]
fn buffer_keeps_last_characters() {
    let mut b = RollingBuffer::new();
    b.append(&cv(&"a".repeat(BUFFER_CAP - 1)));
    b.append(&cv("bcd"));
    assert_eq!(b.len(), BUFFER_CAP);
    let s = sv(b.as_slice());
    assert!(s.starts_with("aaa"));
    assert!(s.ends_with("bcd"));
}

#[test]
fn buffer_truncation_counts_characters_not_bytes() {
    let mut b = RollingBuffer::new();
    b.append(&cv(&"é".repeat(BUFFER_CAP)));
    b.append(&cv("z"));
    assert_eq!(b.len(), BUFFER_CAP);
    assert_eq!(b.as_slice()[0], 'é');
    assert_eq!(b.as_slice()[BUFFER_CAP - 1], 'z');
}

#[test]
fn command_prompt_daily_sends_d() {
    let mut e = engine(RunMode::Daily, None, "c0de");
    let (cmds, out) = e.on_output(&cv("Enter Command to use"));
    assert_eq!(cmds.len(), 1);
    assert_eq!(sv(&cmds[0]), "d");
    assert_eq!(out, None);
}

#[test]
fn command_prompt_handout_sends_ho() {
    let mut e = engine(RunMode::Handout, None, "c0de");
    let (cmds, out) = e.on_output(&cv("Enter Command to use"));
    assert_eq!(cmds.len(), 1);
    assert_eq!(sv(&cmds[0]), "ho");
    assert_eq!(out, None);
}

#[test]
fn mode_independent_rule_same_in_both_modes() {
    for mode in [RunMode::Daily, RunMode::Handout] {
        let mut e = engine(mode, None, "c0de");
        let (cmds, out) = e.on_output(&cv("DO U WANT TO REFILL MANA"));
        assert_eq!(cmds.len(), 1);
        assert_eq!(sv(&cmds[0]), "y");
        assert_eq!(out, None);
    }
}

#[test]
fn consumed_prompt_does_not_refire() {
    let mut e = engine(RunMode::Daily, None, "c0de");
    let (cmds, _) = e.on_output(&cv("xx Enter Command to use yy"));
    assert_eq!(cmds.len(), 1);
    let (cmds2, out2) = e.on_output(&cv(""));
    assert_eq!(cmds2.len(), 0);
    assert_eq!(out2, None);
    let (cmds3, _) = e.on_output(&cv(" to use"));
    assert_eq!(cmds3.len(), 0);
}

#[test]
fn chunked_prompt_fires_exactly_once() {
    let mut e = engine(RunMode::Daily, None, "s3cret");
    let (cmds1, _) = e.on_output(&cv("Enter Restore c"));
    assert_eq!(cmds1.len(), 0);
    let (cmds2, out2) = e.on_output(&cv("ode"));
    assert_eq!(cmds2.len(), 1);
    assert_eq!(sv(&cmds2[0]), "s3cret");
    assert_eq!(out2, None);
    let (cmds3, _) = e.on_output(&cv(""));
    assert_eq!(cmds3.len(), 0);
}

#[test]
fn server_selection_picks_first_matching_entry() {
    let list = cv("1-->nodeA(Alpha)\n2-->nodeB(Beta)\n3-->nodeC(Beta)\n");
    assert_eq!(sv(&select_server(&list, &cv("Beta"))), "2");
    assert_eq!(sv(&select_server(&list, &cv("Alpha"))), "1");
}

#[test]
fn server_selection_defaults_to_one() {
    let list = cv("1-->nodeA(Alpha)\n2-->nodeB(Beta)\n");
    assert_eq!(sv(&select_server(&list, &cv("Gamma"))), "1");
    assert_eq!(sv(&select_server(&cv("no entries here"), &cv("Beta"))), "1");
}

#[test]
fn server_selection_all_picks_all_of_them() {
    let list = cv("1-->nodeA(Alpha)\n7-->every(All of them)\n");
    assert_eq!(sv(&select_server(&list, &cv("ALL"))), "7");
    assert_eq!(sv(&select_server(&list, &cv("all"))), "7");
}

#[test]
fn server_selection_case_sensitive_target() {
    let list = cv("1-->nodeA(alpha)\n2-->nodeB(Alpha)\n");
    assert_eq!(sv(&select_server(&list, &cv("Alpha"))), "2");
}

#[test]
fn server_prompt_sends_index_for_configured_target() {
    let mut e = engine(RunMode::Daily, Some("Beta"), "c0de");
    let (cmds, out) = e.on_output(&cv(
        "Which acc u want to Login\n1-->nodeA(Alpha)\n2-->nodeB(Beta)\n",
    ));
    assert_eq!(cmds.len(), 1);
    assert_eq!(sv(&cmds[0]), "2");
    assert_eq!(out, None);
}

#[test]
fn server_prompt_ignored_without_target() {
    let mut e = engine(RunMode::Daily, None, "c0de");
    let (cmds, _) = e.on_output(&cv("Which acc u want to Login\n1-->nodeA(Alpha)\n"));
    assert_eq!(cmds.len(), 0);
    let mut d = engine(RunMode::Daily, Some("Default"), "c0de");
    let (cmds2, _) = d.on_output(&cv("Which acc u want to Login\n1-->nodeA(Alpha)\n"));
    assert_eq!(cmds2.len(), 0);
}

#[test]
fn mana_prompt_handout_flag_sequence() {
    let mut e = engine(RunMode::Handout, None, "c0de");
    let (cmds1, _) = e.on_output(&cv("Press y to spend mana on event stages"));
    assert_eq!(cmds1.len(), 1);
    assert_eq!(sv(&cmds1[0]), "ho");
    let (cmds2, _) = e.on_output(&cv("Press y to spend mana on event stages"));
    assert_eq!(cmds2.len(), 1);
    assert_eq!(sv(&cmds2[0]), "y");
}

#[test]
fn next_prompt_auto_then_exit() {
    let mut e = engine(RunMode::Daily, None, "c0de");
    let (cmds1, _) = e.on_output(&cv("next: Go to the next event"));
    assert_eq!(cmds1.len(), 1);
    assert_eq!(sv(&cmds1[0]), "auto");
    let (cmds2, _) = e.on_output(&cv("next: Go to the next event"));
    assert_eq!(cmds2.len(), 1);
    assert_eq!(sv(&cmds2[0]), "exit");
}

#[test]
fn potion_prompts_send_fixed_choices() {
    let mut e = engine(RunMode::Daily, None, "c0de");
    let (cmds, _) = e.on_output(&cv(
        "Enter 1, 2 or 3 to select potion and number of stam100 potions to refill",
    ));
    assert_eq!(cmds.len(), 2);
    assert_eq!(sv(&cmds[0]), "3");
    assert_eq!(sv(&cmds[1]), "1");
}

#[test]
fn completion_with_keyword_ends_session() {
    let mut e = engine(RunMode::Daily, None, "c0de");
    let (cmds, out) = e.on_output(&cv("SUCCESS! Press y to perform more commands"));
    assert_eq!(cmds.len(), 0);
    assert_eq!(out, Some(SessionOutcome::SessionComplete));
}

#[test]
fn completion_without_confirmation_retries() {
    let mut e = engine(RunMode::Daily, None, "c0de");
    let (cmds, out) = e.on_output(&cv("Press y to perform more commands"));
    assert_eq!(cmds.len(), 1);
    assert_eq!(sv(&cmds[0]), "y");
    assert_eq!(out, None);
}

#[test]
fn completion_with_flag_ends_session() {
    let mut e = engine(RunMode::Daily, None, "c0de");
    let (_, _) = e.on_output(&cv("next: Go to the next event"));
    let (cmds, out) = e.on_output(&cv("Press y to perform more commands"));
    assert_eq!(cmds.len(), 0);
    assert_eq!(out, Some(SessionOutcome::SessionComplete));
}

#[test]
fn error_scans_are_terminal() {
    let cases = [
        ("Zigza error", SessionOutcome::ZigzaDetected),
        ("Incorrect Restore Code", SessionOutcome::ZigzaDetected),
        (
            "maximum limit of restore accounts",
            SessionOutcome::ServerFull,
        ),
        (
            "restricted only for logged in users",
            SessionOutcome::LoginRequired,
        ),
    ];
    for (text, outcome) in cases {
        let mut e = engine(RunMode::Daily, None, "c0de");
        let (_, out) = e.on_output(&cv(text));
        assert_eq!(out, Some(outcome));
    }
}

#[test]
fn invalid_command_needs_both_phrases() {
    let mut e = engine(RunMode::Daily, None, "c0de");
    let (_, out1) = e.on_output(&cv("Invalid Command"));
    assert_eq!(out1, None);
    let (_, out2) = e.on_output(&cv("Exiting Now"));
    assert_eq!(out2, Some(SessionOutcome::InvalidCommandRestart));
}

#[test]
fn empty_code_is_rejected_upfront() {
    match TriggerEngine::new(RunMode::Daily, None, Vec::new()) {
        Err(o) => assert_eq!(o, SessionOutcome::MissingCode),
        Ok(_) => panic!("empty code accepted"),
    }
}

#[test]
fn open_frame_parses_sid_and_ping() {
    let (sid, ping) = parse_open_frame(&cv("0{\"sid\":\"abc\",\"pingInterval\":25000}")).unwrap();
    assert_eq!(sv(&sid), "abc");
    assert_eq!(ping, 25000);
}

#[test]
fn open_frame_defaults_ping() {
    let (sid, ping) = parse_open_frame(&cv("0{\"sid\":\"s1\"}")).unwrap();
    assert_eq!(sv(&sid), "s1");
    assert_eq!(ping, DEFAULT_PING_MS);
    let (_, ping2) = parse_open_frame(&cv("0{\"sid\":\"s1\",\"pingInterval\":2.5e4}")).unwrap();
    assert_eq!(ping2, DEFAULT_PING_MS);
}

#[test]
fn open_frame_rejects_bad_frames() {
    for text in [
        "3probe",
        "0{\"pingInterval\":25000}",
        "0{\"sid\":17}",
        "0{\"sid\":\"abc\"",
        "0{\"sid\":\"abc\"} trailing",
        "0[\"sid\",\"abc\"]",
        "",
    ] {
        match parse_open_frame(&cv(text)) {
            Err(o) => assert_eq!(o, SessionOutcome::HandshakeFailed),
            Ok(_) => panic!("accepted bad frame {text}"),
        }
    }
}

#[test]
fn open_frame_decodes_escaped_sid() {
    let (sid, _) = parse_open_frame(&cv("0{\"sid\":\"\\u0041b\\n\"}")).unwrap();
    assert_eq!(sv(&sid), "Ab\n");
}

#[test]
fn open_frame_tolerates_unknown_fields() {
    let text = "0{\"sid\":\"x\",\"upgrades\":[\"websocket\"],\"pingTimeout\":20000,\
                \"maxPayload\":1000000,\"pingInterval\":30000}";
    let (sid, ping) = parse_open_frame(&cv(text)).unwrap();
    assert_eq!(sv(&sid), "x");
    assert_eq!(ping, 30000);
}

#[test]
fn frame_classification() {
    assert_eq!(classify_frame(&cv("2")), FrameKind::Ping);
    assert_eq!(classify_frame(&cv("40")), FrameKind::NamespaceJoin);
    assert_eq!(classify_frame(&cv("40/nsp")), FrameKind::NamespaceJoin);
    assert_eq!(classify_frame(&cv("42[\"x\"]")), FrameKind::Event);
    assert_eq!(classify_frame(&cv("3")), FrameKind::Other);
    assert_eq!(classify_frame(&cv("")), FrameKind::Other);
}

#[test]
fn outbound_frames_have_exact_shapes() {
    assert_eq!(sv(&join_frame()), "40");
    assert_eq!(sv(&pong_frame()), "3");
    assert_eq!(sv(&stop_frame()), "42[\"stop\",{}]");
    assert_eq!(sv(&start_frame()), "42[\"start\",{}]");
    assert_eq!(sv(&retry_start_frame()), "42[\"start\",{\"args\":\"\"}]");
    assert_eq!(sv(&encode_input_frame(&cv("d"))), "42[\"input\",{\"input\":\"d\"}]");
}

#[test]
fn input_frame_escapes_command_text() {
    let frame = encode_input_frame(&cv("a\"b\\c\nd\u{1}"));
    assert_eq!(
        sv(&frame),
        "42[\"input\",{\"input\":\"a\\\"b\\\\c\\nd\\u0001\"}]"
    );
}

#[test]
fn driver_routes_ping_and_join() {
    let mut e = engine(RunMode::Daily, None, "c0de");
    let (a1, m1) = handle_frame(&mut e, &cv("2"));
    assert!(matches!(a1, FrameAction::Pong));
    assert!(!m1);
    let (a2, _) = handle_frame(&mut e, &cv("40"));
    assert!(matches!(a2, FrameAction::Initialize));
    assert_eq!(SETTLE_DELAY_MS, 1500);
}

#[test]
fn driver_feeds_output_event_to_engine() {
    let mut e = engine(RunMode::Daily, None, "c0de");
    let (action, marks) = handle_frame(&mut e, &cv("42[\"output\",{\"data\":\"Enter Command to use\"}]"));
    assert!(marks);
    match action {
        FrameAction::Engine(cmds, out) => {
            assert_eq!(cmds.len(), 1);
            assert_eq!(sv(&cmds[0]), "d");
            assert_eq!(out, None);
        }
        _ => panic!("expected engine action"),
    }
}

#[test]
fn driver_maps_close_events() {
    let mut e = engine(RunMode::Daily, None, "c0de");
    match handle_frame(&mut e, &cv("42[\"idle_timeout\"]")).0 {
        FrameAction::Engine(cmds, out) => {
            assert_eq!(cmds.len(), 0);
            assert_eq!(
                out,
                Some(SessionOutcome::ServerClosed(CloseReason::IdleTimeout))
            );
        }
        _ => panic!("expected engine action"),
    }
    match handle_frame(&mut e, &cv("42[\"disconnect\",{}]")).0 {
        FrameAction::Engine(cmds, out) => {
            assert_eq!(cmds.len(), 0);
            assert_eq!(
                out,
                Some(SessionOutcome::ServerClosed(CloseReason::Disconnect))
            );
        }
        _ => panic!("expected engine action"),
    }
}

#[test]
fn driver_ignores_noise_events() {
    let mut e = engine(RunMode::Daily, None, "c0de");
    assert!(matches!(
        handle_frame(&mut e, &cv("42[\"activity_ping\"]")).0,
        FrameAction::Ignore
    ));
    assert!(matches!(
        handle_frame(&mut e, &cv("42[\"user_count_update\",12]")).0,
        FrameAction::Ignore
    ));
    assert!(matches!(
        handle_frame(&mut e, &cv("42 not json")).0,
        FrameAction::Ignore
    ));
    assert!(matches!(
        handle_frame(&mut e, &cv("42[\"output\",{\"nodata\":1}]")).0,
        FrameAction::Ignore
    ));
}

#[test]
fn heartbeat_timeout_fires_regardless_of_activity() {
    let r = supervise(40001, 0, 40000, 25000, None);
    assert_eq!(r, Supervision::Fail(SessionOutcome::ConnectionTimeout));
}

#[test]
fn activity_timeout_after_heartbeats() {
    let r = supervise(200000, 195000, 19999, 25000, Some(190000));
    assert_eq!(r, Supervision::Fail(SessionOutcome::ActivityTimeout));
}

#[test]
fn stuck_start_retry_once_conditions() {
    let r = supervise(50000, 45000, 25000, 25000, Some(25000));
    assert_eq!(r, Supervision::RetryStart);
    let recent = supervise(50000, 45000, 25000, 25000, Some(40000));
    assert_eq!(recent, Supervision::Healthy);
    let cleared = supervise(50000, 45000, 25000, 25000, None);
    assert_eq!(cleared, Supervision::Healthy);
}
