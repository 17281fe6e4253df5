use axum::http::{HeaderMap, HeaderValue};
use claude_monitor::event::{action_for, is_input_tool, Action, Status};
use claude_monitor::headers::header_str;
use claude_monitor::json::{parse_body, str_field};
use claude_monitor::server::{
    apply_report, log_line, log_report, play_sound, read_report, report, short_id, state_handler,
    AppState, Handled, Report,
};

fn headers(session: &str, pane: &str) -> HeaderMap {
    let mut h = HeaderMap::new();
    h.insert("X-Zellij-Session", HeaderValue::from_str(session).unwrap());
    h.insert("X-Zellij-Pane", HeaderValue::from_str(pane).unwrap());
    h
}

fn hook(id: &str, event: &str) -> Report {
    hook_in(id, event, "main", Some(3))
}

fn hook_in(id: &str, event: &str, session: &str, pane: Option<u32>) -> Report {
    Report {
        event: event.to_string(),
        session_id: id.to_string(),
        cwd: "/home/me".to_string(),
        tool_name: String::new(),
        model: String::new(),
        title: String::new(),
        permission_mode: String::new(),
        transcript_path: String::new(),
        agent_type: String::new(),
        zellij_session: session.to_string(),
        zellij_pane: pane,
    }
}

fn status_of(state: &AppState, id: &str) -> Option<&'static str> {
    state_handler(state).iter().find(|r| r.session_id == id).map(|r| r.status)
}

#[test]
fn input_tools() {
    assert!(is_input_tool("AskUserQuestion"));
    assert!(is_input_tool("ExitPlanMode"));
    assert!(!is_input_tool("Bash"));
    assert!(!is_input_tool(""));
}

#[test]
fn events_and_what_they_do() {
    let idle = Action::Become(Status::Idle);
    let working = Action::Become(Status::Working);
    let waiting = Action::Become(Status::Waiting);
    assert_eq!(action_for("SessionStart", ""), idle);
    assert_eq!(action_for("Stop", ""), idle);
    assert_eq!(action_for("SubagentStop", ""), idle);
    assert_eq!(action_for("UserPromptSubmit", ""), working);
    assert_eq!(action_for("PostToolUse", "AskUserQuestion"), working);
    assert_eq!(action_for("PreToolUse", "Bash"), working);
    assert_eq!(action_for("PreToolUse", "AskUserQuestion"), waiting);
    assert_eq!(action_for("PreToolUse", "ExitPlanMode"), waiting);
    assert_eq!(action_for("PermissionRequest", ""), waiting);
    assert_eq!(action_for("Elicitation", ""), waiting);
    assert_eq!(action_for("SessionEnd", ""), Action::Remove);
    assert_eq!(action_for("Notification", ""), Action::Ignore);
    assert_eq!(action_for("", ""), Action::Ignore);
}

#[test]
fn status_names() {
    assert_eq!(Status::Idle.as_str(), "idle");
    assert_eq!(Status::Working.as_str(), "working");
    assert_eq!(Status::Waiting.as_str(), "waiting");
}

#[test]
fn fields_of_a_body() {
    let v = parse_body(r#"{"cwd": "/a", "n": 3, "o": {"cwd": "x"}, "e": "", "u": "é"}"#.as_bytes());
    assert_eq!(str_field(&v, "cwd"), "/a");
    assert_eq!(str_field(&v, "n"), "");
    assert_eq!(str_field(&v, "o"), "");
    assert_eq!(str_field(&v, "e"), "");
    assert_eq!(str_field(&v, "u"), "é");
    assert_eq!(str_field(&v, "missing"), "");
}

#[test]
fn bodies_that_are_no_objects() {
    assert_eq!(parse_body(b"not json"), serde_json::Value::Object(serde_json::Map::new()));
    assert_eq!(parse_body(b""), serde_json::Value::Object(serde_json::Map::new()));
    assert_eq!(str_field(&parse_body(b"[\"cwd\"]"), "cwd"), "");
    assert_eq!(str_field(&parse_body(b"\"cwd\""), "cwd"), "");
    assert_eq!(str_field(&parse_body(b"{} {}"), "cwd"), "");
}

#[test]
fn headers_are_read_as_text() {
    let mut h = headers("main", "12");
    assert_eq!(header_str(&h, "x-zellij-session"), "main");
    assert_eq!(header_str(&h, "X-ZELLIJ-SESSION"), "main");
    assert_eq!(header_str(&h, "x-zellij-pane"), "12");
    assert_eq!(header_str(&h, "x-other"), "");
    assert_eq!(header_str(&h, "no header name"), "");
    h.append("x-zellij-session", HeaderValue::from_static("second"));
    assert_eq!(header_str(&h, "x-zellij-session"), "main");
    h.insert("x-tab", HeaderValue::from_static("a\tb"));
    assert_eq!(header_str(&h, "x-tab"), "a\tb");
    h.insert("x-zellij-session", HeaderValue::from_bytes("é".as_bytes()).unwrap());
    assert_eq!(header_str(&h, "x-zellij-session"), "");
}

#[test]
fn reports_are_read_from_body_and_headers() {
    let body = br#"{"hook_event_name": "PreToolUse", "session_id": "s1", "cwd": "/w",
        "tool_name": "Bash", "model": "m", "title": "t", "permission_mode": "plan",
        "transcript_path": "/t.jsonl", "agent_type": "a"}"#;
    let r = read_report(&parse_body(body), &headers("main", "7"));
    assert_eq!(r.event, "PreToolUse");
    assert_eq!(r.session_id, "s1");
    assert_eq!(r.cwd, "/w");
    assert_eq!(r.tool_name, "Bash");
    assert_eq!(r.model, "m");
    assert_eq!(r.title, "t");
    assert_eq!(r.permission_mode, "plan");
    assert_eq!(r.transcript_path, "/t.jsonl");
    assert_eq!(r.agent_type, "a");
    assert_eq!(r.zellij_session, "main");
    assert_eq!(r.zellij_pane, Some(7));
}

#[test]
fn pane_headers_that_name_no_pane() {
    for pane in ["", "x", "-1", "4294967296"] {
        assert_eq!(read_report(&parse_body(b"{}"), &headers("", pane)).zellij_pane, None);
    }
}

#[test]
fn a_report_is_listed() {
    let mut state = AppState::new(None, false);
    assert!(state_handler(&state).is_empty());
    let handled = report(
        &mut state,
        &headers("main", "7"),
        br#"{"hook_event_name": "UserPromptSubmit", "session_id": "s1", "cwd": "/w"}"#,
    );
    assert!(handled.sound.is_none());
    assert!(handled.log.is_none());
    let list = state_handler(&state);
    assert_eq!(list.len(), 1);
    assert_eq!(list[0].session_id, "s1");
    assert_eq!(list[0].status, "working");
    assert_eq!(list[0].cwd, Some("/w".to_string()));
    assert_eq!(list[0].zellij_session, Some("main".to_string()));
    assert_eq!(list[0].zellij_pane, Some(7));
    assert!(list[0].updated_at > 1_600_000_000_000);
}

#[test]
fn every_answer_is_the_empty_object() {
    let empty = serde_json::Value::Object(serde_json::Map::new());
    let mut state = AppState::new(None, false);
    let bodies: [&[u8]; 4] = [
        b"nonsense",
        br#"{"hook_event_name": "PermissionRequest", "session_id": "s"}"#,
        br#"{"hook_event_name": "SessionEnd", "session_id": "s"}"#,
        br#"{"hook_event_name": "Other", "session_id": "s"}"#,
    ];
    for body in bodies {
        let Handled { reply, .. } = report(&mut state, &HeaderMap::new(), body);
        assert_eq!(reply, empty);
    }
    assert!(state_handler(&state).is_empty());
}

#[test]
fn one_entry_for_each_session() {
    let mut state = AppState::new(None, false);
    apply_report(&mut state, &hook("a", "SessionStart"), 1);
    apply_report(&mut state, &hook("b", "SessionStart"), 2);
    apply_report(&mut state, &hook("a", "UserPromptSubmit"), 3);
    let list = state_handler(&state);
    assert_eq!(list.len(), 2);
    assert_eq!(status_of(&state, "a"), Some("working"));
    assert_eq!(status_of(&state, "b"), Some("idle"));
    assert_eq!(list[0].updated_at, 3);
    assert_eq!(list[1].updated_at, 2);
}

#[test]
fn the_end_takes_a_session_off_the_list() {
    let mut state = AppState::new(None, false);
    apply_report(&mut state, &hook("a", "SessionStart"), 1);
    apply_report(&mut state, &hook("b", "SessionStart"), 2);
    apply_report(&mut state, &hook("c", "SessionStart"), 3);
    let applied = apply_report(&mut state, &hook("b", "SessionEnd"), 4);
    assert_eq!(applied.outcome, "removed");
    assert_eq!(status_of(&state, "b"), None);
    assert_eq!(status_of(&state, "a"), Some("idle"));
    assert_eq!(status_of(&state, "c"), Some("idle"));
    assert_eq!(apply_report(&mut state, &hook("b", "SessionEnd"), 5).outcome, "removed");
    assert_eq!(state_handler(&state).len(), 2);
}

#[test]
fn reports_that_change_nothing() {
    let mut state = AppState::new(Some("ding".to_string()), false);
    apply_report(&mut state, &hook("a", "UserPromptSubmit"), 1);
    assert_eq!(
        apply_report(&mut state, &hook("", "Stop"), 2).outcome,
        "ignored (no session_id)"
    );
    let applied = apply_report(&mut state, &hook("a", "Notification"), 3);
    assert_eq!(applied.outcome, "ignored");
    assert!(applied.sound.is_none());
    assert_eq!(status_of(&state, "a"), Some("working"));
    assert_eq!(state_handler(&state)[0].updated_at, 1);
}

#[test]
fn sessions_outside_zellij_are_tracked() {
    let mut state = AppState::new(None, false);
    report(
        &mut state,
        &HeaderMap::new(),
        br#"{"hook_event_name": "SessionStart", "session_id": "s1"}"#,
    );
    let list = state_handler(&state);
    assert_eq!(list.len(), 1);
    assert_eq!(list[0].zellij_session, None);
    assert_eq!(list[0].zellij_pane, None);
    assert_eq!(list[0].cwd, None);
}

#[test]
fn listing_order_is_the_same_whatever_came_first() {
    let reports = [
        ("z", "alpha", None),
        ("y", "alpha", Some(2)),
        ("x", "alpha", Some(10)),
        ("a", "alpha", Some(10)),
        ("k", "", None),
        ("b", "beta", Some(1)),
    ];
    let expected = ["k", "z", "y", "a", "x", "b"];
    let mut forward = AppState::new(None, false);
    for (id, session, pane) in reports {
        apply_report(&mut forward, &hook_in(id, "Stop", session, pane), 0);
    }
    let mut backward = AppState::new(None, false);
    for (id, session, pane) in reports.iter().rev() {
        apply_report(&mut backward, &hook_in(id, "Stop", session, *pane), 0);
    }
    for state in [forward, backward] {
        let ids: Vec<String> = state_handler(&state).into_iter().map(|r| r.session_id).collect();
        assert_eq!(ids, expected);
    }
}

#[test]
fn sound_on_the_edge_from_work_to_halt() {
    let mut state = AppState::new(Some("ding".to_string()), false);
    assert!(apply_report(&mut state, &hook("a", "SessionStart"), 1).sound.is_none());
    assert!(apply_report(&mut state, &hook("a", "Stop"), 2).sound.is_none());
    assert!(apply_report(&mut state, &hook("a", "UserPromptSubmit"), 3).sound.is_none());
    let applied = apply_report(&mut state, &hook("a", "PermissionRequest"), 4);
    assert_eq!(applied.outcome, "waiting [SOUND]");
    let sound = applied.sound.unwrap();
    assert_eq!(sound.command, "ding");
    assert_eq!(
        sound.env,
        vec![
            ("CLAUDE_MONITOR_STATUS", "waiting".to_string()),
            ("CLAUDE_MONITOR_SESSION_ID", "a".to_string()),
            ("CLAUDE_MONITOR_ZELLIJ_SESSION", "main".to_string()),
            ("CLAUDE_MONITOR_ZELLIJ_PANE", "3".to_string()),
        ]
    );
    let again = apply_report(&mut state, &hook("a", "Stop"), 5);
    assert!(again.sound.is_none());
    assert_eq!(again.outcome, "idle");
    apply_report(&mut state, &hook("a", "PostToolUse"), 6);
    assert_eq!(apply_report(&mut state, &hook("a", "Stop"), 7).outcome, "idle [SOUND]");
}

#[test]
fn no_sound_for_another_session_or_without_a_command() {
    let mut state = AppState::new(Some("ding".to_string()), false);
    apply_report(&mut state, &hook("a", "UserPromptSubmit"), 1);
    assert!(apply_report(&mut state, &hook("b", "Stop"), 2).sound.is_none());
    assert!(apply_report(&mut state, &hook("a", "SessionEnd"), 3).sound.is_none());
    let mut silent = AppState::new(None, false);
    apply_report(&mut silent, &hook("a", "UserPromptSubmit"), 1);
    let applied = apply_report(&mut silent, &hook("a", "Stop"), 2);
    assert!(applied.sound.is_none());
    assert_eq!(applied.outcome, "idle [SOUND]");
}

#[test]
fn sound_outside_zellij_has_no_location() {
    let sound = play_sound(&Some("ding".to_string()), Status::Idle, "id", "", None).unwrap();
    assert_eq!(sound.env[0], ("CLAUDE_MONITOR_STATUS", "idle".to_string()));
    assert_eq!(sound.env[2], ("CLAUDE_MONITOR_ZELLIJ_SESSION", String::new()));
    assert_eq!(sound.env[3], ("CLAUDE_MONITOR_ZELLIJ_PANE", String::new()));
    assert!(play_sound(&None, Status::Idle, "id", "", None).is_none());
}

#[test]
fn model_and_title_stay_from_the_start() {
    let mut state = AppState::new(None, false);
    let mut start = hook("a", "SessionStart");
    start.model = "m".to_string();
    start.title = "t".to_string();
    start.agent_type = "builder".to_string();
    apply_report(&mut state, &start, 1);
    let mut later = hook("a", "UserPromptSubmit");
    later.model = "other".to_string();
    later.permission_mode = "plan".to_string();
    apply_report(&mut state, &later, 2);
    let list = state_handler(&state);
    assert_eq!(list[0].model, Some("m".to_string()));
    assert_eq!(list[0].title, Some("t".to_string()));
    assert_eq!(list[0].permission_mode, Some("plan".to_string()));
    assert_eq!(list[0].transcript_path, None);
    assert_eq!(list[0].agent_type, None);
    apply_report(&mut state, &hook("a", "SessionStart"), 3);
    assert_eq!(state_handler(&state)[0].model, None);
    let mut unknown = hook("b", "Stop");
    unknown.model = "m".to_string();
    apply_report(&mut state, &unknown, 4);
    assert_eq!(state_handler(&state)[1].model, None);
}

#[test]
fn a_repeated_report_changes_nothing() {
    let mut state = AppState::new(None, false);
    apply_report(&mut state, &hook("a", "Stop"), 1);
    apply_report(&mut state, &hook("a", "Stop"), 1);
    let list = state_handler(&state);
    assert_eq!(list.len(), 1);
    assert_eq!((list[0].status, list[0].updated_at), ("idle", 1));
}

#[test]
fn short_ids() {
    assert_eq!(short_id("0123456789"), "01234567");
    assert_eq!(short_id("01234567"), "01234567");
    assert_eq!(short_id("abc"), "abc");
    assert_eq!(short_id(""), "");
    assert_eq!(short_id("ééééééééé"), "éééééééé");
}

#[test]
fn log_lines() {
    assert_eq!(
        log_line("01:02:03.004", "Stop", "0123", "main", "idle [SOUND]"),
        "[01:02:03.004] report event=Stop             id=0123     zellij=main -> idle [SOUND]"
    );
    assert_eq!(
        log_line("01:02:03.004", "PermissionRequest", "01234567", "", "waiting"),
        "[01:02:03.004] report event=PermissionRequest id=01234567 zellij=- -> waiting"
    );
    let line = log_report("Stop", "-", "", "ignored");
    assert_eq!(&line[13..], "] report event=Stop             id=-        zellij=- -> ignored");
}

#[test]
fn reports_are_logged_when_asked_for() {
    let mut state = AppState::new(None, true);
    let body = br#"{"hook_event_name": "SessionStart", "session_id": "0123456789"}"#;
    let log = report(&mut state, &headers("main", "1"), body).log.unwrap();
    assert_eq!(
        &log[13..],
        "] report event=SessionStart     id=01234567 zellij=main -> idle"
    );
    let log = report(&mut state, &HeaderMap::new(), b"{}").log.unwrap();
    assert_eq!(
        &log[13..],
        "] report event=                 id=-        zellij=- -> ignored (no session_id)"
    );
}

#[test]
fn the_location_is_only_carried() {
    let mut inside = AppState::new(Some("ding".to_string()), false);
    let mut outside = AppState::new(Some("ding".to_string()), false);
    for event in ["SessionStart", "UserPromptSubmit", "Stop", "Notification", "SessionEnd"] {
        let a = apply_report(&mut inside, &hook_in("a", event, "main", Some(3)), 1);
        let b = apply_report(&mut outside, &hook_in("a", event, "", None), 1);
        assert_eq!(a.outcome, b.outcome);
        assert_eq!(a.sound.is_some(), b.sound.is_some());
        assert_eq!(status_of(&inside, "a"), status_of(&outside, "a"));
    }
}

#[test]
fn a_body_that_is_not_json_changes_nothing() {
    let mut state = AppState::new(None, true);
    apply_report(&mut state, &hook("a", "UserPromptSubmit"), 1);
    let handled = report(&mut state, &headers("main", "3"), b"{\"session_id\": \"a\"");
    assert_eq!(
        &handled.log.unwrap()[13..],
        "] report event=                 id=-        zellij=main -> ignored (no session_id)"
    );
    assert_eq!(status_of(&state, "a"), Some("working"));
    assert_eq!(state_handler(&state).len(), 1);
}

#[test]
fn work_comes_between_any_two_sounds() {
    let mut state = AppState::new(Some("ding".to_string()), false);
    let events = [
        "SessionStart",
        "UserPromptSubmit",
        "PermissionRequest",
        "Stop",
        "Notification",
        "SessionStart",
        "Elicitation",
        "PostToolUse",
        "Stop",
        "SessionEnd",
        "Stop",
    ];
    let sounded: Vec<bool> = events
        .iter()
        .map(|event| {
            apply_report(&mut state, &hook("b", "Stop"), 0);
            apply_report(&mut state, &hook("a", event), 0).sound.is_some()
        })
        .collect();
    let at: Vec<usize> = (0..events.len()).filter(|i| sounded[*i]).collect();
    assert_eq!(at, [2, 8]);
}

#[test]
fn no_sound_before_any_work() {
    let mut state = AppState::new(Some("ding".to_string()), false);
    for event in ["Stop", "SessionStart", "PermissionRequest", "Elicitation", "SubagentStop"] {
        apply_report(&mut state, &hook("b", "UserPromptSubmit"), 0);
        assert!(apply_report(&mut state, &hook("a", event), 0).sound.is_none());
    }
    apply_report(&mut state, &hook("a", "PreToolUse"), 0);
    assert!(apply_report(&mut state, &hook("a", "Stop"), 0).sound.is_some());
}

#[test]
fn start_details_stay_through_a_run() {
    let mut state = AppState::new(None, false);
    let mut start = hook("a", "SessionStart");
    start.model = "m".to_string();
    start.title = "t".to_string();
    apply_report(&mut state, &start, 0);
    for event in ["UserPromptSubmit", "PreToolUse", "Notification", "PermissionRequest", "Stop"] {
        apply_report(&mut state, &hook("b", "SessionStart"), 0);
        apply_report(&mut state, &hook("b", "SessionEnd"), 0);
        apply_report(&mut state, &hook("a", event), 0);
        let list = state_handler(&state);
        assert_eq!(list.len(), 1);
        assert_eq!(list[0].model, Some("m".to_string()));
        assert_eq!(list[0].title, Some("t".to_string()));
    }
    apply_report(&mut state, &hook("a", "SessionEnd"), 0);
    apply_report(&mut state, &hook("a", "Stop"), 0);
    assert_eq!(state_handler(&state)[0].model, None);
}
