use claude_monitor::plugin::panes::{
    locate_pane, visible, Pane, PaneLookup, ReportedInstance, Session, Tab, VisibleEntry,
};
use claude_monitor::plugin::row::{row_text, shorten};
use claude_monitor::plugin::state::{Command, Event, EventKind, Key, Permission, State};
use claude_monitor::server::{apply_report, state_handler, AppState, Report};
use zellij_tile::ui_components::Text;

fn reported(session: &str, pane: Option<u32>, status: &str) -> ReportedInstance {
    ReportedInstance {
        zellij_session: session.to_string(),
        zellij_pane: pane,
        status: status.to_string(),
        cwd: "/home/me/project".to_string(),
    }
}

fn tab(position: usize, ids: &[u32]) -> Tab {
    Tab {
        position,
        panes: ids.iter().map(|id| Pane { id: *id, is_plugin: false }).collect(),
    }
}

fn session(name: &str, tabs: Vec<Tab>, is_current: bool) -> Session {
    Session { name: name.to_string(), tabs, is_current }
}

fn polled(instances: Vec<ReportedInstance>) -> Event {
    Event::WebRequestResult { status: 200, instances: Some(instances) }
}

fn three() -> State {
    let mut state = State::default();
    let (draw, commands) = state.update(polled(vec![
        reported("main", Some(1), "idle"),
        reported("main", Some(2), "working"),
        reported("other", Some(1), "waiting"),
    ]));
    assert!(draw);
    assert!(commands.is_empty());
    state
}

#[test]
fn loading_asks_for_what_the_plugin_needs() {
    let mut state = State::default();
    let commands = state.load(&vec![]);
    assert_eq!(commands.len(), 3);
    match &commands[0] {
        Command::RequestPermission(p) => assert_eq!(
            p,
            &vec![
                Permission::ReadApplicationState,
                Permission::ChangeApplicationState,
                Permission::WebAccess
            ]
        ),
        _ => panic!("permissions come first"),
    }
    match &commands[1] {
        Command::Subscribe(e) => assert_eq!(
            e,
            &vec![
                EventKind::SessionUpdate,
                EventKind::WebRequestResult,
                EventKind::Timer,
                EventKind::Key,
                EventKind::PermissionRequestResult
            ]
        ),
        _ => panic!("then the events"),
    }
    assert!(matches!(commands[2], Command::SetTimeout { secs: 0 }));
    assert!(matches!(state.poll(), Command::Get { url } if url == "http://127.0.0.1:47100/state"));
}

#[test]
fn the_server_can_be_configured() {
    let mut state = State::default();
    state.load(&vec![
        ("theme".to_string(), "dark".to_string()),
        ("server_url".to_string(), "http://host:1".to_string()),
    ]);
    assert!(matches!(state.poll(), Command::Get { url } if url == "http://host:1/state"));
}

#[test]
fn the_timer_polls_and_goes_on() {
    let mut state = State::default();
    state.load(&vec![]);
    let (draw, commands) = state.update(Event::Timer);
    assert!(!draw);
    assert_eq!(commands.len(), 2);
    assert!(matches!(&commands[0], Command::Get { .. }));
    assert!(matches!(commands[1], Command::SetTimeout { secs: 1 }));
    let (draw, commands) = state.update(Event::PermissionRequestResult);
    assert!(!draw);
    assert_eq!(commands.len(), 1);
    assert!(matches!(&commands[0], Command::Get { .. }));
    let (draw, commands) = state.update(Event::Other);
    assert!(!draw && commands.is_empty());
}

#[test]
fn failed_polls_change_nothing() {
    let mut state = three();
    for event in [
        Event::WebRequestResult { status: 500, instances: Some(vec![]) },
        Event::WebRequestResult { status: 200, instances: None },
        Event::WebRequestResult { status: 404, instances: None },
    ] {
        let (draw, commands) = state.update(event);
        assert!(!draw && commands.is_empty());
        assert_eq!(state.visible().len(), 3);
    }
}

#[test]
fn panes_are_located() {
    let sessions = vec![
        session("main", vec![tab(4, &[1]), tab(0, &[2, 3])], true),
        session("other", vec![], false),
        session("main", vec![tab(9, &[7])], false),
    ];
    assert_eq!(
        locate_pane(&sessions, "main", 3),
        PaneLookup::Alive { tab: 0, is_current: true }
    );
    assert_eq!(
        locate_pane(&sessions, "main", 1),
        PaneLookup::Alive { tab: 4, is_current: true }
    );
    assert_eq!(locate_pane(&sessions, "main", 7), PaneLookup::Dead);
    assert_eq!(locate_pane(&sessions, "other", 1), PaneLookup::Dead);
    assert_eq!(locate_pane(&sessions, "third", 1), PaneLookup::UnknownSession);
}

#[test]
fn plugin_panes_do_not_count() {
    let panes = vec![Pane { id: 5, is_plugin: true }];
    let sessions = vec![session("main", vec![Tab { position: 0, panes }], true)];
    assert_eq!(locate_pane(&sessions, "main", 5), PaneLookup::Dead);
}

#[test]
fn tab_order_does_not_matter() {
    let one = vec![session("main", vec![tab(0, &[1]), tab(1, &[2])], true)];
    let two = vec![session("main", vec![tab(1, &[2]), tab(0, &[1])], true)];
    for pane in [1, 2, 3] {
        assert_eq!(locate_pane(&one, "main", pane), locate_pane(&two, "main", pane));
    }
}

#[test]
fn gone_panes_are_dropped_and_unknown_sessions_shown() {
    let sessions = vec![session("main", vec![tab(2, &[1])], true)];
    let list = vec![
        reported("main", Some(1), "idle"),
        reported("main", Some(2), "working"),
        reported("", Some(1), "idle"),
        reported("later", Some(9), "waiting"),
        reported("main", None, "idle"),
    ];
    let shown = visible(&list, &sessions);
    assert_eq!(shown.len(), 2);
    assert_eq!((shown[0].session.as_str(), shown[0].pane_id), ("main", 1));
    assert_eq!((shown[0].tab, shown[0].is_current_session), (Some(2), true));
    assert_eq!(shown[0].status, "idle");
    assert_eq!(shown[0].cwd, "/home/me/project");
    assert_eq!((shown[1].session.as_str(), shown[1].pane_id), ("later", 9));
    assert_eq!((shown[1].tab, shown[1].is_current_session), (None, false));
}

#[test]
fn keys_move_the_selection() {
    let mut state = three();
    assert_eq!(state.selected(), 0);
    for (key, row) in [
        (Key::Up, 0),
        (Key::Down, 1),
        (Key::Char('j'), 2),
        (Key::Down, 2),
        (Key::Char('k'), 1),
        (Key::Up, 0),
    ] {
        let (draw, commands) = state.update(Event::Key(key));
        assert!(draw && commands.is_empty());
        assert_eq!(state.selected(), row);
    }
    let (draw, commands) = state.update(Event::Key(Key::Char('x')));
    assert!(!draw && commands.is_empty());
    let (draw, commands) = state.handle_key(Key::Other);
    assert!(!draw && commands.is_empty());
}

#[test]
fn the_selection_stays_on_the_display() {
    let mut state = three();
    state.update(Event::Key(Key::Down));
    state.update(Event::Key(Key::Down));
    let gone = vec![session("other", vec![], false)];
    let (draw, _) = state.update(Event::SessionUpdate { sessions: gone });
    assert!(draw);
    assert_eq!(state.selected(), 1);
    state.update(polled(vec![]));
    assert_eq!(state.selected(), 0);
    assert_eq!(state.reported_len(), 0);
    state.update(Event::Key(Key::Down));
    assert_eq!(state.selected(), 0);
}

#[test]
fn enter_jumps_to_the_selected_session() {
    let mut state = three();
    let sessions = vec![
        session("main", vec![tab(0, &[1]), tab(3, &[2])], true),
        session("other", vec![tab(5, &[1])], false),
    ];
    state.update(Event::SessionUpdate { sessions });
    state.update(Event::Key(Key::Down));
    let (draw, commands) = state.update(Event::Key(Key::Enter));
    assert!(!draw);
    assert_eq!(commands.len(), 2);
    assert!(matches!(commands[0], Command::FocusTerminalPane { pane_id: 2 }));
    assert!(matches!(commands[1], Command::CloseSelf));
    state.update(Event::Key(Key::Down));
    let commands = state.activate();
    assert!(matches!(
        &commands[0],
        Command::SwitchSession { session, tab: Some(5), pane_id: 1 } if session == "other"
    ));
    assert!(matches!(commands[1], Command::CloseSelf));
}

#[test]
fn enter_without_pane_information_switches_by_id() {
    let state = three();
    let commands = state.activate();
    assert!(matches!(
        &commands[0],
        Command::SwitchSession { session, tab: None, pane_id: 1 } if session == "main"
    ));
}

#[test]
fn enter_and_close_keys() {
    let mut state = State::default();
    assert!(state.update(Event::Key(Key::Enter)).1.is_empty());
    for key in [Key::Esc, Key::Char('q')] {
        let (draw, commands) = state.update(Event::Key(key));
        assert!(!draw);
        assert_eq!(commands.len(), 1);
        assert!(matches!(commands[0], Command::CloseSelf));
    }
}

#[test]
fn paths_are_shortened_to_two_components() {
    assert_eq!(shorten("/home/me/project"), "…/me/project");
    assert_eq!(shorten("/home/me/project///"), "…/me/project");
    assert_eq!(shorten("a/b"), "…/a/b");
    assert_eq!(shorten("/home"), "…//home");
    assert_eq!(shorten("a//b"), "…//b");
    assert_eq!(shorten("project"), "project");
    assert_eq!(shorten("project/"), "project/");
    assert_eq!(shorten("/"), "/");
    assert_eq!(shorten(""), "");
}

fn entry(status: &str) -> VisibleEntry {
    VisibleEntry {
        session: "main".to_string(),
        pane_id: 1,
        status: status.to_string(),
        cwd: "/home/me/project".to_string(),
        tab: None,
        is_current_session: false,
    }
}

#[test]
fn rows_by_status() {
    let content = "● waiting main  …/me/project";
    let row = row_text(&entry("waiting"), false);
    assert_eq!(row.content(), content);
    let expected = Text::new(content).error_color_range(0..1).dim_range(16..);
    assert_eq!(row.serialize(), expected.serialize());

    let content = "● working main  …/me/project";
    let expected = Text::new(content).color_range(2, 0..1).dim_range(16..);
    assert_eq!(row_text(&entry("working"), false).serialize(), expected.serialize());

    let content = "● idle    main  …/me/project";
    let expected = Text::new(content).color_range(1, 0..1).dim_range(16..);
    assert_eq!(row_text(&entry("idle"), false).serialize(), expected.serialize());

    let content = "○ unheard-of main  …/me/project";
    let expected = Text::new(content).dim_range(0..1).dim_range(19..);
    assert_eq!(row_text(&entry("unheard-of"), false).serialize(), expected.serialize());
}

#[test]
fn the_selected_row_is_drawn_as_such() {
    let content = "● idle    main  …/me/project";
    let expected = Text::new(content).color_range(1, 0..1).dim_range(16..).selected();
    assert_eq!(row_text(&entry("idle"), true).serialize(), expected.serialize());
    let mut state = three();
    state.update(Event::Key(Key::Down));
    let drawings = state.render("Instances", 34);
    let selected: Vec<bool> =
        drawings.iter().map(|d| d.text.serialize().starts_with('x')).collect();
    assert_eq!(selected, [false, false, true, false, false]);
}

#[test]
fn drawing_a_list() {
    let drawings = three().render("Instances", 34);
    assert_eq!(drawings.len(), 5);
    let title = Text::new("Instances").color_range(2, ..);
    assert_eq!(drawings[0].text.serialize(), title.serialize());
    assert_eq!(drawings[1].text.content(), "● idle    main  …/me/project");
    let hint = Text::new("↑/↓ select   ⏎ jump   q/esc close").dim_all();
    assert_eq!(drawings[4].text.serialize(), hint.serialize());
    let rows: Vec<usize> = drawings.iter().map(|d| d.y).collect();
    assert_eq!(rows, [0, 2, 3, 4, 6]);
    for d in &drawings {
        assert_eq!((d.x, d.width, d.height), (0, Some(34), None));
    }
}

#[test]
fn drawing_nothing() {
    let drawings = State::default().render("Instances", 20);
    assert_eq!(drawings.len(), 2);
    let empty = Text::new("(no active instances)").dim_all();
    assert_eq!(drawings[1].text.serialize(), empty.serialize());
    assert_eq!((drawings[1].y, drawings[1].width), (2, Some(20)));
}

#[test]
fn the_display_keeps_the_order_of_the_report() {
    let sessions = vec![session("main", vec![tab(0, &[1, 3])], true)];
    let first = vec![reported("main", Some(3), "idle"), reported("main", Some(2), "idle")];
    let second = vec![reported("x", Some(8), "idle"), reported("main", Some(1), "idle")];
    let ids = |list: &Vec<ReportedInstance>| -> Vec<u32> {
        visible(list, &sessions).iter().map(|e| e.pane_id).collect()
    };
    assert_eq!(ids(&first), [3]);
    assert_eq!(ids(&second), [8, 1]);
    let both: Vec<ReportedInstance> = first.into_iter().chain(second).collect();
    assert_eq!(ids(&both), [3, 8, 1]);
}

#[test]
fn tracked_sessions_show_up() {
    let mut state = AppState::new(None, false);
    for (id, event, zellij, pane) in [
        ("a", "UserPromptSubmit", "main", Some(4)),
        ("b", "Stop", "", None),
        ("c", "PermissionRequest", "main", Some(5)),
    ] {
        let r = Report {
            event: event.to_string(),
            session_id: id.to_string(),
            cwd: format!("/work/{id}"),
            tool_name: String::new(),
            model: String::new(),
            title: String::new(),
            permission_mode: String::new(),
            transcript_path: String::new(),
            agent_type: String::new(),
            zellij_session: zellij.to_string(),
            zellij_pane: pane,
        };
        apply_report(&mut state, &r, 0);
    }
    let received: Vec<ReportedInstance> = state_handler(&state)
        .into_iter()
        .map(|r| ReportedInstance {
            zellij_session: r.zellij_session.unwrap_or_default(),
            zellij_pane: r.zellij_pane,
            status: r.status.to_string(),
            cwd: r.cwd.unwrap_or_default(),
        })
        .collect();
    let shown = visible(&received, &vec![]);
    assert_eq!(shown.len(), 2);
    assert_eq!(row_text(&shown[0], false).content(), "● working main  …/work/a");
    assert_eq!(row_text(&shown[1], false).content(), "● waiting main  …/work/c");
}
